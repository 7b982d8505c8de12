//! Hot reload: what the configuration watcher does as events arrive. A change
//! of the configuration file reloads the configuration and then the plugins;
//! an unreadable configuration or a watch error is skipped; a failure to load
//! the plugins ends the reloading for good.
use vstd::prelude::*;

verus! {

/// What the watcher is doing.
#[derive(Debug, Clone, Copy, PartialEq, Eq)]
pub enum ReloadState {
    /// Waiting for the configuration file to change.
    Watching,
    /// Reading the changed configuration file.
    LoadingConfig,
    /// Loading the plugins of the configuration just read.
    LoadingPlugins,
    /// Reloading has ended.
    Stopped,
}

/// What the watcher learns.
#[derive(Debug, Clone, Copy, PartialEq, Eq)]
pub enum ReloadEvent {
    /// The file watcher reported an error.
    WatchFailed,
    /// The configuration file changed.
    FileChanged,
    /// The file watcher is gone: no more events will come.
    WatcherGone,
    /// The configuration file was read and parsed.
    ConfigLoaded,
    /// The configuration file could not be read or parsed.
    ConfigUnreadable,
    /// The plugins of the new configuration were loaded.
    PluginsLoaded,
    /// Loading the plugins of the new configuration failed.
    PluginsFailed,
}

/// What the watcher does next.
#[derive(Debug, Clone, Copy, PartialEq, Eq)]
pub enum ReloadAction {
    /// Wait for the next event.
    Wait,
    /// Read the configuration file.
    LoadConfig,
    /// Make the configuration just read the current one and load its plugins.
    StoreConfigAndLoadPlugins,
    /// Make the plugins just loaded the current ones.
    ReplacePlugins,
    /// End the reloading.
    Stop,
}

/// The watcher's transition table. An event that does not belong to the state
/// (such as a file change while plugins load) changes nothing.
pub open spec fn reload_spec(state: ReloadState, event: ReloadEvent) -> (ReloadState, ReloadAction) {
    match (state, event) {
        (ReloadState::Stopped, _) => (ReloadState::Stopped, ReloadAction::Stop),
        (_, ReloadEvent::WatcherGone) => (ReloadState::Stopped, ReloadAction::Stop),
        (ReloadState::Watching, ReloadEvent::FileChanged) => (ReloadState::LoadingConfig, ReloadAction::LoadConfig),
        (ReloadState::LoadingConfig, ReloadEvent::ConfigLoaded) =>
            (ReloadState::LoadingPlugins, ReloadAction::StoreConfigAndLoadPlugins),
        (ReloadState::LoadingConfig, ReloadEvent::ConfigUnreadable) => (ReloadState::Watching, ReloadAction::Wait),
        (ReloadState::LoadingPlugins, ReloadEvent::PluginsLoaded) => (ReloadState::Watching, ReloadAction::ReplacePlugins),
        (ReloadState::LoadingPlugins, ReloadEvent::PluginsFailed) => (ReloadState::Stopped, ReloadAction::Stop),
        _ => (state, ReloadAction::Wait),
    }
}

/// The watcher's next state and action.
pub fn reload_step(state: ReloadState, event: ReloadEvent) -> (r: (ReloadState, ReloadAction))
    ensures
        r == reload_spec(state, event),
{
    match (state, event) {
        (ReloadState::Stopped, _) => (ReloadState::Stopped, ReloadAction::Stop),
        (_, ReloadEvent::WatcherGone) => (ReloadState::Stopped, ReloadAction::Stop),
        (ReloadState::Watching, ReloadEvent::FileChanged) => (ReloadState::LoadingConfig, ReloadAction::LoadConfig),
        (ReloadState::LoadingConfig, ReloadEvent::ConfigLoaded) =>
            (ReloadState::LoadingPlugins, ReloadAction::StoreConfigAndLoadPlugins),
        (ReloadState::LoadingConfig, ReloadEvent::ConfigUnreadable) => (ReloadState::Watching, ReloadAction::Wait),
        (ReloadState::LoadingPlugins, ReloadEvent::PluginsLoaded) => (ReloadState::Watching, ReloadAction::ReplacePlugins),
        (ReloadState::LoadingPlugins, ReloadEvent::PluginsFailed) => (ReloadState::Stopped, ReloadAction::Stop),
        _ => (state, ReloadAction::Wait),
    }
}

/// The states and actions after each of `events`, starting from `state`.
pub open spec fn reload_run(state: ReloadState, events: Seq<ReloadEvent>) -> Seq<(ReloadState, ReloadAction)>
    decreases events.len(),
{
    if events.len() == 0 {
        Seq::empty()
    } else {
        let before = reload_run(state, events.drop_last());
        let current = if before.len() == 0 { state } else { before.last().0 };
        before.push(reload_spec(current, events.last()))
    }
}

/// A file change, then a loaded configuration, then loaded plugins: the
/// watcher reads the configuration, stores it and loads its plugins, replaces
/// the plugins, and is back to watching.
pub proof fn lemma_reload_cycle()
    ensures
        reload_run(ReloadState::Watching, seq![
            ReloadEvent::FileChanged,
            ReloadEvent::ConfigLoaded,
            ReloadEvent::PluginsLoaded,
        ]) == seq![
            (ReloadState::LoadingConfig, ReloadAction::LoadConfig),
            (ReloadState::LoadingPlugins, ReloadAction::StoreConfigAndLoadPlugins),
            (ReloadState::Watching, ReloadAction::ReplacePlugins),
        ],
{
    let w = ReloadState::Watching;
    let e1 = seq![ReloadEvent::FileChanged];
    let e2 = seq![ReloadEvent::FileChanged, ReloadEvent::ConfigLoaded];
    let e3 = seq![ReloadEvent::FileChanged, ReloadEvent::ConfigLoaded, ReloadEvent::PluginsLoaded];
    assert(e1.drop_last() =~= Seq::<ReloadEvent>::empty());
    assert(e2.drop_last() =~= e1);
    assert(e3.drop_last() =~= e2);
    assert(reload_run(w, Seq::<ReloadEvent>::empty()) =~= Seq::empty());
    let r1 = reload_run(w, e1);
    assert(r1 =~= seq![(ReloadState::LoadingConfig, ReloadAction::LoadConfig)]);
    let r2 = reload_run(w, e2);
    assert(r2 =~= r1.push((ReloadState::LoadingPlugins, ReloadAction::StoreConfigAndLoadPlugins)));
    let r3 = reload_run(w, e3);
    assert(r3 =~= r2.push((ReloadState::Watching, ReloadAction::ReplacePlugins)));
}

/// A watch error or an unreadable configuration changes nothing and the
/// watcher keeps watching; failed plugins after the configuration was stored
/// end the reloading; once ended, reloading stays ended whatever comes.
pub proof fn lemma_reload_failures(event: ReloadEvent)
    ensures
        reload_spec(ReloadState::Watching, ReloadEvent::WatchFailed) == (ReloadState::Watching, ReloadAction::Wait),
        reload_spec(ReloadState::LoadingConfig, ReloadEvent::ConfigUnreadable) == (ReloadState::Watching, ReloadAction::Wait),
        reload_spec(ReloadState::LoadingPlugins, ReloadEvent::PluginsFailed) == (ReloadState::Stopped, ReloadAction::Stop),
        reload_spec(ReloadState::Stopped, event) == (ReloadState::Stopped, ReloadAction::Stop),
{
}

/// Plugins are replaced only by the step that follows loading them, and the
/// configuration is stored only by the step that follows reading it.
pub proof fn lemma_reload_order(state: ReloadState, event: ReloadEvent)
    ensures
        reload_spec(state, event).1 == ReloadAction::ReplacePlugins
            ==> state == ReloadState::LoadingPlugins && event == ReloadEvent::PluginsLoaded,
        reload_spec(state, event).1 == ReloadAction::StoreConfigAndLoadPlugins
            ==> state == ReloadState::LoadingConfig && event == ReloadEvent::ConfigLoaded,
        reload_spec(state, event).1 == ReloadAction::LoadConfig
            ==> state == ReloadState::Watching && event == ReloadEvent::FileChanged,
{
}

/// Once reloading has ended, every later event gives `Stop`.
pub proof fn lemma_stopped_stays(events: Seq<ReloadEvent>)
    ensures
        reload_run(ReloadState::Stopped, events).len() == events.len(),
        forall|k: int| 0 <= k < events.len() ==>
            #[trigger] reload_run(ReloadState::Stopped, events)[k] == (ReloadState::Stopped, ReloadAction::Stop),
    decreases events.len(),
{
    if events.len() > 0 {
        let rest = events.drop_last();
        lemma_stopped_stays(rest);
        let before = reload_run(ReloadState::Stopped, rest);
        if before.len() > 0 {
            assert(before.last() == before[before.len() - 1]);
        }
        let all = reload_run(ReloadState::Stopped, events);
        assert(all == before.push(reload_spec(ReloadState::Stopped, events.last())));
        assert forall|k: int| 0 <= k < events.len() implies
            #[trigger] all[k] == (ReloadState::Stopped, ReloadAction::Stop) by {
            if k < before.len() {
                assert(all[k] == before[k]);
            }
        }
    }
}

/// What the outside work of an action reports, given whether reading the
/// configuration succeeds and whether loading its plugins does; `None` for an
/// action that reports nothing (the watcher then waits for the next event).
pub open spec fn work_outcome(action: ReloadAction, config_ok: bool, plugins_ok: bool) -> Option<ReloadEvent> {
    match action {
        ReloadAction::LoadConfig => Some(
            if config_ok { ReloadEvent::ConfigLoaded } else { ReloadEvent::ConfigUnreadable },
        ),
        ReloadAction::StoreConfigAndLoadPlugins => Some(
            if plugins_ok { ReloadEvent::PluginsLoaded } else { ReloadEvent::PluginsFailed },
        ),
        _ => None,
    }
}

/// One round of the watcher: the steps taken from `state` for a watcher
/// `event` and for what the work of each action reports, until an action
/// reports nothing. Gives the state it ends in and the actions taken.
pub open spec fn reload_round(state: ReloadState, event: ReloadEvent, config_ok: bool, plugins_ok: bool)
    -> (ReloadState, Seq<ReloadAction>)
{
    let (s1, a1) = reload_spec(state, event);
    match work_outcome(a1, config_ok, plugins_ok) {
        None => (s1, seq![a1]),
        Some(e2) => {
            let (s2, a2) = reload_spec(s1, e2);
            match work_outcome(a2, config_ok, plugins_ok) {
                None => (s2, seq![a1, a2]),
                Some(e3) => {
                    let (s3, a3) = reload_spec(s2, e3);
                    (s3, seq![a1, a2, a3])
                },
            }
        },
    }
}

/// The watcher waits for its next event only when watching or stopped: a
/// round that starts there ends there, whatever the event and whatever the
/// work reports. So every event finds the watcher watching until it stops.
pub proof fn lemma_round_settles(state: ReloadState, event: ReloadEvent, config_ok: bool, plugins_ok: bool)
    requires
        state == ReloadState::Watching || state == ReloadState::Stopped,
    ensures
        reload_round(state, event, config_ok, plugins_ok).0 == ReloadState::Watching
            || reload_round(state, event, config_ok, plugins_ok).0 == ReloadState::Stopped,
        state == ReloadState::Stopped ==> reload_round(state, event, config_ok, plugins_ok)
            == (ReloadState::Stopped, seq![ReloadAction::Stop]),
{
}

/// A round from watching, by what the event is and what the work reports:
/// - a change whose configuration and plugins load stores the configuration
///   and replaces the whole plugin map, and keeps watching;
/// - a watch error, or a change whose configuration cannot be read, touches
///   neither the configuration nor the plugins, and keeps watching;
/// - a change whose configuration loads but whose plugins fail stores the
///   configuration, keeps the old plugins, and stops for good.
pub proof fn lemma_round_from_watching(config_ok: bool, plugins_ok: bool)
    ensures
        config_ok && plugins_ok ==> reload_round(ReloadState::Watching, ReloadEvent::FileChanged, config_ok, plugins_ok)
            == (ReloadState::Watching, seq![
                ReloadAction::LoadConfig,
                ReloadAction::StoreConfigAndLoadPlugins,
                ReloadAction::ReplacePlugins,
            ]),
        reload_round(ReloadState::Watching, ReloadEvent::WatchFailed, config_ok, plugins_ok)
            == (ReloadState::Watching, seq![ReloadAction::Wait]),
        !config_ok ==> reload_round(ReloadState::Watching, ReloadEvent::FileChanged, config_ok, plugins_ok)
            == (ReloadState::Watching, seq![ReloadAction::LoadConfig, ReloadAction::Wait]),
        config_ok && !plugins_ok ==> reload_round(ReloadState::Watching, ReloadEvent::FileChanged, config_ok, plugins_ok)
            == (ReloadState::Stopped, seq![
                ReloadAction::LoadConfig,
                ReloadAction::StoreConfigAndLoadPlugins,
                ReloadAction::Stop,
            ]),
        reload_round(ReloadState::Watching, ReloadEvent::WatcherGone, config_ok, plugins_ok)
            == (ReloadState::Stopped, seq![ReloadAction::Stop]),
{
}

} // verus!
