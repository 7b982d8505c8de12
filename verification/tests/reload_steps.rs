use waspedge::reload::{reload_step, ReloadAction, ReloadEvent, ReloadState};

#[test]
fn change_reloads_config_then_plugins() {
    let (s, a) = reload_step(ReloadState::Watching, ReloadEvent::FileChanged);
    assert_eq!((s, a), (ReloadState::LoadingConfig, ReloadAction::LoadConfig));
    let (s, a) = reload_step(s, ReloadEvent::ConfigLoaded);
    assert_eq!((s, a), (ReloadState::LoadingPlugins, ReloadAction::StoreConfigAndLoadPlugins));
    let (s, a) = reload_step(s, ReloadEvent::PluginsLoaded);
    assert_eq!((s, a), (ReloadState::Watching, ReloadAction::ReplacePlugins));
}

#[test]
fn skipped_events_keep_watching() {
    assert_eq!(reload_step(ReloadState::Watching, ReloadEvent::WatchFailed), (ReloadState::Watching, ReloadAction::Wait));
    assert_eq!(
        reload_step(ReloadState::LoadingConfig, ReloadEvent::ConfigUnreadable),
        (ReloadState::Watching, ReloadAction::Wait)
    );
    assert_eq!(
        reload_step(ReloadState::LoadingPlugins, ReloadEvent::FileChanged),
        (ReloadState::LoadingPlugins, ReloadAction::Wait)
    );
}

#[test]
fn failed_plugins_end_reloading() {
    assert_eq!(reload_step(ReloadState::LoadingPlugins, ReloadEvent::PluginsFailed), (ReloadState::Stopped, ReloadAction::Stop));
    assert_eq!(reload_step(ReloadState::Stopped, ReloadEvent::FileChanged), (ReloadState::Stopped, ReloadAction::Stop));
    assert_eq!(reload_step(ReloadState::Watching, ReloadEvent::WatcherGone), (ReloadState::Stopped, ReloadAction::Stop));
}

#[test]
fn unreadable_config_round_keeps_watching() {
    let (s, a) = reload_step(ReloadState::Watching, ReloadEvent::FileChanged);
    assert_eq!(a, ReloadAction::LoadConfig);
    let (s, a) = reload_step(s, ReloadEvent::ConfigUnreadable);
    assert_eq!((s, a), (ReloadState::Watching, ReloadAction::Wait));
}

#[test]
fn failed_plugins_round_stops() {
    let (s, _) = reload_step(ReloadState::Watching, ReloadEvent::FileChanged);
    let (s, a) = reload_step(s, ReloadEvent::ConfigLoaded);
    assert_eq!(a, ReloadAction::StoreConfigAndLoadPlugins);
    let (s, a) = reload_step(s, ReloadEvent::PluginsFailed);
    assert_eq!((s, a), (ReloadState::Stopped, ReloadAction::Stop));
    assert_eq!(reload_step(s, ReloadEvent::FileChanged), (ReloadState::Stopped, ReloadAction::Stop));
}
