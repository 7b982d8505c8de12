//! The server's configuration, as read from `config.yaml`.
use vstd::prelude::*;

verus! {

/// The whole configuration: the server's listeners and the routes it serves.
#[derive(Debug, Clone)]
pub struct Config {
    pub server: ServerConfig,
    pub routes: Vec<RouteConfig>,
}

/// Which listeners run, on which ports, and the TLS material for QUIC.
#[derive(Debug, Clone)]
pub struct ServerConfig {
    pub enable_http: bool,
    pub enable_ws: bool,
    pub enable_quic: bool,
    pub http_port: u16,
    pub ws_port: u16,
    pub quic_port: u16,
    pub cert_path: String,
    pub key_path: String,
}

/// A route: requests whose path starts with `path` go to `upstream`,
/// optionally through the cache, and trigger the listed plugins.
#[derive(Debug, Clone)]
pub struct RouteConfig {
    pub path: String,
    pub upstream: String,
    pub cache: bool,
    pub plugins: Vec<RoutePluginConfig>,
}

/// A plugin named by a route, with the options given to it in the
/// configuration (a free-form map, handed over as it was written).
#[derive(Debug, Clone)]
pub struct RoutePluginConfig {
    pub name: String,
    pub triggers: Option<Vec<TriggerConfig>>,
    pub options: Option<serde_json::Value>,
}

/// An event on which a plugin is meant to fire.
#[derive(Debug, Clone)]
pub struct TriggerConfig {
    pub event: String,
    pub protocol: Option<String>,
}

/// The listeners the server can run.
#[derive(Debug, Clone, Copy, PartialEq, Eq)]
pub enum Listener {
    Http,
    WebSocket,
    Quic,
}

/// The names of the plugins of one route, in order.
pub open spec fn route_plugin_names(route: RouteConfig) -> Seq<Seq<char>> {
    route.plugins@.map_values(|p: RoutePluginConfig| p.name@)
}

/// The names of the plugins that the routes name, route after route, each
/// route's plugins in order; a name appears as often as it is named.
pub open spec fn plugin_names(routes: Seq<RouteConfig>) -> Seq<Seq<char>>
    decreases routes.len(),
{
    if routes.len() == 0 {
        Seq::empty()
    } else {
        plugin_names(routes.drop_last()) + route_plugin_names(routes.last())
    }
}

/// The texts of a list of strings.
pub open spec fn texts(v: Seq<String>) -> Seq<Seq<char>> {
    v.map_values(|s: String| s@)
}

/// The listeners that are switched on, in the order HTTP, WebSocket, QUIC.
pub open spec fn enabled(server: ServerConfig) -> Seq<Listener> {
    (if server.enable_http { seq![Listener::Http] } else { Seq::empty() })
    + (if server.enable_ws { seq![Listener::WebSocket] } else { Seq::empty() })
    + (if server.enable_quic { seq![Listener::Quic] } else { Seq::empty() })
}

impl ServerConfig {
    /// The listeners to start.
    pub fn enabled_listeners(&self) -> (r: Vec<Listener>)
        ensures
            r@ == enabled(*self),
            r@.contains(Listener::Http) <==> self.enable_http,
            r@.contains(Listener::WebSocket) <==> self.enable_ws,
            r@.contains(Listener::Quic) <==> self.enable_quic,
    {
        let mut r: Vec<Listener> = Vec::new();
        if self.enable_http {
            r.push(Listener::Http);
        }
        if self.enable_ws {
            r.push(Listener::WebSocket);
        }
        if self.enable_quic {
            r.push(Listener::Quic);
        }
        proof {
            lemma_enabled_listeners(*self);
        }
        r
    }
}

impl Config {
    /// The plugins that the routes require, in the order in which they are named.
    pub fn required_plugins(&self) -> (r: Vec<String>)
        ensures
            texts(r@) == plugin_names(self.routes@),
    {
        let mut r: Vec<String> = Vec::new();
        let mut i: usize = 0;
        while i < self.routes.len()
            invariant
                i <= self.routes@.len(),
                texts(r@) == plugin_names(self.routes@.subrange(0, i as int)),
            decreases self.routes@.len() - i,
        {
            let route = &self.routes[i];
            let ghost before = r@;
            let mut j: usize = 0;
            while j < route.plugins.len()
                invariant
                    j <= route.plugins@.len(),
                    texts(r@) == texts(before) + route_plugin_names(*route).subrange(0, j as int),
                decreases route.plugins@.len() - j,
            {
                let name = route.plugins[j].name.clone();
                let ghost prev = r@;
                r.push(name);
                assert(texts(r@) =~= texts(prev).push(route.plugins@[j as int].name@));
                assert(texts(r@) =~= texts(before) + route_plugin_names(*route).subrange(0, j + 1));
                j = j + 1;
            }
            assert(route_plugin_names(*route).subrange(0, j as int) =~= route_plugin_names(*route));
            assert(self.routes@.subrange(0, i + 1).drop_last() =~= self.routes@.subrange(0, i as int));
            i = i + 1;
        }
        assert(self.routes@.subrange(0, i as int) =~= self.routes@);
        r
    }
}

/// The plugins a route names are its plugins' names, one for each plugin, in
/// the route's order, whatever else the route says.
pub proof fn lemma_route_plugin_names(route: RouteConfig)
    ensures
        route_plugin_names(route).len() == route.plugins@.len(),
        forall|k: int| 0 <= k < route.plugins@.len()
            ==> #[trigger] route_plugin_names(route)[k] == route.plugins@[k].name@,
{
}

/// The required plugins are the routes' plugin names, route after route,
/// whatever else each route says: none for no routes, and one more route
/// appends exactly its plugins' names, in order.
pub proof fn lemma_plugin_names_concat(routes: Seq<RouteConfig>, route: RouteConfig)
    ensures
        plugin_names(Seq::empty()) == Seq::<Seq<char>>::empty(),
        plugin_names(routes.push(route)) == plugin_names(routes) + route.plugins@.map_values(|p: RoutePluginConfig| p.name@),
{
    assert(routes.push(route).drop_last() =~= routes);
}

/// Every plugin that any route names is required.
pub proof fn lemma_every_named_plugin_required(routes: Seq<RouteConfig>, i: int, k: int)
    requires
        0 <= i < routes.len(),
        0 <= k < routes[i].plugins@.len(),
    ensures
        plugin_names(routes).contains(routes[i].plugins@[k].name@),
    decreases routes.len(),
{
    let rest = routes.drop_last();
    let before = plugin_names(rest);
    let own = route_plugin_names(routes.last());
    if i == routes.len() - 1 {
        assert((before + own)[before.len() + k] == own[k]);
        assert(own[k] == routes[i].plugins@[k].name@);
    } else {
        assert(rest[i] == routes[i]);
        lemma_every_named_plugin_required(rest, i, k);
        let w = choose|w: int| 0 <= w < before.len() && before[w] == routes[i].plugins@[k].name@;
        assert((before + own)[w] == before[w]);
    }
}

/// Where a listener stands in the start order.
pub open spec fn start_rank(l: Listener) -> int {
    match l {
        Listener::Http => 0,
        Listener::WebSocket => 1,
        Listener::Quic => 2,
    }
}

/// Each listener is started exactly when its own switch is on, each at most
/// once, in the order HTTP, WebSocket, QUIC.
pub proof fn lemma_enabled_listeners(server: ServerConfig)
    ensures
        enabled(server).contains(Listener::Http) <==> server.enable_http,
        enabled(server).contains(Listener::WebSocket) <==> server.enable_ws,
        enabled(server).contains(Listener::Quic) <==> server.enable_quic,
        enabled(server).len() == (if server.enable_http { 1int } else { 0 })
            + (if server.enable_ws { 1int } else { 0 }) + (if server.enable_quic { 1int } else { 0 }),
        forall|i: int, j: int| 0 <= i < j < enabled(server).len()
            ==> start_rank(#[trigger] enabled(server)[i]) < start_rank(#[trigger] enabled(server)[j]),
{
    let e = enabled(server);
    let h = if server.enable_http { seq![Listener::Http] } else { Seq::empty() };
    let w = if server.enable_ws { seq![Listener::WebSocket] } else { Seq::empty() };
    let q = if server.enable_quic { seq![Listener::Quic] } else { Seq::empty() };
    assert(e == h + w + q);
    if server.enable_http { assert(e[0] == Listener::Http); }
    if server.enable_ws { assert(e[h.len() as int] == Listener::WebSocket); }
    if server.enable_quic { assert(e[(h.len() + w.len()) as int] == Listener::Quic); }
    assert forall|l: Listener| #[trigger] e.contains(l) ==> (
        (l == Listener::Http ==> server.enable_http)
        && (l == Listener::WebSocket ==> server.enable_ws)
        && (l == Listener::Quic ==> server.enable_quic)) by {
        if e.contains(l) {
            let k = choose|k: int| 0 <= k < e.len() && e[k] == l;
            if k < h.len() {
                assert(e[k] == h[k]);
            } else if k < h.len() + w.len() {
                assert(e[k] == w[k - h.len()]);
            } else {
                assert(e[k] == q[k - h.len() - w.len()]);
            }
        }
    }
    assert(e.contains(Listener::Http) ==> server.enable_http);
    assert(e.contains(Listener::WebSocket) ==> server.enable_ws);
    assert(e.contains(Listener::Quic) ==> server.enable_quic);
    assert forall|i: int, j: int| 0 <= i < j < e.len()
        implies start_rank(#[trigger] e[i]) < start_rank(#[trigger] e[j]) by {
        let hl = h.len() as int;
        let wl = w.len() as int;
        if i < hl { assert(e[i] == h[i]); } else if i < hl + wl { assert(e[i] == w[i - hl]); } else { assert(e[i] == q[i - hl - wl]); }
        if j < hl { assert(e[j] == h[j]); } else if j < hl + wl { assert(e[j] == w[j - hl]); } else { assert(e[j] == q[j - hl - wl]); }
    }
}

} // verus!
