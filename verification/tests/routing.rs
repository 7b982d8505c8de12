use waspedge::cache::{get, init};
use waspedge::config::{RouteConfig, RoutePluginConfig, TriggerConfig};
use waspedge::router::{
    backend_uri, complete_forward, contains_name, find_route, not_found_body, plan_request,
    plugins_to_run, RequestPlan, NOT_FOUND_STATUS,
};
use waspedge::text::has_prefix;

fn plugin(name: &str) -> RoutePluginConfig {
    RoutePluginConfig { name: name.to_string(), triggers: None, options: None }
}

fn route(path: &str, upstream: &str, cache: bool, plugins: Vec<RoutePluginConfig>) -> RouteConfig {
    RouteConfig { path: path.to_string(), upstream: upstream.to_string(), cache, plugins }
}

fn assert_forward(plan: RequestPlan, want_route: usize, want_uri: &str, want_store: bool) {
    match plan {
        RequestPlan::Forward { route, uri, target, store } => {
            assert_eq!(route, want_route);
            assert_eq!(uri, want_uri);
            assert_eq!(target.to_string(), want_uri);
            assert_eq!(store, want_store);
        }
        other => panic!("unexpected plan {:?}", other),
    }
}

fn sample_routes() -> Vec<RouteConfig> {
    vec![
        route("/api", "http://backend:8080", true, vec![plugin("auth"), plugin("log")]),
        route("/", "http://static:9000", false, vec![]),
    ]
}

#[test]
fn prefix_is_compared_byte_by_byte() {
    assert!(has_prefix("/api/users", "/api"));
    assert!(has_prefix("/api", "/api"));
    assert!(has_prefix("/anything", ""));
    assert!(!has_prefix("/ap", "/api"));
    assert!(!has_prefix("/apx", "/api"));
    assert!(has_prefix("/caffè/menu", "/caffè"));
    assert!(!has_prefix("/caffe", "/caffè"));
}

#[test]
fn first_matching_route_wins() {
    let routes = sample_routes();
    assert_eq!(find_route(&routes, "/api/users"), Some(0));
    assert_eq!(find_route(&routes, "/index.html"), Some(1));
    assert_eq!(find_route(&routes, "/api"), Some(0));
    let reversed = vec![routes[1].clone(), routes[0].clone()];
    assert_eq!(find_route(&reversed, "/api/users"), Some(0));
}

#[test]
fn no_route_means_not_found() {
    let routes = vec![route("/api", "http://backend:8080", true, vec![])];
    assert_eq!(find_route(&routes, "/other"), None);
    assert_eq!(find_route(&Vec::new(), "/"), None);
    let cache = init();
    assert!(matches!(plan_request(&routes, &cache, "/other", "/other?x=1"), RequestPlan::NotFound));
    assert_eq!(NOT_FOUND_STATUS, 404);
    assert_eq!(not_found_body(), "404 - Route non trovata");
}

#[test]
fn backend_uri_appends_path_and_query() {
    assert_eq!(backend_uri("http://backend:8080", "/api/users?id=3"), "http://backend:8080/api/users?id=3");
    assert_eq!(backend_uri("http://backend:8080", ""), "http://backend:8080");
}

#[test]
fn uncached_route_is_forwarded() {
    let routes = sample_routes();
    let cache = init();
    assert_forward(plan_request(&routes, &cache, "/index.html", "/index.html?v=2"), 1, "http://static:9000/index.html?v=2", false);
}

#[test]
fn cached_answer_is_served_after_store() {
    let routes = sample_routes();
    let mut cache = init();
    let first = plan_request(&routes, &cache, "/api/users", "/api/users");
    assert_forward(first, 0, "http://backend:8080/api/users", true);
    let body = complete_forward(&mut cache, true, "/api/users".to_string(), b"[1,2]".to_vec());
    assert_eq!(body, b"[1,2]".to_vec());
    match plan_request(&routes, &cache, "/api/users", "/api/users?page=2") {
        RequestPlan::Cached { route, body } => {
            assert_eq!(route, 0);
            assert_eq!(body, b"[1,2]".to_vec());
        }
        other => panic!("unexpected plan {:?}", other),
    }
    assert_eq!(get(&cache, "/api/users"), Some(b"[1,2]".to_vec()));
}

#[test]
fn route_without_cache_never_stores() {
    let routes = sample_routes();
    let mut cache = init();
    let body = complete_forward(&mut cache, false, "/index.html".to_string(), b"<html>".to_vec());
    assert_eq!(body, b"<html>".to_vec());
    assert_eq!(get(&cache, "/index.html"), None);
    waspedge::cache::set(&mut cache, "/index.html".to_string(), b"stale".to_vec());
    assert_forward(plan_request(&routes, &cache, "/index.html", "/index.html"), 1, "http://static:9000/index.html", false);
}

#[test]
fn only_loaded_plugins_run_in_route_order() {
    let r = route(
        "/api",
        "http://backend:8080",
        false,
        vec![plugin("auth"), plugin("missing"), plugin("log"), plugin("auth")],
    );
    let loaded = vec!["log".to_string(), "auth".to_string()];
    assert_eq!(plugins_to_run(&r, &loaded), vec!["auth".to_string(), "log".to_string(), "auth".to_string()]);
    assert_eq!(plugins_to_run(&r, &Vec::new()), Vec::<String>::new());
    assert!(contains_name(&loaded, &"auth".to_string()));
    assert!(!contains_name(&loaded, &"Auth".to_string()));
}

#[test]
fn route_plugin_triggers_are_kept() {
    let p = RoutePluginConfig {
        name: "auth".to_string(),
        triggers: Some(vec![TriggerConfig { event: "request".to_string(), protocol: Some("http".to_string()) }]),
        options: Some(serde_json::from_str("{\"level\": 2}").unwrap()),
    };
    let r = route("/", "http://u", false, vec![p]);
    assert_eq!(r.plugins[0].triggers.as_ref().unwrap()[0].event, "request");
    assert_eq!(r.plugins[0].options.as_ref().unwrap()["level"].as_u64(), Some(2));
}

#[test]
fn unparsable_upstream_is_reported() {
    let routes = vec![route("/", "http://bad host", false, vec![])];
    let cache = init();
    match plan_request(&routes, &cache, "/x", "/x") {
        RequestPlan::BadUpstream { route, uri, .. } => {
            assert_eq!(route, 0);
            assert_eq!(uri, "http://bad host/x");
        }
        other => panic!("unexpected plan {:?}", other),
    }
}
