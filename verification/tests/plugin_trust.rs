use waspedge::config::{Config, Listener, RouteConfig, RoutePluginConfig, ServerConfig};
use waspedge::plugins::{
    admission, admit_step, parse_trusted_keys, plugin_file_name, trust_step_after, trust_step_at,
    trusted_key_list, Admission, TrustError, TrustStep,
};

fn keys_of(text: &str) -> Vec<serde_json::Value> {
    let doc = parse_trusted_keys(text).unwrap();
    trusted_key_list(&doc).unwrap().clone()
}

#[test]
fn malformed_json_is_a_json_error() {
    let r = parse_trusted_keys("{ not json");
    assert!(matches!(r, Err(TrustError::Json(_))));
    assert!(r.unwrap_err().message().is_none());
}

#[test]
fn missing_or_non_array_key_list_is_invalid() {
    for text in ["{}", "{\"trusted_keys\": \"keys/public.key\"}", "[\"keys/public.key\"]", "null"] {
        let doc = parse_trusted_keys(text).unwrap();
        let r = trusted_key_list(&doc);
        assert!(matches!(r, Err(TrustError::InvalidTrustedKeysFile)));
        assert_eq!(r.unwrap_err().message(), Some("Invalid trusted_keys file".to_string()));
    }
}

#[test]
fn key_list_is_read() {
    let keys = keys_of("{\"trusted_keys\": [\"keys/a.key\", \"keys/b.key\"], \"other\": 1}");
    assert_eq!(keys.len(), 2);
    assert_eq!(keys[1].as_str(), Some("keys/b.key"));
}

#[test]
fn first_key_is_tried_first() {
    let keys = keys_of("{\"trusted_keys\": [\"keys/a.key\", \"keys/b.key\"]}");
    match trust_step_at(&keys, 0) {
        TrustStep::Verify { index, key_path } => {
            assert_eq!(index, 0);
            assert_eq!(key_path, "keys/a.key");
        }
        other => panic!("unexpected step {:?}", other),
    }
}

#[test]
fn failed_key_moves_to_next_and_success_accepts() {
    let keys = keys_of("{\"trusted_keys\": [\"keys/a.key\", \"keys/b.key\"]}");
    match trust_step_after(&keys, 0, false) {
        TrustStep::Verify { index, key_path } => {
            assert_eq!(index, 1);
            assert_eq!(key_path, "keys/b.key");
        }
        other => panic!("unexpected step {:?}", other),
    }
    assert!(matches!(trust_step_after(&keys, 1, true), TrustStep::Accept));
    assert!(matches!(trust_step_after(&keys, 0, true), TrustStep::Accept));
}

#[test]
fn all_keys_failing_is_untrusted() {
    let keys = keys_of("{\"trusted_keys\": [\"keys/a.key\"]}");
    match trust_step_after(&keys, 0, false) {
        TrustStep::Reject(e) => {
            assert!(matches!(e, TrustError::Untrusted));
            assert_eq!(e.message(), Some("Plugin signature invalid or not trusted".to_string()));
        }
        other => panic!("unexpected step {:?}", other),
    }
    let empty = keys_of("{\"trusted_keys\": []}");
    assert!(matches!(trust_step_at(&empty, 0), TrustStep::Reject(TrustError::Untrusted)));
}

#[test]
fn non_string_key_is_rejected_only_when_reached() {
    let keys = keys_of("{\"trusted_keys\": [\"keys/a.key\", 42]}");
    assert!(matches!(trust_step_after(&keys, 0, true), TrustStep::Accept));
    match trust_step_after(&keys, 0, false) {
        TrustStep::Reject(e) => {
            assert!(matches!(e, TrustError::InvalidKeyPath));
            assert_eq!(e.message(), Some("Invalid key path".to_string()));
        }
        other => panic!("unexpected step {:?}", other),
    }
}

#[test]
fn admission_rule() {
    assert_eq!(admission(false, true), Admission::Missing);
    assert_eq!(admission(false, false), Admission::Missing);
    assert_eq!(admission(true, false), Admission::Unsigned);
    assert_eq!(admission(true, true), Admission::Load);
}

#[test]
fn plugin_file_names() {
    assert_eq!(plugin_file_name("hello"), "hello.wasm");
    assert_eq!(plugin_file_name(""), ".wasm");
}

fn server(http: bool, ws: bool, quic: bool) -> ServerConfig {
    ServerConfig {
        enable_http: http,
        enable_ws: ws,
        enable_quic: quic,
        http_port: 8080,
        ws_port: 9001,
        quic_port: 4433,
        cert_path: "cert.pem".to_string(),
        key_path: "key.pem".to_string(),
    }
}

#[test]
fn required_plugins_follow_routes() {
    let p = |n: &str| RoutePluginConfig { name: n.to_string(), triggers: None, options: None };
    let config = Config {
        server: server(true, false, false),
        routes: vec![
            RouteConfig { path: "/a".to_string(), upstream: "u".to_string(), cache: false, plugins: vec![p("x"), p("y")] },
            RouteConfig { path: "/b".to_string(), upstream: "u".to_string(), cache: true, plugins: vec![] },
            RouteConfig { path: "/c".to_string(), upstream: "u".to_string(), cache: false, plugins: vec![p("x")] },
        ],
    };
    assert_eq!(config.required_plugins(), vec!["x".to_string(), "y".to_string(), "x".to_string()]);
}

#[test]
fn enabled_listeners_in_order() {
    assert_eq!(server(true, true, true).enabled_listeners(), vec![Listener::Http, Listener::WebSocket, Listener::Quic]);
    assert_eq!(server(false, true, false).enabled_listeners(), vec![Listener::WebSocket]);
    assert_eq!(server(true, false, true).enabled_listeners(), vec![Listener::Http, Listener::Quic]);
    assert_eq!(server(false, false, false).enabled_listeners(), Vec::<Listener>::new());
}

#[test]
fn admitted_names_are_recorded_once() {
    let mut loaded: Vec<String> = Vec::new();
    assert_eq!(admit_step(&mut loaded, &"a".to_string(), true, true), Admission::Load);
    assert_eq!(admit_step(&mut loaded, &"b".to_string(), false, true), Admission::Missing);
    assert_eq!(admit_step(&mut loaded, &"c".to_string(), true, false), Admission::Unsigned);
    assert_eq!(admit_step(&mut loaded, &"a".to_string(), true, true), Admission::Load);
    assert_eq!(admit_step(&mut loaded, &"d".to_string(), true, true), Admission::Load);
    assert_eq!(loaded, vec!["a".to_string(), "d".to_string()]);
}

#[test]
fn json_error_is_serde_jsons_own() {
    let text = "{ \"trusted_keys\": [1, }";
    let expected = serde_json::from_str::<serde_json::Value>(text).unwrap_err().to_string();
    match parse_trusted_keys(text) {
        Err(TrustError::Json(e)) => assert_eq!(e.to_string(), expected),
        other => panic!("unexpected result {:?}", other),
    }
}
