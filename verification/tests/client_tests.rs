use dockrs::agent_client::{encode_path_segment, stream_url};
use dockrs::settings::{cookie_secure, local_docker_host};

#[test]
fn path_segments_keep_only_plain_characters() {
    assert_eq!(encode_path_segment("agent-01_x"), "agent-01_x");
    assert_eq!(encode_path_segment("a b/c"), "a%20b%2Fc");
    assert_eq!(encode_path_segment("节点"), "%E8%8A%82%E7%82%B9");
    assert_eq!(encode_path_segment(""), "");
    assert!(encode_path_segment("?#/..%").chars().all(|c| c.is_ascii_alphanumeric() || c == '%' || c == '-' || c == '_'));
}

#[test]
fn stream_urls_use_websocket_schemes() {
    assert_eq!(stream_url("http://host:8080/", "a1"), "ws://host:8080/api/environments/agents/a1/stream");
    assert_eq!(stream_url("https://dock.example//", "a1"), "wss://dock.example/api/environments/agents/a1/stream");
    assert_eq!(stream_url("ws://127.0.0.1:8080", "a 1"), "ws://127.0.0.1:8080/api/environments/agents/a%201/stream");
    assert_eq!(stream_url("", "x"), "/api/environments/agents/x/stream");
}

#[test]
fn the_local_engine_address_gets_a_scheme() {
    assert_eq!(
        local_docker_host("/var/run/docker.sock"),
        ("unix:///var/run/docker.sock".to_owned(), "/var/run/docker.sock".to_owned())
    );
    assert_eq!(
        local_docker_host("unix:///run/user/docker.sock"),
        ("unix:///run/user/docker.sock".to_owned(), "/run/user/docker.sock".to_owned())
    );
    assert_eq!(
        local_docker_host("tcp://10.0.0.5:2375"),
        ("tcp://10.0.0.5:2375".to_owned(), "tcp://10.0.0.5:2375".to_owned())
    );
}

#[test]
fn secure_cookies_are_opt_in() {
    assert!(cookie_secure(Some("1")));
    assert!(cookie_secure(Some("TRUE")));
    assert!(cookie_secure(Some("True")));
    assert!(!cookie_secure(Some("yes")));
    assert!(!cookie_secure(Some("0")));
    assert!(!cookie_secure(None));
}
