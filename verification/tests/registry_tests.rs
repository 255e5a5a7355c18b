use dockrs::agent::connection_for;
use dockrs::error::{json_rejection_error, method_not_allowed, not_found, ApiError, ApiResponse};
use dockrs::tagged_map::TaggedMap;

#[test]
fn a_read_gives_back_the_last_write() {
    let mut m: TaggedMap<u32> = TaggedMap::new();
    assert_eq!(m.insert("a".to_owned(), 1, 10), None);
    assert_eq!(m.insert("b".to_owned(), 2, 11), None);
    assert_eq!(m.insert("a".to_owned(), 3, 12), Some(1));
    assert_eq!(m.get("a"), Some(&3));
    assert_eq!(m.get("b"), Some(&2));
    assert_eq!(m.tag_of("a"), Some(12));
    assert_eq!(m.len(), 2);
    assert_eq!(m.remove("a"), Some(3));
    assert_eq!(m.get("a"), None);
}

#[test]
fn a_stale_connection_does_not_unregister_its_successor() {
    let mut connections: TaggedMap<&str> = TaggedMap::new();
    connections.insert("edge".to_owned(), "first", 1);
    connections.insert("edge".to_owned(), "second", 2);
    assert!(!connections.remove_if_tagged("edge", 1));
    assert_eq!(connection_for(&connections, "edge").ok(), Some(&"second"));
    assert!(connections.remove_if_tagged("edge", 2));
    let e = connection_for(&connections, "edge").unwrap_err();
    assert_eq!(e.status, 502);
    assert_eq!(e.msg, "远程 Agent 当前离线");
}

#[test]
fn errors_and_successes_have_their_envelopes() {
    let ok = ApiResponse::success(5u8);
    assert_eq!((ok.code, ok.data, ok.msg.as_str()), (200, 5, "操作成功"));
    let (status, body) = ApiError::conflict("busy".to_owned()).into_body();
    assert_eq!(status, 409);
    assert_eq!(body.code, 409);
    assert_eq!(body.msg, "busy");
    assert_eq!(not_found().msg, "请求资源不存在");
    assert_eq!(method_not_allowed().status, 405);
    assert_eq!(json_rejection_error(true).status, 500);
    assert_eq!(json_rejection_error(false).msg, "请求参数格式错误");
}

#[test]
fn removing_a_fresh_key_restores_the_map() {
    let mut m: TaggedMap<u32> = TaggedMap::new();
    m.insert("a".to_owned(), 1, 1);
    m.insert("b".to_owned(), 2, 2);
    m.insert("c".to_owned(), 3, 3);
    assert_eq!(m.remove("c"), Some(3));
    assert_eq!(m.len(), 2);
    assert_eq!((m.entry(0).key.as_str(), m.entry(0).value), ("a", 1));
    assert_eq!((m.entry(1).key.as_str(), m.entry(1).value), ("b", 2));
}
