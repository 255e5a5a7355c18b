use dockrs::agent::{
    command_reply, hello_accepted, map_agent_error, queue_rejection, reply_result, requested_action, AgentErrorKind,
    ContainerAction, PendingRequests, MAX_PENDING_REQUESTS, PROTOCOL_VERSION,
};
use dockrs::docker::DockerError;

#[test]
fn docker_errors_map_to_the_matching_agent_error_kind() {
    assert!(matches!(
        AgentErrorKind::from(DockerError::NotFound("missing".to_owned())),
        AgentErrorKind::NotFound
    ));
    assert!(matches!(
        AgentErrorKind::from(DockerError::Conflict("busy".to_owned())),
        AgentErrorKind::Conflict
    ));
    assert!(matches!(
        AgentErrorKind::from(DockerError::Connection("offline".to_owned())),
        AgentErrorKind::Connection
    ));
    assert!(matches!(
        AgentErrorKind::from(DockerError::Request("failed".to_owned())),
        AgentErrorKind::Request
    ));
    assert!(matches!(
        AgentErrorKind::from(DockerError::InvalidResponse("invalid".to_owned())),
        AgentErrorKind::InvalidResponse
    ));
}

#[test]
fn container_actions_are_read_by_name() {
    assert_eq!(ContainerAction::parse("start"), Some(ContainerAction::Start));
    assert_eq!(ContainerAction::parse("unpause"), Some(ContainerAction::Unpause));
    assert_eq!(ContainerAction::parse("kill"), None);
    assert_eq!(requested_action("restart"), Ok(ContainerAction::Restart));
    assert_eq!(requested_action("Restart"), Err(AgentErrorKind::Request));
}

#[test]
fn hello_must_match_version_and_identity() {
    assert!(hello_accepted(PROTOCOL_VERSION, "edge-1", "edge-1"));
    assert!(!hello_accepted(PROTOCOL_VERSION + 1, "edge-1", "edge-1"));
    assert!(!hello_accepted(PROTOCOL_VERSION, "edge-2", "edge-1"));
}

#[test]
fn agent_failures_map_to_api_errors() {
    let e = map_agent_error(Some(AgentErrorKind::NotFound));
    assert_eq!(e.status, 404);
    assert_eq!(e.msg, "Docker 资源不存在");
    let e = map_agent_error(Some(AgentErrorKind::Conflict));
    assert_eq!(e.status, 409);
    assert_eq!(e.msg, "资源当前正在使用或状态不允许此操作");
    let e = map_agent_error(Some(AgentErrorKind::Connection));
    assert_eq!(e.status, 502);
    assert_eq!(e.msg, "远程 Agent 执行失败");
    let e = map_agent_error(None);
    assert_eq!(e.status, 502);
    assert_eq!(e.msg, "远程 Agent 执行失败");
}

#[test]
fn command_outcomes_become_replies() {
    let ok = command_reply(Some(Ok::<u32, AgentErrorKind>(7)));
    assert!(ok.ok);
    assert_eq!(ok.data, Some(7));
    assert_eq!(ok.error, None);
    let failed = command_reply::<u32>(Some(Err(AgentErrorKind::Conflict)));
    assert!(!failed.ok);
    assert_eq!(failed.data, None);
    assert_eq!(failed.error, Some(AgentErrorKind::Conflict));
    let timed_out = command_reply::<u32>(None);
    assert!(!timed_out.ok);
    assert_eq!(timed_out.error, Some(AgentErrorKind::Request));
}

#[test]
fn replies_become_results() {
    assert_eq!(reply_result(command_reply(Some(Ok::<u32, AgentErrorKind>(3)))).unwrap(), 3);
    let e = reply_result(command_reply::<u32>(Some(Err(AgentErrorKind::NotFound)))).unwrap_err();
    assert_eq!(e.status, 404);
    let e = queue_rejection(true);
    assert_eq!(e.status, 502);
    assert_eq!(e.msg, "远程 Agent 请求队列已满");
    let e = queue_rejection(false);
    assert_eq!(e.msg, "远程 Agent 当前不可用");
}

#[test]
fn pending_requests_resolve_once() {
    let mut pending: PendingRequests<u32> = PendingRequests::new();
    assert!(pending.enqueue("1".to_owned(), 10, 0).is_ok());
    assert!(pending.enqueue("2".to_owned(), 20, 0).is_ok());
    assert_eq!(pending.len(), 2);
    assert_eq!(pending.resolve("1"), Some(10));
    assert_eq!(pending.resolve("1"), None);
    assert_eq!(pending.len(), 1);
}

#[test]
fn pending_requests_expire_after_their_deadline() {
    let mut pending: PendingRequests<u32> = PendingRequests::new();
    assert!(pending.enqueue("a".to_owned(), 1, 0).is_ok());
    assert!(pending.enqueue("b".to_owned(), 2, 5_000).is_ok());
    assert!(pending.expire(9_999).is_empty());
    let expired = pending.expire(10_000);
    assert_eq!(expired, vec![1]);
    assert_eq!(pending.len(), 1);
    pending.clear();
    assert_eq!(pending.len(), 0);
}

#[test]
fn a_full_queue_refuses_new_requests() {
    let mut pending: PendingRequests<usize> = PendingRequests::new();
    for i in 0..MAX_PENDING_REQUESTS {
        assert!(pending.enqueue(format!("r{i}"), i, 0).is_ok());
    }
    assert!(pending.is_full());
    assert_eq!(pending.enqueue("extra".to_owned(), 99, 0), Err(99));
    assert_eq!(pending.len(), MAX_PENDING_REQUESTS);
}

use dockrs::agent::{stream_step, StreamAction, StreamEvent};

#[test]
fn stream_replies_reach_their_waiter_once() {
    let mut pending: PendingRequests<u32> = PendingRequests::new();
    let sent = stream_step(&mut pending, StreamEvent::Command { request_id: "7".to_owned(), waiter: 70, encoded: true }, 0);
    assert!(matches!(sent, StreamAction::SendCommand));
    assert_eq!(pending.len(), 1);
    let first = stream_step(&mut pending, StreamEvent::Reply { request_id: "7".to_owned() }, 5);
    assert!(matches!(first, StreamAction::Deliver(Some(70))));
    let again = stream_step(&mut pending, StreamEvent::Reply { request_id: "7".to_owned() }, 6);
    assert!(matches!(again, StreamAction::Deliver(None)));
    assert_eq!(pending.len(), 0);
}

#[test]
fn stream_commands_are_refused_when_full_or_unwritable() {
    let mut pending: PendingRequests<usize> = PendingRequests::new();
    let r = stream_step(&mut pending, StreamEvent::Command { request_id: "x".to_owned(), waiter: 1, encoded: false }, 0);
    assert!(matches!(r, StreamAction::Refuse(1, AgentErrorKind::InvalidResponse)));
    for i in 0..MAX_PENDING_REQUESTS {
        let r = stream_step(&mut pending, StreamEvent::Command { request_id: format!("c{i}"), waiter: i, encoded: true }, 0);
        assert!(matches!(r, StreamAction::SendCommand));
    }
    let r = stream_step(&mut pending, StreamEvent::Command { request_id: "y".to_owned(), waiter: 99, encoded: true }, 0);
    assert!(matches!(r, StreamAction::Refuse(99, AgentErrorKind::Request)));
    assert_eq!(pending.len(), MAX_PENDING_REQUESTS);
}

#[test]
fn stream_ticks_expire_and_closing_drops_everything() {
    let mut pending: PendingRequests<u32> = PendingRequests::new();
    stream_step(&mut pending, StreamEvent::Command { request_id: "a".to_owned(), waiter: 1, encoded: true }, 0);
    stream_step(&mut pending, StreamEvent::Command { request_id: "b".to_owned(), waiter: 2, encoded: true }, 9_000);
    match stream_step(&mut pending, StreamEvent::Tick, 10_000) {
        StreamAction::Expire(v) => assert_eq!(v, vec![1]),
        _ => panic!("a tick expires"),
    }
    assert!(matches!(stream_step(&mut pending, StreamEvent::Heartbeat, 10_001), StreamAction::Touch));
    assert!(matches!(stream_step(&mut pending, StreamEvent::Ping, 10_001), StreamAction::Pong));
    assert!(matches!(stream_step(&mut pending, StreamEvent::Snapshot, 10_001), StreamAction::StoreSnapshot));
    assert!(matches!(stream_step(&mut pending, StreamEvent::OtherFrame, 10_001), StreamAction::Ignore));
    assert_eq!(pending.len(), 1);
    assert!(matches!(stream_step(&mut pending, StreamEvent::Unreadable, 10_002), StreamAction::Stop));
    assert_eq!(pending.len(), 0);
}
