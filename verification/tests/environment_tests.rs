use dockrs::environments::{
    check_deletable, check_existing_kind, check_rename, deletion_result, drop_stale_agent_snapshots,
    environment_responses, parse_kind, plan_agent_registration, rename_result, require_agent_token,
    response_for_row, store_agent_snapshot, validate_agent_id, validate_name, AgentSnapshotRequest,
    ContainerCountsResponse, EnvironmentKind, EnvironmentRow, EnvironmentStatus, MemoryMetricsResponse,
    AGENT_SNAPSHOT_TTL_MS, MAX_AGENT_SNAPSHOTS,
};
use dockrs::snapshot::{ContainerCounts, DockerSnapshot, MemoryMetrics};
use dockrs::tagged_map::TaggedMap;

fn sample_snapshot(version: &str) -> DockerSnapshot {
    DockerSnapshot {
        docker_version: version.to_owned(),
        containers: ContainerCounts { total: 4, running: 2, paused: 1, stopped: 1 },
        cpu_percent_bits: Some(12.5f64.to_bits()),
        memory: Some(MemoryMetrics { used_bytes: 40, total_bytes: 100, percent_bits: 40.0f64.to_bits() }),
        metrics_error: None,
        metrics_collected_at: 123,
    }
}

fn row(id: &str, kind: &str, is_online: i64) -> EnvironmentRow {
    EnvironmentRow {
        id: id.to_owned(),
        name: format!("{id}-name"),
        kind: kind.to_owned(),
        endpoint: "unix:///var/run/docker.sock".to_owned(),
        last_seen_at: None,
        is_online,
    }
}

#[test]
fn agent_id_is_trimmed_and_rejects_unsafe_values() {
    assert_eq!(validate_agent_id(" agent-01 ".to_owned()).unwrap(), "agent-01");
    assert!(validate_agent_id("".to_owned()).is_err());
    assert!(validate_agent_id("agent id".to_owned()).is_err());
    assert!(validate_agent_id("agent/id".to_owned()).is_err());
    assert!(validate_agent_id("a".repeat(129)).is_err());
}

#[test]
fn environment_kind_parser_accepts_only_known_values() {
    assert!(matches!(parse_kind("local"), Some(EnvironmentKind::Local)));
    assert!(matches!(parse_kind("agent"), Some(EnvironmentKind::Agent)));
    assert!(parse_kind("remote").is_none());
}

#[test]
fn environment_name_is_trimmed_and_bounded() {
    assert_eq!(validate_name("  家用 Docker  ".to_owned()).unwrap(), "家用 Docker");
    assert!(validate_name("   ".to_owned()).is_err());
    assert!(validate_name("x".repeat(65)).is_err());
    assert!(validate_name("bad\nname".to_owned()).is_err());
}

#[test]
fn agent_snapshot_maps_to_docker_snapshot() {
    let snapshot: DockerSnapshot = AgentSnapshotRequest {
        docker_version: "27.0".to_owned(),
        containers: ContainerCountsResponse { total: 4, running: 2, paused: 1, stopped: 1 },
        cpu_percent_bits: Some(12.5f64.to_bits()),
        memory: Some(MemoryMetricsResponse { used_bytes: 40, total_bytes: 100, percent_bits: 40.0f64.to_bits() }),
        metrics_error: None,
        metrics_collected_at: 123,
    }
    .into();

    assert_eq!(snapshot.docker_version, "27.0");
    assert_eq!(snapshot.containers.running, 2);
    assert_eq!(snapshot.memory.as_ref().map(|memory| memory.used_bytes), Some(40));
    assert_eq!(snapshot.cpu_percent_bits.map(f64::from_bits), Some(12.5));
}

#[test]
fn response_preserves_local_snapshot_metrics() {
    let row = EnvironmentRow {
        id: "local".to_owned(),
        name: "local-engine".to_owned(),
        kind: "local".to_owned(),
        endpoint: "unix:///var/run/docker.sock".to_owned(),
        last_seen_at: None,
        is_online: 1,
    };
    let snapshot = sample_snapshot("27.0");

    let response = response_for_row(&row, Some(&snapshot), &TaggedMap::new()).expect("有效环境类型应能生成响应");

    assert!(matches!(response.kind, EnvironmentKind::Local));
    assert!(matches!(response.status, EnvironmentStatus::Online));
    assert_eq!(response.docker_version.as_deref(), Some("27.0"));
    assert_eq!(response.containers.running, 2);
    assert_eq!(response.memory.as_ref().map(|memory| memory.used_bytes), Some(40));
}

#[test]
fn name_validation_reports_blank_and_invalid_names_apart() {
    let e = validate_name("   ".to_owned()).unwrap_err();
    assert_eq!(e.status, 400);
    assert_eq!(e.msg, "环境名称不能为空");
    let e = validate_name("bad\tname".to_owned()).unwrap_err();
    assert_eq!(e.msg, "环境名称无效");
    assert_eq!(validate_name("x".repeat(64)).unwrap().chars().count(), 64);
}

#[test]
fn accepted_names_and_ids_validate_again_unchanged() {
    let once = validate_name("  edge box ".to_owned()).unwrap();
    assert_eq!(validate_name(once.clone()).unwrap(), once);
    let id = validate_agent_id(" node_7 ".to_owned()).unwrap();
    assert_eq!(validate_agent_id(id.clone()).unwrap(), id);
}

#[test]
fn local_without_snapshot_is_offline() {
    let response = response_for_row(&row("local", "local", 0), None, &TaggedMap::new()).unwrap();
    assert!(matches!(response.status, EnvironmentStatus::Offline));
    assert_eq!(response.offline_reason.as_deref(), Some("无法连接 Docker Engine，请检查 Docker Socket"));
    assert_eq!(response.metrics_error.as_deref(), Some("无法连接 Docker Engine，请检查 Docker Socket"));
    assert_eq!(response.docker_version, None);
}

#[test]
fn agents_are_answered_by_heartbeat_and_cached_snapshot() {
    let mut cache = TaggedMap::new();
    let stale = response_for_row(&row("edge", "agent", 0), None, &cache).unwrap();
    assert!(matches!(stale.status, EnvironmentStatus::Offline));
    assert_eq!(stale.offline_reason.as_deref(), Some("Agent 心跳超时，节点当前离线"));

    let waiting = response_for_row(&row("edge", "agent", 1), None, &cache).unwrap();
    assert!(matches!(waiting.status, EnvironmentStatus::Online));
    assert_eq!(waiting.offline_reason, None);
    assert_eq!(waiting.metrics_error.as_deref(), Some("等待 Agent 上报 Docker 指标"));

    store_agent_snapshot(&mut cache, "edge".to_owned(), sample_snapshot("26.1"), 5);
    let reported = response_for_row(&row("edge", "agent", 1), None, &cache).unwrap();
    assert_eq!(reported.docker_version.as_deref(), Some("26.1"));
    assert_eq!(reported.metrics_collected_at, Some(123));
}

#[test]
fn unknown_kinds_are_internal_errors() {
    let e = response_for_row(&row("x", "remote", 1), None, &TaggedMap::new()).unwrap_err();
    assert_eq!(e.status, 500);
    assert_eq!(e.msg, "环境数据无效");
    let rows = vec![row("local", "local", 1), row("x", "remote", 1)];
    assert!(environment_responses(&rows, None, &TaggedMap::new()).is_err());
    let rows = vec![row("local", "local", 1), row("edge", "agent", 0)];
    let all = environment_responses(&rows, None, &TaggedMap::new()).unwrap();
    assert_eq!(all.len(), 2);
    assert_eq!(all[1].id, "edge");
}

#[test]
fn only_the_local_environment_is_renamed_and_it_is_never_deleted() {
    assert_eq!(check_rename("local", " Home ".to_owned()).unwrap(), "Home");
    assert_eq!(check_rename("edge", "Home".to_owned()).unwrap_err().msg, "当前仅支持修改本地环境名称");
    assert_eq!(rename_result("local".to_owned(), "Home".to_owned(), 0).unwrap_err().msg, "本地环境不存在");
    assert_eq!(rename_result("local".to_owned(), "Home".to_owned(), 1).unwrap().name, "Home");
    assert_eq!(check_deletable("local").unwrap_err().msg, "本地环境不支持删除");
    assert!(check_deletable("edge").is_ok());
    assert_eq!(deletion_result(0).unwrap_err().status, 404);
    assert!(deletion_result(1).is_ok());
}

#[test]
fn registrations_are_validated_in_order() {
    let reg = plan_agent_registration(" edge ".to_owned(), " Edge ".to_owned(), " tcp://10.0.0.2 ".to_owned(), None)
        .unwrap();
    assert_eq!(reg.id, "edge");
    assert_eq!(reg.name, "Edge");
    assert_eq!(reg.endpoint, "tcp://10.0.0.2");
    assert_eq!(reg.agent_id, "edge");
    let reg = plan_agent_registration("edge".to_owned(), "Edge".to_owned(), "e".to_owned(), Some("  ".to_owned()))
        .unwrap();
    assert_eq!(reg.agent_id, "edge");
    let reg = plan_agent_registration("edge".to_owned(), "Edge".to_owned(), "e".to_owned(), Some("a-1".to_owned()))
        .unwrap();
    assert_eq!(reg.agent_id, "a-1");
    let e = plan_agent_registration("local".to_owned(), "Edge".to_owned(), "e".to_owned(), None).unwrap_err();
    assert_eq!(e.msg, "Agent ID 无效");
    let e = plan_agent_registration("edge".to_owned(), " ".to_owned(), "e".to_owned(), None).unwrap_err();
    assert_eq!(e.msg, "环境名称不能为空");
    let e = plan_agent_registration("edge".to_owned(), "Edge".to_owned(), "x".repeat(257), None).unwrap_err();
    assert_eq!(e.msg, "Agent 地址无效");
    assert_eq!(check_existing_kind(Some("local")).unwrap_err().msg, "环境 ID 已被本地环境占用");
    assert!(check_existing_kind(Some("agent")).is_ok());
    assert!(check_existing_kind(None).is_ok());
}

#[test]
fn agent_tokens_come_from_the_header_or_a_bearer_authorization() {
    assert_eq!(require_agent_token(None, Some("t"), None).unwrap_err().msg, "Agent 通信尚未配置");
    assert!(require_agent_token(Some("t"), Some("t"), None).is_ok());
    assert!(require_agent_token(Some("t"), None, Some("Bearer t")).is_ok());
    assert_eq!(require_agent_token(Some("t"), None, Some("t")).unwrap_err().msg, "Agent 凭据无效");
    assert_eq!(require_agent_token(Some("t"), Some("u"), Some("Bearer t")).unwrap_err().status, 401);
    assert!(require_agent_token(Some("t"), None, None).is_err());
}

#[test]
fn the_snapshot_cache_keeps_the_newest_and_forgets_stale_ones() {
    let mut cache = TaggedMap::new();
    for i in 0..(MAX_AGENT_SNAPSHOTS as u64 + 3) {
        store_agent_snapshot(&mut cache, format!("agent-{i}"), sample_snapshot("27.0"), 1_000 + i);
    }
    assert_eq!(cache.len(), MAX_AGENT_SNAPSHOTS);
    assert!(cache.get("agent-0").is_none());
    assert!(cache.get("agent-2").is_none());
    assert!(cache.get("agent-3").is_some());
    drop_stale_agent_snapshots(&mut cache, 1_003 + AGENT_SNAPSHOT_TTL_MS);
    assert!(cache.get("agent-3").is_some());
    drop_stale_agent_snapshots(&mut cache, 1_004 + AGENT_SNAPSHOT_TTL_MS);
    assert!(cache.get("agent-3").is_none());
    assert!(cache.get("agent-4").is_some());
}
