//! Environments: the local engine and remote agents, their validation and
//! the status answer built from what is known of each.

use vstd::prelude::*;

use crate::error::{ApiError, STATUS_BAD_REQUEST, STATUS_INTERNAL_SERVER_ERROR, STATUS_NOT_FOUND, STATUS_UNAUTHORIZED};
use crate::snapshot::{ContainerCounts, DockerSnapshot, MemoryMetrics};
use crate::tagged_map::{TaggedMap, lookup, inserted, is_fresh, all_in};
use crate::text::{law_trimmed_idempotent, any_control, chars_of, has_prefix, starts_with, ascii_alnum, clone_opt, has_ctrl, is_ascii_alnum, opt_view, same_text, string_of, trim_chars, trimmed};

verus! {

/// Longest environment name, in characters.
pub const MAX_NAME_CHARS: usize = 64;

/// Longest agent id, in characters.
pub const MAX_AGENT_ID_CHARS: usize = 128;

/// Longest agent endpoint, in characters.
pub const MAX_ENDPOINT_CHARS: usize = 256;

/// How long an agent's snapshot stays usable, in milliseconds.
pub const AGENT_SNAPSHOT_TTL_MS: u64 = 30_000;

/// Most agent snapshots kept in the cache.
pub const MAX_AGENT_SNAPSHOTS: usize = 64;

/// What an environment is.
#[derive(Clone, Copy, Debug, PartialEq, Eq, Structural)]
pub enum EnvironmentKind {
    Local,
    Agent,
}

/// Whether an environment is reachable.
#[derive(Clone, Copy, Debug, PartialEq, Eq, Structural)]
pub enum EnvironmentStatus {
    Online,
    Offline,
}

/// The kind stored as `kind`, when it is a known one.
pub open spec fn kind_named(kind: Seq<char>) -> Option<EnvironmentKind> {
    if kind == "local"@ {
        Some(EnvironmentKind::Local)
    } else if kind == "agent"@ {
        Some(EnvironmentKind::Agent)
    } else {
        None
    }
}

/// Reads a stored environment kind; only `local` and `agent` are known.
pub fn parse_kind(kind: &str) -> (r: Option<EnvironmentKind>)
    ensures
        r == kind_named(kind@),
{
    if same_text(kind, "local") {
        Some(EnvironmentKind::Local)
    } else if same_text(kind, "agent") {
        Some(EnvironmentKind::Agent)
    } else {
        None
    }
}

/// An acceptable (already trimmed) environment name.
pub open spec fn valid_name(t: Seq<char>) -> bool {
    0 < t.len() <= MAX_NAME_CHARS && !has_ctrl(t)
}

/// Validates an environment name: surrounding white space is dropped; the
/// rest must be non-empty, at most 64 characters and free of control
/// characters.
pub fn validate_name(name: String) -> (r: Result<String, ApiError>)
    ensures
        trimmed(name@).len() == 0 ==> (r matches Err(e) && e.is(STATUS_BAD_REQUEST, "环境名称不能为空"@)),
        trimmed(name@).len() > 0 && !valid_name(trimmed(name@)) ==> (r matches Err(e) && e.is(
            STATUS_BAD_REQUEST,
            "环境名称无效"@,
        )),
        valid_name(trimmed(name@)) ==> (r matches Ok(n) && n@ == trimmed(name@)),
{
    let chars = trim_chars(name.as_str());
    if chars.len() == 0 {
        return Err(ApiError::bad_request("环境名称不能为空".to_owned()));
    }
    if chars.len() > MAX_NAME_CHARS || any_control(&chars) {
        return Err(ApiError::bad_request("环境名称无效".to_owned()));
    }
    Ok(string_of(&chars))
}

/// A character allowed in an agent id: ASCII letters and digits, `-`, `_`.
pub open spec fn agent_id_char(c: char) -> bool {
    is_ascii_alnum(c) || c == '-' || c == '_'
}

/// An acceptable (already trimmed) agent id.
pub open spec fn valid_agent_id(t: Seq<char>) -> bool {
    0 < t.len() <= MAX_AGENT_ID_CHARS && forall|i: int| 0 <= i < t.len() ==> agent_id_char(#[trigger] t[i])
}

/// Validates an agent id: surrounding white space is dropped; the rest
/// must be 1 to 128 characters of ASCII letters, digits, `-` and `_`.
pub fn validate_agent_id(id: String) -> (r: Result<String, ApiError>)
    ensures
        valid_agent_id(trimmed(id@)) ==> (r matches Ok(v) && v@ == trimmed(id@)),
        !valid_agent_id(trimmed(id@)) ==> (r matches Err(e) && e.is(STATUS_BAD_REQUEST, "Agent ID 无效"@)),
{
    let chars = trim_chars(id.as_str());
    if chars.len() == 0 || chars.len() > MAX_AGENT_ID_CHARS {
        return Err(ApiError::bad_request("Agent ID 无效".to_owned()));
    }
    let mut i: usize = 0;
    while i < chars.len()
        invariant
            i <= chars@.len(),
            chars@ == trimmed(id@),
            forall|k: int| 0 <= k < i ==> agent_id_char(#[trigger] chars@[k]),
        decreases chars.len() - i,
    {
        let c = chars[i];
        if !(ascii_alnum(c) || c == '-' || c == '_') {
            assert(!agent_id_char(chars@[i as int]));
            return Err(ApiError::bad_request("Agent ID 无效".to_owned()));
        }
        i += 1;
    }
    Ok(string_of(&chars))
}

/// An accepted environment name is accepted again, unchanged: validation
/// is stable.
pub proof fn law_accepted_name_is_stable(name: Seq<char>)
    requires
        valid_name(trimmed(name)),
    ensures
        valid_name(trimmed(trimmed(name))),
        trimmed(trimmed(name)) == trimmed(name),
{
    law_trimmed_idempotent(name);
}

/// An accepted agent id is accepted again, unchanged.
pub proof fn law_accepted_agent_id_is_stable(id: Seq<char>)
    requires
        valid_agent_id(trimmed(id)),
    ensures
        valid_agent_id(trimmed(trimmed(id))),
        trimmed(trimmed(id)) == trimmed(id),
{
    law_trimmed_idempotent(id);
}

/// Container counts as answered for an environment.
#[derive(Clone, Copy, Debug, PartialEq, Eq)]
pub struct ContainerCountsResponse {
    pub total: u64,
    pub running: u64,
    pub paused: u64,
    pub stopped: u64,
}

/// Memory use as answered for an environment (the percentage as the bit
/// pattern of an IEEE-754 double).
#[derive(Clone, Copy, Debug, PartialEq, Eq)]
pub struct MemoryMetricsResponse {
    pub used_bytes: u64,
    pub total_bytes: u64,
    pub percent_bits: u64,
}

/// The answer describing one environment.
#[derive(Debug)]
pub struct EnvironmentResponse {
    pub id: String,
    pub name: String,
    pub kind: EnvironmentKind,
    pub status: EnvironmentStatus,
    pub endpoint: String,
    pub docker_version: Option<String>,
    pub containers: ContainerCountsResponse,
    pub cpu_percent_bits: Option<u64>,
    pub memory: Option<MemoryMetricsResponse>,
    pub metrics_collected_at: Option<i64>,
    pub metrics_error: Option<String>,
    pub offline_reason: Option<String>,
    pub last_seen_at: Option<String>,
}

/// A stored environment, with whether an agent was seen recently enough
/// to count as online (non-zero).
#[derive(Debug)]
pub struct EnvironmentRow {
    pub id: String,
    pub name: String,
    pub kind: String,
    pub endpoint: String,
    pub last_seen_at: Option<String>,
    pub is_online: i64,
}

/// Request to rename an environment.
#[derive(Debug)]
pub struct RenameEnvironmentRequest {
    pub name: String,
}

/// Answer to a rename.
#[derive(Debug)]
pub struct EnvironmentNameResponse {
    pub id: String,
    pub name: String,
}

/// Request of an agent to be registered.
#[derive(Debug)]
pub struct AgentRegistrationRequest {
    pub id: String,
    pub name: String,
    pub endpoint: String,
    pub agent_id: Option<String>,
}

/// Answer to an agent registration.
#[derive(Debug)]
pub struct AgentRegistrationResponse {
    pub id: String,
}

/// A snapshot that an agent reports (percentages as IEEE-754 bit patterns).
#[derive(Debug)]
pub struct AgentSnapshotRequest {
    pub docker_version: String,
    pub containers: ContainerCountsResponse,
    pub cpu_percent_bits: Option<u64>,
    pub memory: Option<MemoryMetricsResponse>,
    pub metrics_error: Option<String>,
    pub metrics_collected_at: i64,
}

impl vstd::std_specs::convert::FromSpecImpl<AgentSnapshotRequest> for DockerSnapshot {
    open spec fn obeys_from_spec() -> bool {
        true
    }

    open spec fn from_spec(value: AgentSnapshotRequest) -> DockerSnapshot {
        DockerSnapshot {
            docker_version: value.docker_version,
            containers: ContainerCounts {
                total: value.containers.total,
                running: value.containers.running,
                paused: value.containers.paused,
                stopped: value.containers.stopped,
            },
            cpu_percent_bits: value.cpu_percent_bits,
            memory: match value.memory {
                Some(m) => Some(
                    MemoryMetrics {
                        used_bytes: m.used_bytes,
                        total_bytes: m.total_bytes,
                        percent_bits: m.percent_bits,
                    },
                ),
                None => None,
            },
            metrics_error: value.metrics_error,
            metrics_collected_at: value.metrics_collected_at,
        }
    }
}

impl From<AgentSnapshotRequest> for DockerSnapshot {
    /// The reported snapshot, field for field.
    fn from(value: AgentSnapshotRequest) -> (r: DockerSnapshot)
        ensures
            r.docker_version@ == value.docker_version@,
            r.containers.total == value.containers.total,
            r.containers.running == value.containers.running,
            r.containers.paused == value.containers.paused,
            r.containers.stopped == value.containers.stopped,
            r.cpu_percent_bits == value.cpu_percent_bits,
            r.memory is Some <==> value.memory is Some,
            r.memory matches Some(m) ==> m.used_bytes == value.memory.unwrap().used_bytes
                && m.total_bytes == value.memory.unwrap().total_bytes && m.percent_bits
                == value.memory.unwrap().percent_bits,
            opt_view(r.metrics_error) == opt_view(value.metrics_error),
            r.metrics_collected_at == value.metrics_collected_at,
    {
        DockerSnapshot {
            docker_version: value.docker_version,
            containers: ContainerCounts {
                total: value.containers.total,
                running: value.containers.running,
                paused: value.containers.paused,
                stopped: value.containers.stopped,
            },
            cpu_percent_bits: value.cpu_percent_bits,
            memory: match value.memory {
                Some(m) => Some(
                    MemoryMetrics {
                        used_bytes: m.used_bytes,
                        total_bytes: m.total_bytes,
                        percent_bits: m.percent_bits,
                    },
                ),
                None => None,
            },
            metrics_error: value.metrics_error,
            metrics_collected_at: value.metrics_collected_at,
        }
    }
}

/// Law of reported snapshots: converting one keeps every figure in its own
/// place: the version, each container count, the CPU and memory figures,
/// the metrics error and the collection time.
pub proof fn law_reported_snapshot_keeps_its_figures(value: AgentSnapshotRequest)
    ensures
        ({
            let r = <DockerSnapshot as vstd::std_specs::convert::FromSpec<AgentSnapshotRequest>>::from_spec(value);
            &&& r.docker_version == value.docker_version
            &&& r.containers.total == value.containers.total
            &&& r.containers.running == value.containers.running
            &&& r.containers.paused == value.containers.paused
            &&& r.containers.stopped == value.containers.stopped
            &&& r.cpu_percent_bits == value.cpu_percent_bits
            &&& (r.memory is Some <==> value.memory is Some)
            &&& (r.memory matches Some(m) ==> m.used_bytes == value.memory.unwrap().used_bytes
                && m.total_bytes == value.memory.unwrap().total_bytes && m.percent_bits
                == value.memory.unwrap().percent_bits)
            &&& r.metrics_error == value.metrics_error
            &&& r.metrics_collected_at == value.metrics_collected_at
        }),
{
}

/// Snapshot container counts as answered.
pub fn counts_from_snapshot(counts: &ContainerCounts) -> (r: ContainerCountsResponse)
    ensures
        r.total == counts.total,
        r.running == counts.running,
        r.paused == counts.paused,
        r.stopped == counts.stopped,
{
    ContainerCountsResponse {
        total: counts.total,
        running: counts.running,
        paused: counts.paused,
        stopped: counts.stopped,
    }
}

/// Snapshot memory use as answered.
pub fn memory_from_snapshot(memory: &MemoryMetrics) -> (r: MemoryMetricsResponse)
    ensures
        r.used_bytes == memory.used_bytes,
        r.total_bytes == memory.total_bytes,
        r.percent_bits == memory.percent_bits,
{
    MemoryMetricsResponse {
        used_bytes: memory.used_bytes,
        total_bytes: memory.total_bytes,
        percent_bits: memory.percent_bits,
    }
}

/// The stored kind of a row, with an unknown one shown as local.
pub open spec fn shown_kind(row: EnvironmentRow) -> EnvironmentKind {
    match kind_named(row.kind@) {
        Some(k) => k,
        None => EnvironmentKind::Local,
    }
}

/// The response repeats the row's identity.
pub open spec fn describes_row(r: EnvironmentResponse, row: EnvironmentRow, status: EnvironmentStatus) -> bool {
    &&& r.id@ == row.id@
    &&& r.name@ == row.name@
    &&& r.kind == shown_kind(row)
    &&& r.status == status
    &&& r.endpoint@ == row.endpoint@
    &&& opt_view(r.last_seen_at) == opt_view(row.last_seen_at)
}

/// The response shows the snapshot's figures.
pub open spec fn shows_snapshot(r: EnvironmentResponse, s: DockerSnapshot) -> bool {
    &&& r.docker_version matches Some(v) && v@ == s.docker_version@
    &&& r.containers == (ContainerCountsResponse {
        total: s.containers.total,
        running: s.containers.running,
        paused: s.containers.paused,
        stopped: s.containers.stopped,
    })
    &&& r.cpu_percent_bits == s.cpu_percent_bits
    &&& r.memory == match s.memory {
        Some(m) => Some(MemoryMetricsResponse {
            used_bytes: m.used_bytes,
            total_bytes: m.total_bytes,
            percent_bits: m.percent_bits,
        }),
        None => None,
    }
    &&& r.metrics_collected_at == Some(s.metrics_collected_at)
    &&& opt_view(r.metrics_error) == opt_view(s.metrics_error)
}

/// The response shows no figures and gives `reason` as its metrics error.
pub open spec fn shows_nothing(r: EnvironmentResponse, reason: Seq<char>) -> bool {
    &&& r.docker_version is None
    &&& r.containers == (ContainerCountsResponse { total: 0, running: 0, paused: 0, stopped: 0 })
    &&& r.cpu_percent_bits is None
    &&& r.memory is None
    &&& r.metrics_collected_at is None
    &&& opt_view(r.metrics_error) == Some(reason)
}

/// The answer for a row whose engine figures are in `snapshot`.
pub fn response_from_snapshot(
    row: &EnvironmentRow,
    status: EnvironmentStatus,
    snapshot: &DockerSnapshot,
    offline_reason: Option<String>,
) -> (r: EnvironmentResponse)
    ensures
        describes_row(r, *row, status),
        shows_snapshot(r, *snapshot),
        opt_view(r.offline_reason) == opt_view(offline_reason),
{
    let kind = match parse_kind(row.kind.as_str()) {
        Some(k) => k,
        None => EnvironmentKind::Local,
    };
    EnvironmentResponse {
        id: row.id.clone(),
        name: row.name.clone(),
        kind,
        status,
        endpoint: row.endpoint.clone(),
        docker_version: Some(snapshot.docker_version.clone()),
        containers: counts_from_snapshot(&snapshot.containers),
        cpu_percent_bits: snapshot.cpu_percent_bits,
        memory: match &snapshot.memory {
            Some(m) => Some(memory_from_snapshot(m)),
            None => None,
        },
        metrics_collected_at: Some(snapshot.metrics_collected_at),
        metrics_error: clone_opt(&snapshot.metrics_error),
        offline_reason,
        last_seen_at: clone_opt(&row.last_seen_at),
    }
}

/// The answer for a row with no engine figures; `reason` is given both as
/// the metrics error and as the offline reason.
pub fn unavailable_response(row: &EnvironmentRow, status: EnvironmentStatus, reason: &str) -> (r: EnvironmentResponse)
    ensures
        describes_row(r, *row, status),
        shows_nothing(r, reason@),
        opt_view(r.offline_reason) == Some(reason@),
{
    let kind = match parse_kind(row.kind.as_str()) {
        Some(k) => k,
        None => EnvironmentKind::Local,
    };
    EnvironmentResponse {
        id: row.id.clone(),
        name: row.name.clone(),
        kind,
        status,
        endpoint: row.endpoint.clone(),
        docker_version: None,
        containers: ContainerCountsResponse { total: 0, running: 0, paused: 0, stopped: 0 },
        cpu_percent_bits: None,
        memory: None,
        metrics_collected_at: None,
        metrics_error: Some(reason.to_owned()),
        offline_reason: Some(reason.to_owned()),
        last_seen_at: clone_opt(&row.last_seen_at),
    }
}

/// The answer for a stored environment. A local one is online with the
/// local snapshot, else offline; an agent not seen recently is offline; a
/// recent agent is online, with its cached snapshot when there is one.
/// A row of unknown kind is an internal error.
pub fn response_for_row(
    row: &EnvironmentRow,
    local_snapshot: Option<&DockerSnapshot>,
    agent_snapshots: &TaggedMap<DockerSnapshot>,
) -> (r: Result<EnvironmentResponse, ApiError>)
    requires
        agent_snapshots.wf(),
    ensures
        kind_named(row.kind@) is None ==> (r matches Err(e) && e.is(STATUS_INTERNAL_SERVER_ERROR, "环境数据无效"@)),
        kind_named(row.kind@) == Some(EnvironmentKind::Local) ==> (r matches Ok(resp) && match local_snapshot {
            Some(s) => describes_row(resp, *row, EnvironmentStatus::Online) && shows_snapshot(resp, *s)
                && resp.offline_reason is None,
            None => describes_row(resp, *row, EnvironmentStatus::Offline) && shows_nothing(
                resp,
                "无法连接 Docker Engine，请检查 Docker Socket"@,
            ) && opt_view(resp.offline_reason) == Some("无法连接 Docker Engine，请检查 Docker Socket"@),
        }),
        kind_named(row.kind@) == Some(EnvironmentKind::Agent) && row.is_online == 0 ==> (r matches Ok(resp)
            && describes_row(resp, *row, EnvironmentStatus::Offline) && shows_nothing(
            resp,
            "Agent 心跳超时，节点当前离线"@,
        ) && opt_view(resp.offline_reason) == Some("Agent 心跳超时，节点当前离线"@)),
        kind_named(row.kind@) == Some(EnvironmentKind::Agent) && row.is_online != 0 ==> (r matches Ok(resp)
            && describes_row(resp, *row, EnvironmentStatus::Online) && resp.offline_reason is None
            && match lookup(agent_snapshots.view(), row.id@) {
            Some(cached) => shows_snapshot(resp, cached.0),
            None => shows_nothing(resp, "等待 Agent 上报 Docker 指标"@),
        }),
{
    let kind = match parse_kind(row.kind.as_str()) {
        Some(k) => k,
        None => {
            return Err(ApiError::internal("环境数据无效".to_owned()));
        },
    };
    let response = match kind {
        EnvironmentKind::Local => match local_snapshot {
            Some(snapshot) => response_from_snapshot(row, EnvironmentStatus::Online, snapshot, None),
            None => unavailable_response(
                row,
                EnvironmentStatus::Offline,
                "无法连接 Docker Engine，请检查 Docker Socket",
            ),
        },
        EnvironmentKind::Agent => {
            if row.is_online == 0 {
                unavailable_response(row, EnvironmentStatus::Offline, "Agent 心跳超时，节点当前离线")
            } else {
                match agent_snapshots.get(row.id.as_str()) {
                    Some(cached) => response_from_snapshot(row, EnvironmentStatus::Online, cached, None),
                    None => {
                        let mut response = unavailable_response(
                            row,
                            EnvironmentStatus::Online,
                            "等待 Agent 上报 Docker 指标",
                        );
                        response.offline_reason = None;
                        response
                    },
                }
            }
        },
    };
    Ok(response)
}

/// How a stored environment with a known kind is answered (see
/// [`response_for_row`]).
pub open spec fn answers_row(
    resp: EnvironmentResponse,
    row: EnvironmentRow,
    local_snapshot: Option<DockerSnapshot>,
    agent_snapshots: Seq<(Seq<char>, DockerSnapshot, u64)>,
) -> bool {
    match kind_named(row.kind@) {
        None => false,
        Some(EnvironmentKind::Local) => match local_snapshot {
            Some(s) => describes_row(resp, row, EnvironmentStatus::Online) && shows_snapshot(resp, s)
                && resp.offline_reason is None,
            None => describes_row(resp, row, EnvironmentStatus::Offline) && shows_nothing(
                resp,
                "无法连接 Docker Engine，请检查 Docker Socket"@,
            ) && opt_view(resp.offline_reason) == Some("无法连接 Docker Engine，请检查 Docker Socket"@),
        },
        Some(EnvironmentKind::Agent) => if row.is_online == 0 {
            describes_row(resp, row, EnvironmentStatus::Offline) && shows_nothing(resp, "Agent 心跳超时，节点当前离线"@)
                && opt_view(resp.offline_reason) == Some("Agent 心跳超时，节点当前离线"@)
        } else {
            describes_row(resp, row, EnvironmentStatus::Online) && resp.offline_reason is None && match lookup(
                agent_snapshots,
                row.id@,
            ) {
                Some(cached) => shows_snapshot(resp, cached.0),
                None => shows_nothing(resp, "等待 Agent 上报 Docker 指标"@),
            }
        },
    }
}

/// The answers for the stored environments, in their order: an internal
/// error when one of them has an unknown kind.
pub fn environment_responses(
    rows: &Vec<EnvironmentRow>,
    local_snapshot: Option<&DockerSnapshot>,
    agent_snapshots: &TaggedMap<DockerSnapshot>,
) -> (r: Result<Vec<EnvironmentResponse>, ApiError>)
    requires
        agent_snapshots.wf(),
    ensures
        r is Ok <==> forall|i: int| 0 <= i < rows@.len() ==> (#[trigger] kind_named(rows@[i].kind@)) is Some,
        r matches Err(e) ==> e.is(STATUS_INTERNAL_SERVER_ERROR, "环境数据无效"@),
        r matches Ok(v) ==> v@.len() == rows@.len() && forall|i: int|
            0 <= i < rows@.len() ==> answers_row(
                #[trigger] v@[i],
                rows@[i],
                match local_snapshot {
                    Some(s) => Some(*s),
                    None => None,
                },
                agent_snapshots.view(),
            ),
{
    let ghost local = match local_snapshot {
        Some(s) => Some(*s),
        None => None,
    };
    let mut out: Vec<EnvironmentResponse> = Vec::new();
    let mut i: usize = 0;
    while i < rows.len()
        invariant
            i <= rows@.len(),
            agent_snapshots.wf(),
            local == match local_snapshot {
                Some(s) => Some(*s),
                None => None::<DockerSnapshot>,
            },
            out@.len() == i,
            forall|k: int| 0 <= k < i ==> (#[trigger] kind_named(rows@[k].kind@)) is Some,
            forall|k: int| 0 <= k < i ==> answers_row(#[trigger] out@[k], rows@[k], local, agent_snapshots.view()),
        decreases rows.len() - i,
    {
        match response_for_row(&rows[i], local_snapshot, agent_snapshots) {
            Ok(resp) => {
                out.push(resp);
            },
            Err(e) => {
                assert(kind_named(rows@[i as int].kind@) is None);
                return Err(e);
            },
        }
        i += 1;
    }
    Ok(out)
}

/// Checks that the environment to rename is the local one and validates
/// the new name.
pub fn check_rename(id: &str, name: String) -> (r: Result<String, ApiError>)
    ensures
        id@ != "local"@ ==> (r matches Err(e) && e.is(STATUS_BAD_REQUEST, "当前仅支持修改本地环境名称"@)),
        id@ == "local"@ && trimmed(name@).len() == 0 ==> (r matches Err(e) && e.is(
            STATUS_BAD_REQUEST,
            "环境名称不能为空"@,
        )),
        id@ == "local"@ && trimmed(name@).len() > 0 && !valid_name(trimmed(name@)) ==> (r matches Err(e)
            && e.is(STATUS_BAD_REQUEST, "环境名称无效"@)),
        id@ == "local"@ && valid_name(trimmed(name@)) ==> (r matches Ok(n) && n@ == trimmed(name@)),
{
    if !same_text(id, "local") {
        return Err(ApiError::bad_request("当前仅支持修改本地环境名称".to_owned()));
    }
    validate_name(name)
}

/// The answer to a rename, given how many stored rows it changed.
pub fn rename_result(id: String, name: String, rows_affected: u64) -> (r: Result<EnvironmentNameResponse, ApiError>)
    ensures
        rows_affected == 0 ==> (r matches Err(e) && e.is(STATUS_NOT_FOUND, "本地环境不存在"@)),
        rows_affected != 0 ==> (r matches Ok(resp) && resp.id@ == id@ && resp.name@ == name@),
{
    if rows_affected == 0 {
        return Err(ApiError::not_found("本地环境不存在".to_owned()));
    }
    Ok(EnvironmentNameResponse { id, name })
}

/// Checks that an environment may be deleted: the local one may not.
pub fn check_deletable(id: &str) -> (r: Result<(), ApiError>)
    ensures
        id@ == "local"@ ==> (r matches Err(e) && e.is(STATUS_BAD_REQUEST, "本地环境不支持删除"@)),
        id@ != "local"@ ==> r is Ok,
{
    if same_text(id, "local") {
        return Err(ApiError::bad_request("本地环境不支持删除".to_owned()));
    }
    Ok(())
}

/// The answer to a deletion, given how many agent rows it removed.
pub fn deletion_result(rows_affected: u64) -> (r: Result<(), ApiError>)
    ensures
        rows_affected == 0 ==> (r matches Err(e) && e.is(STATUS_NOT_FOUND, "环境不存在"@)),
        rows_affected != 0 ==> r is Ok,
{
    if rows_affected == 0 {
        return Err(ApiError::not_found("环境不存在".to_owned()));
    }
    Ok(())
}

/// The answer to an agent heartbeat or snapshot, given how many agent rows
/// it touched.
pub fn agent_touch_result(rows_affected: u64) -> (r: Result<(), ApiError>)
    ensures
        rows_affected == 0 ==> (r matches Err(e) && e.is(STATUS_NOT_FOUND, "Agent 环境不存在"@)),
        rows_affected != 0 ==> r is Ok,
{
    if rows_affected == 0 {
        return Err(ApiError::not_found("Agent 环境不存在".to_owned()));
    }
    Ok(())
}

/// A validated agent registration, ready to be stored.
#[derive(Debug)]
pub struct AgentRegistration {
    pub id: String,
    pub name: String,
    pub endpoint: String,
    pub agent_id: String,
}

/// An acceptable (already trimmed) endpoint.
pub open spec fn valid_endpoint(t: Seq<char>) -> bool {
    0 < t.len() <= MAX_ENDPOINT_CHARS
}

/// The agent id stored for a registration: the one given, unless it is
/// missing or blank, else the environment id.
pub open spec fn stored_agent_id(agent_id: Option<String>, id: Seq<char>) -> Seq<char> {
    match agent_id {
        Some(a) => if trimmed(a@).len() > 0 { a@ } else { id },
        None => id,
    }
}

/// Validates a registration: the id (not `local`), the name, then the
/// endpoint (trimmed, 1 to 256 characters); the agent id defaults to the id.
pub fn plan_agent_registration(
    id: String,
    name: String,
    endpoint: String,
    agent_id: Option<String>,
) -> (r: Result<AgentRegistration, ApiError>)
    ensures
        !valid_agent_id(trimmed(id@)) ==> (r matches Err(e) && e.is(STATUS_BAD_REQUEST, "Agent ID 无效"@)),
        valid_agent_id(trimmed(id@)) && trimmed(id@) == "local"@ ==> (r matches Err(e) && e.is(
            STATUS_BAD_REQUEST,
            "Agent ID 无效"@,
        )),
        valid_agent_id(trimmed(id@)) && trimmed(id@) != "local"@ && trimmed(name@).len() == 0 ==> (r matches Err(
            e,
        ) && e.is(STATUS_BAD_REQUEST, "环境名称不能为空"@)),
        valid_agent_id(trimmed(id@)) && trimmed(id@) != "local"@ && trimmed(name@).len() > 0 && !valid_name(
            trimmed(name@),
        ) ==> (r matches Err(e) && e.is(STATUS_BAD_REQUEST, "环境名称无效"@)),
        valid_agent_id(trimmed(id@)) && trimmed(id@) != "local"@ && valid_name(trimmed(name@)) && !valid_endpoint(
            trimmed(endpoint@),
        ) ==> (r matches Err(e) && e.is(STATUS_BAD_REQUEST, "Agent 地址无效"@)),
        valid_agent_id(trimmed(id@)) && trimmed(id@) != "local"@ && valid_name(trimmed(name@)) && valid_endpoint(
            trimmed(endpoint@),
        ) ==> (r matches Ok(reg) && reg.id@ == trimmed(id@) && reg.name@ == trimmed(name@) && reg.endpoint@
            == trimmed(endpoint@) && reg.agent_id@ == stored_agent_id(agent_id, trimmed(id@))),
{
    let id = validate_agent_id(id)?;
    if same_text(id.as_str(), "local") {
        return Err(ApiError::bad_request("Agent ID 无效".to_owned()));
    }
    let name = validate_name(name)?;
    let endpoint_chars = trim_chars(endpoint.as_str());
    if endpoint_chars.len() == 0 || endpoint_chars.len() > MAX_ENDPOINT_CHARS {
        return Err(ApiError::bad_request("Agent 地址无效".to_owned()));
    }
    let endpoint = string_of(&endpoint_chars);
    let agent_id = match agent_id {
        Some(a) => if trim_chars(a.as_str()).len() > 0 { a } else { id.clone() },
        None => id.clone(),
    };
    Ok(AgentRegistration { id, name, endpoint, agent_id })
}

/// Checks the kind stored under a registering agent's id: an id that a
/// local environment holds may not be taken.
pub fn check_existing_kind(existing_kind: Option<&str>) -> (r: Result<(), ApiError>)
    ensures
        (existing_kind matches Some(k) && k@ == "local"@) ==> (r matches Err(e) && e.is(
            STATUS_BAD_REQUEST,
            "环境 ID 已被本地环境占用"@,
        )),
        !(existing_kind matches Some(k) && k@ == "local"@) ==> r is Ok,
{
    match existing_kind {
        Some(k) => if same_text(k, "local") {
            Err(ApiError::bad_request("环境 ID 已被本地环境占用".to_owned()))
        } else {
            Ok(())
        },
        None => Ok(()),
    }
}

/// The token an agent presents: the dedicated header when it is readable,
/// else a bearer token of the authorization header.
pub open spec fn presented_token(token_header: Option<Seq<char>>, authorization: Option<Seq<char>>) -> Option<Seq<char>> {
    match token_header {
        Some(t) => Some(t),
        None => match authorization {
            Some(a) => if starts_with(a, "Bearer "@) {
                Some(a.subrange(7, a.len() as int))
            } else {
                None
            },
            None => None,
        },
    }
}

/// Checks an agent's credentials: agent communication must be configured
/// and the presented token must be the configured one.
pub fn require_agent_token(
    expected: Option<&str>,
    token_header: Option<&str>,
    authorization: Option<&str>,
) -> (r: Result<(), ApiError>)
    ensures
        expected is None ==> (r matches Err(e) && e.is(STATUS_UNAUTHORIZED, "Agent 通信尚未配置"@)),
        expected matches Some(x) && presented_token(
            match token_header { Some(t) => Some(t@), None => None },
            match authorization { Some(a) => Some(a@), None => None },
        ) != Some(x@) ==> (r matches Err(e) && e.is(STATUS_UNAUTHORIZED, "Agent 凭据无效"@)),
        expected matches Some(x) && presented_token(
            match token_header { Some(t) => Some(t@), None => None },
            match authorization { Some(a) => Some(a@), None => None },
        ) == Some(x@) ==> r is Ok,
{
    let expected = match expected {
        Some(x) => x,
        None => {
            return Err(ApiError::unauthorized("Agent 通信尚未配置".to_owned()));
        },
    };
    let provided: Option<Vec<char>> = match token_header {
        Some(t) => Some(chars_of(t)),
        None => match authorization {
            Some(a) => {
                let ac = chars_of(a);
                let bearer = chars_of("Bearer ");
                proof {
                    reveal_strlit("Bearer ");
                }
                if has_prefix(&ac, &bearer) {
                    let mut rest: Vec<char> = Vec::new();
                    let mut i: usize = 7;
                    while i < ac.len()
                        invariant
                            7 <= i <= ac@.len(),
                            rest@ == ac@.subrange(7, i as int),
                        decreases ac.len() - i,
                    {
                        rest.push(ac[i]);
                        assert(ac@.subrange(7, i + 1) =~= ac@.subrange(7, i as int).push(ac@[i as int]));
                        i += 1;
                    }
                    Some(rest)
                } else {
                    None
                }
            },
            None => None,
        },
    };
    let matches = match &provided {
        Some(p) => {
            let x = chars_of(expected);
            crate::text::same_chars(p, &x)
        },
        None => false,
    };
    if !matches {
        return Err(ApiError::unauthorized("Agent 凭据无效".to_owned()));
    }
    Ok(())
}

/// Stores an agent's snapshot as received at `now`, then drops the oldest
/// snapshots beyond [`MAX_AGENT_SNAPSHOTS`].
pub fn store_agent_snapshot(cache: &mut TaggedMap<DockerSnapshot>, id: String, snapshot: DockerSnapshot, now: u64)
    requires
        old(cache).wf(),
    ensures
        final(cache).wf(),
        final(cache).view().len() == if inserted(old(cache).view(), id@, snapshot, now).len() > MAX_AGENT_SNAPSHOTS {
            MAX_AGENT_SNAPSHOTS as nat
        } else {
            inserted(old(cache).view(), id@, snapshot, now).len()
        },
        all_in(final(cache).view(), inserted(old(cache).view(), id@, snapshot, now)),
        inserted(old(cache).view(), id@, snapshot, now).len() <= MAX_AGENT_SNAPSHOTS ==> final(cache).view()
            == inserted(old(cache).view(), id@, snapshot, now),
        forall|i: int, j: int|
            0 <= i < inserted(old(cache).view(), id@, snapshot, now).len() && !final(cache).view().contains(
                inserted(old(cache).view(), id@, snapshot, now)[i],
            ) && 0 <= j < final(cache).view().len() ==> #[trigger] inserted(
                old(cache).view(),
                id@,
                snapshot,
                now,
            )[i].2 <= #[trigger] final(cache).view()[j].2,
{
    let _ = cache.insert(id, snapshot, now);
    cache.evict_oldest(MAX_AGENT_SNAPSHOTS);
}

/// Drops the agent snapshots received more than
/// [`AGENT_SNAPSHOT_TTL_MS`] before `now`.
pub fn drop_stale_agent_snapshots(cache: &mut TaggedMap<DockerSnapshot>, now: u64)
    requires
        old(cache).wf(),
    ensures
        final(cache).wf(),
        final(cache).view() == old(cache).view().filter(
            |e: (Seq<char>, DockerSnapshot, u64)| is_fresh(e.2, now, AGENT_SNAPSHOT_TTL_MS),
        ),
{
    cache.retain_fresh(now, AGENT_SNAPSHOT_TTL_MS);
}

} // verus!
