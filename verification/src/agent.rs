//! The agent protocol: operations an agent performs for the server, how
//! their failures are reported, and the server's bookkeeping of pending
//! commands and live agent connections.

use vstd::prelude::*;

use crate::docker::DockerError;
use crate::error::{ApiError, STATUS_BAD_GATEWAY, STATUS_CONFLICT, STATUS_NOT_FOUND};
use crate::tagged_map::{TaggedEntry, TaggedMap, at_key, entry_view, inserted, lookup, unique_keys, law_lookup_after_insert};
use crate::text::same_text;

verus! {

/// Version of the protocol spoken between agent and server.
pub const PROTOCOL_VERSION: u16 = 1;

/// Most commands awaiting an agent's answer on one connection.
pub const MAX_PENDING_REQUESTS: usize = 64;

/// How long a command may await its answer, in milliseconds.
pub const PENDING_TIMEOUT_MS: u64 = 10_000;

/// Why an agent could not carry out a command.
#[derive(Clone, Copy, Debug, PartialEq, Eq, Structural)]
pub enum AgentErrorKind {
    NotFound,
    Conflict,
    Request,
    Connection,
    InvalidResponse,
}

impl vstd::std_specs::convert::FromSpecImpl<DockerError> for AgentErrorKind {
    open spec fn obeys_from_spec() -> bool {
        true
    }

    open spec fn from_spec(error: DockerError) -> AgentErrorKind {
        match error {
            DockerError::NotFound(_) => AgentErrorKind::NotFound,
            DockerError::Conflict(_) => AgentErrorKind::Conflict,
            DockerError::Connection(_) => AgentErrorKind::Connection,
            DockerError::Request(_) => AgentErrorKind::Request,
            DockerError::InvalidResponse(_) => AgentErrorKind::InvalidResponse,
        }
    }
}

impl From<DockerError> for AgentErrorKind {
    /// The kind of an engine failure, variant for variant.
    fn from(error: DockerError) -> (kind: AgentErrorKind) {
        match error {
            DockerError::NotFound(_) => AgentErrorKind::NotFound,
            DockerError::Conflict(_) => AgentErrorKind::Conflict,
            DockerError::Connection(_) => AgentErrorKind::Connection,
            DockerError::Request(_) => AgentErrorKind::Request,
            DockerError::InvalidResponse(_) => AgentErrorKind::InvalidResponse,
        }
    }
}

/// Settings of a volume to create.
#[derive(Debug)]
pub struct VolumeConfig {
    pub name: Option<String>,
    pub driver: Option<String>,
    pub driver_opts: Option<std::collections::HashMap<String, String>>,
}

/// Settings of a network to create.
#[derive(Debug)]
pub struct NetworkConfig {
    pub name: String,
    pub driver: Option<String>,
    pub internal: Option<bool>,
}

/// An operation the server asks an agent to perform on its engine.
#[derive(Debug)]
pub enum AgentOperation {
    ListContainers { all: bool, status: Option<String>, query: Option<String> },
    ListImages { query: Option<String>, dangling: Option<bool> },
    ListVolumes { query: Option<String> },
    ListNetworks { query: Option<String> },
    NetworkContainerCounts,
    IsSwarmManager,
    ListServices,
    ListTasks,
    ContainerAction { id: String, action: String },
    RemoveContainer { id: String },
    PullImage { reference: String },
    RemoveImage { id: String },
    CreateVolume { config: VolumeConfig },
    RemoveVolume { name: String },
    CreateNetwork { config: NetworkConfig },
    RemoveNetwork { id: String },
}

/// A state change of a container.
#[derive(Clone, Copy, Debug, PartialEq, Eq, Structural)]
pub enum ContainerAction {
    Start,
    Stop,
    Restart,
    Pause,
    Unpause,
}

/// The container action named `name`, if it is one.
pub open spec fn action_named(name: Seq<char>) -> Option<ContainerAction> {
    if name == "start"@ {
        Some(ContainerAction::Start)
    } else if name == "stop"@ {
        Some(ContainerAction::Stop)
    } else if name == "restart"@ {
        Some(ContainerAction::Restart)
    } else if name == "pause"@ {
        Some(ContainerAction::Pause)
    } else if name == "unpause"@ {
        Some(ContainerAction::Unpause)
    } else {
        None
    }
}

impl ContainerAction {
    /// Reads an action name: `start`, `stop`, `restart`, `pause`, `unpause`.
    pub fn parse(name: &str) -> (r: Option<ContainerAction>)
        ensures
            r == action_named(name@),
    {
        if same_text(name, "start") {
            Some(ContainerAction::Start)
        } else if same_text(name, "stop") {
            Some(ContainerAction::Stop)
        } else if same_text(name, "restart") {
            Some(ContainerAction::Restart)
        } else if same_text(name, "pause") {
            Some(ContainerAction::Pause)
        } else if same_text(name, "unpause") {
            Some(ContainerAction::Unpause)
        } else {
            None
        }
    }
}

/// The action an agent performs for a container-action command; an
/// unknown action is a failed request.
pub fn requested_action(action: &str) -> (r: Result<ContainerAction, AgentErrorKind>)
    ensures
        match action_named(action@) {
            Some(a) => r == Ok::<ContainerAction, AgentErrorKind>(a),
            None => r == Err::<ContainerAction, AgentErrorKind>(AgentErrorKind::Request),
        },
{
    match ContainerAction::parse(action) {
        Some(a) => Ok(a),
        None => Err(AgentErrorKind::Request),
    }
}

/// An agent's first message is accepted when it speaks this protocol
/// version and claims the id it connected under.
pub fn hello_accepted(protocol_version: u16, agent_id: &str, expected_id: &str) -> (r: bool)
    ensures
        r == (protocol_version == PROTOCOL_VERSION && agent_id@ == expected_id@),
{
    protocol_version == PROTOCOL_VERSION && same_text(agent_id, expected_id)
}

/// The reply an agent sends for a command: whether it succeeded, its data
/// and its failure.
pub struct CommandReply<D> {
    pub ok: bool,
    pub data: Option<D>,
    pub error: Option<AgentErrorKind>,
}

/// The reply for a command's outcome; a command that did not finish in
/// time (`None`) is reported as a failed request.
pub fn command_reply<D>(outcome: Option<Result<D, AgentErrorKind>>) -> (r: CommandReply<D>)
    ensures
        match outcome {
            Some(Ok(d)) => r.ok && r.data == Some(d) && r.error is None,
            Some(Err(k)) => !r.ok && r.data is None && r.error == Some(k),
            None => !r.ok && r.data is None && r.error == Some(AgentErrorKind::Request),
        },
{
    match outcome {
        Some(Ok(d)) => CommandReply { ok: true, data: Some(d), error: None },
        Some(Err(k)) => CommandReply { ok: false, data: None, error: Some(k) },
        None => CommandReply { ok: false, data: None, error: Some(AgentErrorKind::Request) },
    }
}

/// `e` answers an agent's reported failure: a missing resource, a
/// conflict, or else a failed execution.
pub open spec fn answers_agent_failure(e: ApiError, error: Option<AgentErrorKind>) -> bool {
    if error == Some(AgentErrorKind::NotFound) {
        e.is(STATUS_NOT_FOUND, "Docker 资源不存在"@)
    } else if error == Some(AgentErrorKind::Conflict) {
        e.is(STATUS_CONFLICT, "资源当前正在使用或状态不允许此操作"@)
    } else {
        e.is(STATUS_BAD_GATEWAY, "远程 Agent 执行失败"@)
    }
}

/// The answer for an agent's reported failure; a missing kind counts as an
/// invalid response.
pub fn map_agent_error(error: Option<AgentErrorKind>) -> (e: ApiError)
    ensures
        answers_agent_failure(e, error),
{
    let kind = match error {
        Some(k) => k,
        None => AgentErrorKind::InvalidResponse,
    };
    match kind {
        AgentErrorKind::NotFound => ApiError::not_found("Docker 资源不存在".to_owned()),
        AgentErrorKind::Conflict => ApiError::conflict("资源当前正在使用或状态不允许此操作".to_owned()),
        _ => ApiError::bad_gateway("远程 Agent 执行失败".to_owned()),
    }
}

/// The server's result for an agent's reply: a failure is mapped, and a
/// success must carry data.
pub fn reply_result<D>(reply: CommandReply<D>) -> (r: Result<D, ApiError>)
    ensures
        !reply.ok ==> (r matches Err(e) && answers_agent_failure(e, reply.error)),
        reply.ok && reply.data is None ==> (r matches Err(e) && e.is(STATUS_BAD_GATEWAY, "远程 Agent 返回了无效响应"@)),
        reply.ok && reply.data is Some ==> r == Ok::<D, ApiError>(reply.data.unwrap()),
{
    if !reply.ok {
        return Err(map_agent_error(reply.error));
    }
    match reply.data {
        Some(d) => Ok(d),
        None => Err(ApiError::bad_gateway("远程 Agent 返回了无效响应".to_owned())),
    }
}

/// The answer when an agent's command queue does not take a command: a
/// full queue, or a connection that is gone.
pub fn queue_rejection(full: bool) -> (e: ApiError)
    ensures
        full ==> e.is(STATUS_BAD_GATEWAY, "远程 Agent 请求队列已满"@),
        !full ==> e.is(STATUS_BAD_GATEWAY, "远程 Agent 当前不可用"@),
{
    if full {
        ApiError::bad_gateway("远程 Agent 请求队列已满".to_owned())
    } else {
        ApiError::bad_gateway("远程 Agent 当前不可用".to_owned())
    }
}

/// The answer when an agent did not reply in time.
pub fn request_timed_out() -> (e: ApiError)
    ensures
        e.is(STATUS_BAD_GATEWAY, "远程 Agent 请求超时"@),
{
    ApiError::bad_gateway("远程 Agent 请求超时".to_owned())
}

/// The answer when an agent's connection closed before it replied.
pub fn connection_closed() -> (e: ApiError)
    ensures
        e.is(STATUS_BAD_GATEWAY, "远程 Agent 连接已断开"@),
{
    ApiError::bad_gateway("远程 Agent 连接已断开".to_owned())
}

/// The moment a command admitted at `now` stops waiting (capped).
pub open spec fn deadline_after(now: u64) -> u64 {
    if now + PENDING_TIMEOUT_MS > u64::MAX { u64::MAX } else { (now + PENDING_TIMEOUT_MS) as u64 }
}

/// Commands sent to one agent that await its reply, each with the one
/// waiting for it (`R`) and its deadline. At most
/// [`MAX_PENDING_REQUESTS`] wait at a time.
pub struct PendingRequests<R> {
    table: TaggedMap<R>,
}

impl<R> PendingRequests<R> {
    /// The waiting commands: request id, waiter and deadline.
    pub closed spec fn view(&self) -> Seq<(Seq<char>, R, u64)> {
        self.table.view()
    }

    /// Request ids are unique and the table is within its bound.
    pub closed spec fn wf(&self) -> bool {
        self.table.wf() && self.table.view().len() <= MAX_PENDING_REQUESTS
    }

    /// Law of the table: ids are unique and no more than
    /// [`MAX_PENDING_REQUESTS`] commands ever wait.
    pub proof fn lemma_bounded(&self)
        requires
            self.wf(),
        ensures
            unique_keys(self.view()),
            self.view().len() <= MAX_PENDING_REQUESTS,
    {
    }

    /// No command waits.
    pub fn new() -> (p: Self)
        ensures
            p.wf(),
            p.view() == Seq::<(Seq<char>, R, u64)>::empty(),
    {
        PendingRequests { table: TaggedMap::new() }
    }

    /// How many commands wait.
    pub fn len(&self) -> (n: usize)
        ensures
            n == self.view().len(),
    {
        self.table.len()
    }

    /// Whether no further command may wait.
    pub fn is_full(&self) -> (r: bool)
        ensures
            r == (self.view().len() >= MAX_PENDING_REQUESTS),
    {
        self.table.len() >= MAX_PENDING_REQUESTS
    }

    /// Lets a command sent at `now` wait for its reply until its deadline.
    /// A full table refuses it and hands the waiter back; a command with
    /// the same id is replaced and its waiter handed back.
    pub fn enqueue(&mut self, request_id: String, waiter: R, now: u64) -> (r: Result<Option<R>, R>)
        requires
            old(self).wf(),
        ensures
            final(self).wf(),
            old(self).view().len() >= MAX_PENDING_REQUESTS ==> r == Err::<Option<R>, R>(waiter) && final(self).view()
                == old(self).view(),
            old(self).view().len() < MAX_PENDING_REQUESTS ==> final(self).view() == inserted(
                old(self).view(),
                request_id@,
                waiter,
                deadline_after(now),
            ) && (r matches Ok(replaced) && match lookup(old(self).view(), request_id@) {
                Some(p) => replaced == Some(p.0),
                None => replaced is None,
            }),
    {
        if self.table.len() >= MAX_PENDING_REQUESTS {
            return Err(waiter);
        }
        let deadline = now.saturating_add(PENDING_TIMEOUT_MS);
        let ghost k = request_id@;
        let ghost before = self.table.view();
        let replaced = self.table.insert(request_id, waiter, deadline);
        proof {
            crate::tagged_map::lemma_inserted_len(before, k, waiter, deadline);
        }
        proof {
            law_lookup_after_insert(old(self).view(), k, waiter, deadline, k);
        }
        Ok(replaced)
    }

    /// Takes the waiter of the command that a reply answers.
    pub fn resolve(&mut self, request_id: &str) -> (r: Option<R>)
        requires
            old(self).wf(),
        ensures
            final(self).wf(),
            r is Some <==> lookup(old(self).view(), request_id@) is Some,
            r is Some ==> lookup(old(self).view(), request_id@).unwrap().0 == r.unwrap(),
            lookup(final(self).view(), request_id@) is None,
            match lookup(old(self).view(), request_id@) {
                Some(_) => exists|i: int| at_key(old(self).view(), request_id@, i) && final(self).view() == old(self).view().remove(i),
                None => final(self).view() == old(self).view(),
            },
    {
        self.table.remove(request_id)
    }

    /// Takes the waiters of every command whose deadline is at or before
    /// `now`, in order; the others keep waiting.
    pub fn expire(&mut self, now: u64) -> (expired: Vec<R>)
        requires
            old(self).wf(),
        ensures
            final(self).wf(),
            final(self).view() == old(self).view().filter(|e: (Seq<char>, R, u64)| e.2 > now),
            expired@ == old(self).view().filter(|e: (Seq<char>, R, u64)| e.2 <= now).map_values(
                |e: (Seq<char>, R, u64)| e.1,
            ),
    {
        let due = self.table.take_due(now);
        proof {
            old(self).view().lemma_filter_len(|e: (Seq<char>, R, u64)| e.2 > now);
        }
        let ghost due_view = due@.map_values(|e: TaggedEntry<R>| entry_view(e));
        let mut due = due;
        let mut waiters: Vec<R> = Vec::new();
        let ghost all = due@;
        let n = due.len();
        let mut i: usize = 0;
        while i < n
            invariant
                i <= n,
                n == all.len(),
                due@ == all.skip(i as int),
                waiters@ == all.take(i as int).map_values(|e: TaggedEntry<R>| e.value),
            decreases n - i,
        {
            let e = due.remove(0);
            assert(due@ =~= all.skip(i + 1));
            waiters.push(e.value);
            assert(all.take(i + 1).map_values(|e: TaggedEntry<R>| e.value) =~= all.take(i as int).map_values(
                |e: TaggedEntry<R>| e.value,
            ).push(e.value));
            i += 1;
        }
        assert(all.take(n as int) =~= all);
        assert(waiters@ =~= due_view.map_values(|e: (Seq<char>, R, u64)| e.1));
        waiters
    }

    /// Drops every waiting command.
    pub fn clear(&mut self)
        ensures
            final(self).wf(),
            final(self).view() == Seq::<(Seq<char>, R, u64)>::empty(),
    {
        self.table = TaggedMap::new();
    }
}

/// What happens on an agent's stream, as the server sees it.
pub enum StreamEvent<R> {
    /// The agent answered the command with this id.
    Reply { request_id: String },
    /// The agent reported a snapshot of its engine.
    Snapshot,
    /// The agent sent a heartbeat.
    Heartbeat,
    /// The agent sent another protocol message.
    OtherMessage,
    /// The agent sent text that is no protocol message.
    Unreadable,
    /// The agent pinged.
    Ping,
    /// Another frame arrived.
    OtherFrame,
    /// The stream was closed, ended or failed.
    Closed,
    /// A command is to be sent; `encoded` says whether it could be written out.
    Command { request_id: String, waiter: R, encoded: bool },
    /// No more commands can be queued for this agent.
    QueueClosed,
    /// The clock ticked.
    Tick,
}

/// What the server does in answer to a stream event.
pub enum StreamAction<R> {
    /// Hand the agent's answer to this waiter; with none, drop the answer.
    Deliver(Option<R>),
    /// Store the reported snapshot.
    StoreSnapshot,
    /// Record that the agent is alive.
    Touch,
    /// Answer the ping.
    Pong,
    /// Send the written-out command to the agent.
    SendCommand,
    /// Answer this waiter at once with a failure of this kind.
    Refuse(R, AgentErrorKind),
    /// Answer each of these waiters with a failed request: they waited too long.
    Expire(Vec<R>),
    /// Nothing to do.
    Ignore,
    /// End the stream; no command waits any more.
    Stop,
}

/// One step of an agent's stream: the table of waiting commands after the
/// event, and what to do. Replies take their waiter out of the table; a
/// command waits for its reply unless the table is full (a failed request)
/// or it could not be written out (an invalid response); each tick expires
/// the commands whose deadline has passed; unreadable text, a closed
/// stream and a closed queue end the stream and drop every waiting command.
pub fn stream_step<R>(pending: &mut PendingRequests<R>, event: StreamEvent<R>, now: u64) -> (action: StreamAction<R>)
    requires
        old(pending).wf(),
    ensures
        final(pending).wf(),
        match event {
            StreamEvent::Reply { request_id } => {
                &&& lookup(final(pending).view(), request_id@) is None
                &&& match lookup(old(pending).view(), request_id@) {
                    Some(p) => action == StreamAction::Deliver(Some(p.0)) && exists|i: int|
                        at_key(old(pending).view(), request_id@, i) && final(pending).view() == old(pending).view().remove(i),
                    None => action == StreamAction::<R>::Deliver(None) && final(pending).view() == old(pending).view(),
                }
            },
            StreamEvent::Snapshot => action is StoreSnapshot && final(pending).view() == old(pending).view(),
            StreamEvent::Heartbeat => action is Touch && final(pending).view() == old(pending).view(),
            StreamEvent::Ping => action is Pong && final(pending).view() == old(pending).view(),
            StreamEvent::OtherMessage => action is Ignore && final(pending).view() == old(pending).view(),
            StreamEvent::OtherFrame => action is Ignore && final(pending).view() == old(pending).view(),
            StreamEvent::Unreadable => action is Stop && final(pending).view().len() == 0,
            StreamEvent::Closed => action is Stop && final(pending).view().len() == 0,
            StreamEvent::QueueClosed => action is Stop && final(pending).view().len() == 0,
            StreamEvent::Command { request_id, waiter, encoded } => if old(pending).view().len() >= MAX_PENDING_REQUESTS {
                action == StreamAction::Refuse(waiter, AgentErrorKind::Request) && final(pending).view() == old(
                    pending,
                ).view()
            } else if !encoded {
                action == StreamAction::Refuse(waiter, AgentErrorKind::InvalidResponse) && final(pending).view()
                    == old(pending).view()
            } else {
                action is SendCommand && final(pending).view() == inserted(
                    old(pending).view(),
                    request_id@,
                    waiter,
                    deadline_after(now),
                )
            },
            StreamEvent::Tick => {
                &&& action matches StreamAction::Expire(v) && v@ == old(pending).view().filter(
                    |e: (Seq<char>, R, u64)| e.2 <= now,
                ).map_values(|e: (Seq<char>, R, u64)| e.1)
                &&& final(pending).view() == old(pending).view().filter(|e: (Seq<char>, R, u64)| e.2 > now)
            },
        },
{
    match event {
        StreamEvent::Reply { request_id } => StreamAction::Deliver(pending.resolve(request_id.as_str())),
        StreamEvent::Snapshot => StreamAction::StoreSnapshot,
        StreamEvent::Heartbeat => StreamAction::Touch,
        StreamEvent::Ping => StreamAction::Pong,
        StreamEvent::OtherMessage => StreamAction::Ignore,
        StreamEvent::OtherFrame => StreamAction::Ignore,
        StreamEvent::Unreadable | StreamEvent::Closed | StreamEvent::QueueClosed => {
            pending.clear();
            StreamAction::Stop
        },
        StreamEvent::Command { request_id, waiter, encoded } => {
            if pending.is_full() {
                StreamAction::Refuse(waiter, AgentErrorKind::Request)
            } else if !encoded {
                StreamAction::Refuse(waiter, AgentErrorKind::InvalidResponse)
            } else {
                match pending.enqueue(request_id, waiter, now) {
                    Ok(_replaced) => StreamAction::SendCommand,
                    Err(refused) => StreamAction::Refuse(refused, AgentErrorKind::Request),
                }
            }
        },
        StreamEvent::Tick => StreamAction::Expire(pending.expire(now)),
    }
}

/// The live connection of an agent environment.
pub fn connection_for<'a, S>(connections: &'a TaggedMap<S>, environment_id: &str) -> (r: Result<&'a S, ApiError>)
    requires
        connections.wf(),
    ensures
        lookup(connections.view(), environment_id@) is None ==> (r matches Err(e) && e.is(
            STATUS_BAD_GATEWAY,
            "远程 Agent 当前离线"@,
        )),
        lookup(connections.view(), environment_id@) matches Some(c) ==> r == Ok::<&'a S, ApiError>(&c.0),
{
    match connections.get(environment_id) {
        Some(c) => Ok(c),
        None => Err(ApiError::bad_gateway("远程 Agent 当前离线".to_owned())),
    }
}

/// Law of the connection registry: when an agent reconnects, the newer
/// connection (tagged `newer`) replaces the older one, and the clean-up of
/// the older connection (tagged `stale`) finds no entry of its own to
/// remove, so the newer connection stays registered.
pub proof fn law_stale_release_keeps_newer<S>(
    connections: Seq<(Seq<char>, S, u64)>,
    environment_id: Seq<char>,
    newer_sender: S,
    newer: u64,
    stale: u64,
)
    requires
        unique_keys(connections),
        newer != stale,
    ensures
        lookup(inserted(connections, environment_id, newer_sender, newer), environment_id) == Some((newer_sender, newer)),
        !exists|i: int| at_key(inserted(connections, environment_id, newer_sender, newer), environment_id, i)
            && #[trigger] inserted(connections, environment_id, newer_sender, newer)[i].2 == stale,
{
    let s = inserted(connections, environment_id, newer_sender, newer);
    law_lookup_after_insert(connections, environment_id, newer_sender, newer, environment_id);
    if exists|i: int| at_key(s, environment_id, i) && #[trigger] s[i].2 == stale {
        let i = choose|i: int| at_key(s, environment_id, i) && #[trigger] s[i].2 == stale;
        crate::tagged_map::lemma_key_index(s, environment_id, i);
    }
}

} // verus!
