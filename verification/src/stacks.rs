//! Swarm stacks: services and tasks grouped by the stack label of their
//! services, with replica counts and a health status per stack.

use vstd::prelude::*;

use crate::error::{ApiError, STATUS_NOT_FOUND};
use crate::text::{
    chars_le, chars_of, clone_opt, clone_or_empty, contains_ignoring_case, contains_text, find_pair_value, lemma_lex_total,
    lemma_lex_transitive, lex_le, lowercase, opt_view, pair_value, same_text, text_or_empty, to_lowercase,
};

verus! {

/// How a service's replicas are configured.
#[derive(Clone, Copy, Debug, PartialEq, Eq)]
pub struct ServiceMode {
    /// Replicas of a replicated service.
    pub replicas: Option<i64>,
    /// Completions of a replicated job.
    pub total_completions: Option<i64>,
}

/// The specification part of a service that stacks read.
#[derive(Debug)]
pub struct ServiceSpecSummary {
    pub name: Option<String>,
    pub labels: Option<Vec<(String, String)>>,
    pub mode: Option<ServiceMode>,
}

/// A swarm service as the engine lists it.
#[derive(Debug)]
pub struct ServiceSummary {
    pub id: Option<String>,
    pub spec: Option<ServiceSpecSummary>,
    pub desired_tasks: Option<u64>,
}

/// The state of a swarm task.
#[derive(Clone, Copy, Debug, PartialEq, Eq, Structural)]
pub enum TaskState {
    New,
    Allocated,
    Pending,
    Assigned,
    Accepted,
    Preparing,
    Ready,
    Starting,
    Running,
    Complete,
    Shutdown,
    Failed,
    Rejected,
    Remove,
    Orphaned,
}

/// The status part of a task that stacks read.
#[derive(Debug)]
pub struct TaskStatusSummary {
    pub state: Option<TaskState>,
    pub err: Option<String>,
    pub container_id: Option<String>,
}

/// A swarm task as the engine lists it.
#[derive(Debug)]
pub struct TaskSummary {
    pub id: Option<String>,
    pub name: Option<String>,
    pub service_id: Option<String>,
    pub status: Option<TaskStatusSummary>,
}

/// A service of a stack as answered.
#[derive(Debug)]
pub struct StackServiceResponse {
    pub id: String,
    pub name: String,
    pub desired_replicas: u64,
    pub running_replicas: u64,
}

/// A task of a stack as answered.
#[derive(Debug)]
pub struct StackTaskResponse {
    pub id: String,
    pub name: Option<String>,
    pub state: Option<String>,
    pub error: Option<String>,
    pub container_id: Option<String>,
}

/// A stack as answered.
#[derive(Debug)]
pub struct StackResponse {
    pub name: String,
    pub status: String,
    pub service_count: u64,
    pub desired_replicas: u64,
    pub running_replicas: u64,
    pub failed_tasks: u64,
    pub services: Vec<StackServiceResponse>,
    pub tasks: Vec<StackTaskResponse>,
}

/// A stack listing: unavailable (with a reason) off a swarm manager.
#[derive(Debug)]
pub struct StackListResponse {
    pub available: bool,
    pub reason: Option<String>,
    pub items: Vec<StackResponse>,
}

/// The lower-case name of a task state.
pub open spec fn state_name(s: TaskState) -> Seq<char> {
    match s {
        TaskState::New => "new"@,
        TaskState::Allocated => "allocated"@,
        TaskState::Pending => "pending"@,
        TaskState::Assigned => "assigned"@,
        TaskState::Accepted => "accepted"@,
        TaskState::Preparing => "preparing"@,
        TaskState::Ready => "ready"@,
        TaskState::Starting => "starting"@,
        TaskState::Running => "running"@,
        TaskState::Complete => "complete"@,
        TaskState::Shutdown => "shutdown"@,
        TaskState::Failed => "failed"@,
        TaskState::Rejected => "rejected"@,
        TaskState::Remove => "remove"@,
        TaskState::Orphaned => "orphaned"@,
    }
}

impl TaskState {
    /// The lower-case name of the state.
    pub fn name(&self) -> (r: String)
        ensures
            r@ == state_name(*self),
    {
        match self {
            TaskState::New => "new".to_owned(),
            TaskState::Allocated => "allocated".to_owned(),
            TaskState::Pending => "pending".to_owned(),
            TaskState::Assigned => "assigned".to_owned(),
            TaskState::Accepted => "accepted".to_owned(),
            TaskState::Preparing => "preparing".to_owned(),
            TaskState::Ready => "ready".to_owned(),
            TaskState::Starting => "starting".to_owned(),
            TaskState::Running => "running".to_owned(),
            TaskState::Complete => "complete".to_owned(),
            TaskState::Shutdown => "shutdown".to_owned(),
            TaskState::Failed => "failed".to_owned(),
            TaskState::Rejected => "rejected".to_owned(),
            TaskState::Remove => "remove".to_owned(),
            TaskState::Orphaned => "orphaned".to_owned(),
        }
    }
}

/// A count read as non-negative.
pub open spec fn clamp_count(v: i64) -> u64 {
    if v >= 0 { v as u64 } else { 0 }
}

/// The replicas a service wants: what its status says, else its replicated
/// count, else its job completions, else none.
pub open spec fn desired_of(service: ServiceSummary) -> u64 {
    match service.desired_tasks {
        Some(d) => d,
        None => match service.spec {
            Some(spec) => match spec.mode {
                Some(mode) => match mode.replicas {
                    Some(r) => clamp_count(r),
                    None => match mode.total_completions {
                        Some(c) => clamp_count(c),
                        None => 0,
                    },
                },
                None => 0,
            },
            None => 0,
        },
    }
}

/// The replicas a service wants.
pub fn desired_replicas(service: &ServiceSummary) -> (r: u64)
    ensures
        r == desired_of(*service),
{
    if let Some(d) = service.desired_tasks {
        return d;
    }
    match &service.spec {
        Some(spec) => match spec.mode {
            Some(mode) => match mode.replicas {
                Some(r) => if r >= 0 { r as u64 } else { 0 },
                None => match mode.total_completions {
                    Some(c) => if c >= 0 { c as u64 } else { 0 },
                    None => 0,
                },
            },
            None => 0,
        },
        None => 0,
    }
}

/// The stack a service is listed under: its stack label, when it has a
/// specification with that label and the label contains the query
/// (ignoring case).
pub open spec fn stack_of(service: ServiceSummary, query: Option<Seq<char>>) -> Option<Seq<char>> {
    match service.spec {
        Some(spec) => match spec.labels {
            Some(labels) => match pair_value(labels@, "com.docker.stack.namespace"@) {
                Some(name) => match query {
                    Some(q) => if contains_text(lowercase(name), lowercase(q)) { Some(name) } else { None },
                    None => Some(name),
                },
                None => None,
            },
            None => None,
        },
        None => None,
    }
}

/// The stack a service is listed under, if any.
pub fn service_stack(service: &ServiceSummary, query: Option<&str>) -> (r: Option<String>)
    ensures
        opt_view(r) == stack_of(*service, match query { Some(q) => Some(q@), None => None }),
{
    let spec = match &service.spec {
        Some(s) => s,
        None => {
            return None;
        },
    };
    let labels = match &spec.labels {
        Some(l) => l,
        None => {
            return None;
        },
    };
    let name = match find_pair_value(labels, "com.docker.stack.namespace") {
        Some(n) => n,
        None => {
            return None;
        },
    };
    match query {
        Some(q) => if contains_ignoring_case(name.as_str(), q) {
            Some(name)
        } else {
            None
        },
        None => Some(name),
    }
}

/// The id of a service, empty when missing.
pub open spec fn service_id_of(service: ServiceSummary) -> Seq<char> {
    match service.id {
        Some(i) => i@,
        None => Seq::empty(),
    }
}

/// The stack of the last listed service with id `sid`, when it belongs to
/// one: a task belongs to the stack of the service it runs for, and a
/// later service with the same id takes precedence.
pub open spec fn last_stack(services: Seq<ServiceSummary>, query: Option<Seq<char>>, sid: Seq<char>) -> Option<Seq<char>>
    decreases services.len(),
{
    if services.len() == 0 {
        None
    } else if stack_of(services.last(), query) is Some && service_id_of(services.last()) == sid {
        stack_of(services.last(), query)
    } else {
        last_stack(services.drop_last(), query, sid)
    }
}

/// The stack a task belongs to.
pub open spec fn task_stack(services: Seq<ServiceSummary>, query: Option<Seq<char>>, task: TaskSummary) -> Option<Seq<char>> {
    match task.service_id {
        Some(s) => last_stack(services, query, s@),
        None => None,
    }
}

/// The stack names, each once, in the order their first service is listed.
pub open spec fn stack_names(services: Seq<ServiceSummary>, query: Option<Seq<char>>) -> Seq<Seq<char>>
    decreases services.len(),
{
    if services.len() == 0 {
        Seq::empty()
    } else {
        let prev = stack_names(services.drop_last(), query);
        match stack_of(services.last(), query) {
            Some(n) => if prev.contains(n) { prev } else { prev.push(n) },
            None => prev,
        }
    }
}

/// The services of stack `n`, in order, each as its id, its name (the
/// id when unnamed), its desired replicas and whether it is the first
/// service of the stack with its id.
pub open spec fn stack_service_rows(
    services: Seq<ServiceSummary>,
    query: Option<Seq<char>>,
    n: Seq<char>,
) -> Seq<(Seq<char>, Seq<char>, u64, bool)>
    decreases services.len(),
{
    if services.len() == 0 {
        Seq::empty()
    } else {
        let prev = stack_service_rows(services.drop_last(), query, n);
        let s = services.last();
        if stack_of(s, query) == Some(n) {
            let id = service_id_of(s);
            let name = match s.spec {
                Some(spec) => match spec.name {
                    Some(x) => x@,
                    None => id,
                },
                None => id,
            };
            prev.push((id, name, desired_of(s), !row_ids(prev).contains(id)))
        } else {
            prev
        }
    }
}

/// Law of the stack rows: listing one more service of stack `n` adds one
/// row for it at the end, showing its id, its own name when its
/// specification names it (its id only when the name is missing), its
/// desired replicas, and whether no earlier row of the stack has its id;
/// a service of another stack (or of none) adds no row.
pub proof fn law_service_row_shows_the_service(
    services: Seq<ServiceSummary>,
    query: Option<Seq<char>>,
    n: Seq<char>,
    svc: ServiceSummary,
)
    ensures
        stack_of(svc, query) == Some(n) ==> {
            let before = stack_service_rows(services, query, n);
            let after = stack_service_rows(services.push(svc), query, n);
            &&& after.len() == before.len() + 1
            &&& after.take(before.len() as int) == before
            &&& after.last().0 == service_id_of(svc)
            &&& (svc.spec matches Some(spec) && spec.name matches Some(x) ==> after.last().1 == x@)
            &&& (!(svc.spec matches Some(spec) && spec.name is Some) ==> after.last().1 == service_id_of(svc))
            &&& after.last().2 == desired_of(svc)
            &&& after.last().3 == !row_ids(before).contains(service_id_of(svc))
        },
        stack_of(svc, query) != Some(n) ==> stack_service_rows(services.push(svc), query, n) == stack_service_rows(
            services,
            query,
            n,
        ),
{
    let all = services.push(svc);
    assert(all.drop_last() =~= services);
    assert(all.last() == svc);
    if stack_of(svc, query) == Some(n) {
        let before = stack_service_rows(services, query, n);
        let after = stack_service_rows(all, query, n);
        assert(after.take(before.len() as int) =~= before);
    }
}

/// The ids of service rows.
pub open spec fn row_ids(rows: Seq<(Seq<char>, Seq<char>, u64, bool)>) -> Seq<Seq<char>> {
    rows.map_values(|r: (Seq<char>, Seq<char>, u64, bool)| r.0)
}

/// The desired replicas of service rows, summed.
pub open spec fn desired_total(rows: Seq<(Seq<char>, Seq<char>, u64, bool)>) -> nat
    decreases rows.len(),
{
    if rows.len() == 0 {
        0
    } else {
        desired_total(rows.drop_last()) + (rows.last().2 as nat)
    }
}

/// A task runs.
pub open spec fn task_running(t: TaskSummary) -> bool {
    t.status matches Some(st) && st.state == Some(TaskState::Running)
}

/// A task failed: it failed, was rejected or orphaned, or reports an error.
pub open spec fn task_failed(t: TaskSummary) -> bool {
    t.status matches Some(st) && (st.state == Some(TaskState::Failed) || st.state == Some(TaskState::Rejected)
        || st.state == Some(TaskState::Orphaned) || st.err is Some)
}

/// How many of the tasks satisfy `p`.
pub open spec fn count_tasks(tasks: Seq<TaskSummary>, p: spec_fn(TaskSummary) -> bool) -> nat
    decreases tasks.len(),
{
    if tasks.len() == 0 {
        0
    } else {
        count_tasks(tasks.drop_last(), p) + if p(tasks.last()) { 1nat } else { 0nat }
    }
}

/// A task belongs to stack `n`.
pub open spec fn in_stack(services: Seq<ServiceSummary>, query: Option<Seq<char>>, n: Seq<char>) -> spec_fn(TaskSummary) -> bool {
    |t: TaskSummary| task_stack(services, query, t) == Some(n)
}

/// A task of stack `n` that runs.
pub open spec fn running_in_stack(services: Seq<ServiceSummary>, query: Option<Seq<char>>, n: Seq<char>) -> spec_fn(TaskSummary) -> bool {
    |t: TaskSummary| task_stack(services, query, t) == Some(n) && task_running(t)
}

/// A task of stack `n` that failed.
pub open spec fn failed_in_stack(services: Seq<ServiceSummary>, query: Option<Seq<char>>, n: Seq<char>) -> spec_fn(TaskSummary) -> bool {
    |t: TaskSummary| task_stack(services, query, t) == Some(n) && task_failed(t)
}

/// A task of stack `n` that runs for the service with id `sid`.
pub open spec fn running_for(services: Seq<ServiceSummary>, query: Option<Seq<char>>, n: Seq<char>, sid: Seq<char>) -> spec_fn(TaskSummary) -> bool {
    |t: TaskSummary| task_stack(services, query, t) == Some(n) && task_running(t) && opt_view(t.service_id) == Some(sid)
}

/// A count, capped at the largest `u64`.
pub open spec fn cap(n: nat) -> u64 {
    if n > u64::MAX { u64::MAX } else { n as u64 }
}

/// The health of a stack: degraded with a failed task, else running when
/// its running replicas reach the desired ones, else pending.
pub open spec fn stack_status(failed: nat, running: nat, desired: u64) -> Seq<char> {
    if failed > 0 {
        "degraded"@
    } else if running >= desired {
        "running"@
    } else {
        "pending"@
    }
}

/// How a task is answered.
pub open spec fn shows_task(r: StackTaskResponse, t: TaskSummary) -> bool {
    &&& r.id@ == text_or_empty(t.id)
    &&& opt_view(r.name) == opt_view(t.name)
    &&& opt_view(r.state) == match t.status {
        Some(st) => match st.state {
            Some(x) => Some(state_name(x)),
            None => None,
        },
        None => None,
    }
    &&& opt_view(r.error) == match t.status {
        Some(st) => opt_view(st.err),
        None => None,
    }
    &&& opt_view(r.container_id) == match t.status {
        Some(st) => opt_view(st.container_id),
        None => None,
    }
}

/// How stack `n` is answered: its services and tasks, their counts and its health.
pub open spec fn shows_stack(
    r: StackResponse,
    services: Seq<ServiceSummary>,
    tasks: Seq<TaskSummary>,
    query: Option<Seq<char>>,
    n: Seq<char>,
) -> bool {
    let rows = stack_service_rows(services, query, n);
    let stack_tasks = tasks.filter(in_stack(services, query, n));
    let running = count_tasks(tasks, running_in_stack(services, query, n));
    let failed = count_tasks(tasks, failed_in_stack(services, query, n));
    &&& r.name@ == n
    &&& r.services@.len() == rows.len()
    &&& forall|j: int| 0 <= j < rows.len() ==> {
        &&& (#[trigger] r.services@[j]).id@ == rows[j].0
        &&& r.services@[j].name@ == rows[j].1
        &&& r.services@[j].desired_replicas == rows[j].2
        &&& r.services@[j].running_replicas == if rows[j].3 {
            cap(count_tasks(tasks, running_for(services, query, n, rows[j].0)))
        } else {
            0
        }
    }
    &&& r.tasks@.len() == stack_tasks.len()
    &&& forall|i: int| 0 <= i < stack_tasks.len() ==> shows_task(#[trigger] r.tasks@[i], stack_tasks[i])
    &&& r.service_count == rows.len()
    &&& r.desired_replicas == cap(desired_total(rows))
    &&& r.running_replicas == cap(running)
    &&& r.failed_tasks == cap(failed)
    &&& r.status@ == stack_status(failed, running, cap(desired_total(rows)))
}

/// The characters of an optional query.
pub open spec fn query_view(query: Option<&str>) -> Option<Seq<char>> {
    match query {
        Some(q) => Some(q@),
        None => None,
    }
}

/// The stacks the services are listed under, position for position.
pub open spec fn stacks_of(stacks: Seq<Option<String>>, services: Seq<ServiceSummary>, query: Option<Seq<char>>) -> bool {
    stacks.len() == services.len() && forall|i: int| 0 <= i < services.len() ==> opt_view(#[trigger] stacks[i]) == stack_of(services[i], query)
}

fn service_stacks(services: &Vec<ServiceSummary>, query: Option<&str>) -> (r: Vec<Option<String>>)
    ensures
        stacks_of(r@, services@, query_view(query)),
{
    let mut r: Vec<Option<String>> = Vec::new();
    let mut i: usize = 0;
    while i < services.len()
        invariant
            i <= services@.len(),
            r@.len() == i,
            forall|k: int| 0 <= k < i ==> opt_view(#[trigger] r@[k]) == stack_of(services@[k], query_view(query)),
        decreases services.len() - i,
    {
        r.push(service_stack(&services[i], query));
        i += 1;
    }
    r
}

fn id_is(id: &Option<String>, sid: &str) -> (r: bool)
    ensures
        r == (text_or_empty(*id) == sid@),
{
    match id {
        Some(x) => same_text(x.as_str(), sid),
        None => {
            let e = String::new();
            same_text(e.as_str(), sid)
        },
    }
}

fn find_last_stack(
    services: &Vec<ServiceSummary>,
    stacks: &Vec<Option<String>>,
    Ghost(query): Ghost<Option<Seq<char>>>,
    sid: &str,
) -> (r: Option<String>)
    requires
        stacks_of(stacks@, services@, query),
    ensures
        opt_view(r) == last_stack(services@, query, sid@),
{
    let mut j: usize = services.len();
    assert(services@.subrange(0, j as int) =~= services@);
    while j > 0
        invariant
            j <= services@.len(),
            stacks_of(stacks@, services@, query),
            last_stack(services@, query, sid@) == last_stack(services@.subrange(0, j as int), query, sid@),
        decreases j,
    {
        let ghost pre = services@.subrange(0, j as int);
        assert(pre.last() == services@[j - 1]);
        assert(pre.drop_last() =~= services@.subrange(0, j - 1));
        assert(opt_view(stacks@[j - 1]) == stack_of(services@[j - 1], query));
        match &stacks[j - 1] {
            Some(n) => {
                if id_is(&services[j - 1].id, sid) {
                    return Some(n.clone());
                }
            },
            None => {},
        }
        j -= 1;
    }
    None
}

fn collect_stack_names(
    services: &Vec<ServiceSummary>,
    stacks: &Vec<Option<String>>,
    Ghost(query): Ghost<Option<Seq<char>>>,
) -> (names: Vec<String>)
    requires
        stacks_of(stacks@, services@, query),
    ensures
        names@.map_values(|s: String| s@) == stack_names(services@, query),
{
    let mut names: Vec<String> = Vec::new();
    let mut i: usize = 0;
    assert(services@.take(0) =~= Seq::<ServiceSummary>::empty());
    assert(names@.map_values(|s: String| s@) =~= Seq::<Seq<char>>::empty());
    while i < services.len()
        invariant
            i <= services@.len(),
            stacks_of(stacks@, services@, query),
            names@.map_values(|s: String| s@) == stack_names(services@.take(i as int), query),
        decreases services.len() - i,
    {
        let ghost prev = names@.map_values(|s: String| s@);
        assert(services@.take(i + 1).drop_last() =~= services@.take(i as int));
        assert(services@.take(i + 1).last() == services@[i as int]);
        assert(opt_view(stacks@[i as int]) == stack_of(services@[i as int], query));
        match &stacks[i] {
            Some(n) => {
                if !crate::text::contains_string(&names, n.as_str()) {
                    names.push(n.clone());
                    assert(names@.map_values(|s: String| s@) =~= prev.push(n@));
                }
            },
            None => {},
        }
        i += 1;
    }
    assert(services@.take(services@.len() as int) =~= services@);
    names
}

/// The stacks the tasks belong to, position for position.
pub open spec fn task_stacks_of(
    tstacks: Seq<Option<String>>,
    services: Seq<ServiceSummary>,
    tasks: Seq<TaskSummary>,
    query: Option<Seq<char>>,
) -> bool {
    tstacks.len() == tasks.len() && forall|k: int| 0 <= k < tasks.len() ==> opt_view(#[trigger] tstacks[k]) == task_stack(services, query, tasks[k])
}

fn task_stacks(
    services: &Vec<ServiceSummary>,
    stacks: &Vec<Option<String>>,
    tasks: &Vec<TaskSummary>,
    Ghost(query): Ghost<Option<Seq<char>>>,
) -> (r: Vec<Option<String>>)
    requires
        stacks_of(stacks@, services@, query),
    ensures
        task_stacks_of(r@, services@, tasks@, query),
{
    let mut r: Vec<Option<String>> = Vec::new();
    let mut k: usize = 0;
    while k < tasks.len()
        invariant
            k <= tasks@.len(),
            stacks_of(stacks@, services@, query),
            r@.len() == k,
            forall|m: int| 0 <= m < k ==> opt_view(#[trigger] r@[m]) == task_stack(services@, query, tasks@[m]),
        decreases tasks.len() - k,
    {
        let found = match &tasks[k].service_id {
            Some(sid) => find_last_stack(services, stacks, Ghost(query), sid.as_str()),
            None => None,
        };
        r.push(found);
        k += 1;
    }
    r
}

/// The answer for a task.
pub fn task_response(task: &TaskSummary) -> (r: StackTaskResponse)
    ensures
        shows_task(r, *task),
{
    let (state, error, container_id) = match &task.status {
        Some(st) => (
            match &st.state {
                Some(x) => Some(x.name()),
                None => None,
            },
            clone_opt(&st.err),
            clone_opt(&st.container_id),
        ),
        None => (None, None, None),
    };
    StackTaskResponse { id: clone_or_empty(&task.id), name: clone_opt(&task.name), state, error, container_id }
}

fn is_running(task: &TaskSummary) -> (r: bool)
    ensures
        r == task_running(*task),
{
    match &task.status {
        Some(st) => st.state == Some(TaskState::Running),
        None => false,
    }
}

fn is_failed(task: &TaskSummary) -> (r: bool)
    ensures
        r == task_failed(*task),
{
    match &task.status {
        Some(st) => st.state == Some(TaskState::Failed) || st.state == Some(TaskState::Rejected) || st.state == Some(
            TaskState::Orphaned,
        ) || st.err.is_some(),
        None => false,
    }
}

fn in_named_stack(tstack: &Option<String>, name: &String) -> (r: bool)
    ensures
        r == (opt_view(*tstack) == Some(name@)),
{
    match tstack {
        Some(x) => same_text(x.as_str(), name.as_str()),
        None => false,
    }
}

/// The row model of collected service rows.
pub open spec fn rows_model(rows: Seq<(String, String, u64, bool)>) -> Seq<(Seq<char>, Seq<char>, u64, bool)> {
    rows.map_values(|r: (String, String, u64, bool)| (r.0@, r.1@, r.2, r.3))
}

fn count_running_for(
    tasks: &Vec<TaskSummary>,
    tstacks: &Vec<Option<String>>,
    Ghost(services): Ghost<Seq<ServiceSummary>>,
    Ghost(query): Ghost<Option<Seq<char>>>,
    name: &String,
    sid: &String,
) -> (r: u64)
    requires
        task_stacks_of(tstacks@, services, tasks@, query),
    ensures
        r == count_tasks(tasks@, running_for(services, query, name@, sid@)),
{
    let ghost p = running_for(services, query, name@, sid@);
    let mut c: u64 = 0;
    let mut k: usize = 0;
    assert(tasks@.take(0) =~= Seq::<TaskSummary>::empty());
    while k < tasks.len()
        invariant
            k <= tasks@.len(),
            task_stacks_of(tstacks@, services, tasks@, query),
            p == running_for(services, query, name@, sid@),
            c == count_tasks(tasks@.take(k as int), p),
            c <= k,
        decreases tasks.len() - k,
    {
        assert(tasks@.take(k + 1).drop_last() =~= tasks@.take(k as int));
        assert(tasks@.take(k + 1).last() == tasks@[k as int]);
        assert(opt_view(tstacks@[k as int]) == task_stack(services, query, tasks@[k as int]));
        let t = &tasks[k];
        let hit = in_named_stack(&tstacks[k], name) && is_running(t) && match &t.service_id {
            Some(x) => same_text(x.as_str(), sid.as_str()),
            None => false,
        };
        if hit {
            c = c + 1;
        }
        k += 1;
    }
    assert(tasks@.take(tasks@.len() as int) =~= tasks@);
    c
}

fn build_stack(
    services: &Vec<ServiceSummary>,
    stacks: &Vec<Option<String>>,
    tasks: &Vec<TaskSummary>,
    tstacks: &Vec<Option<String>>,
    Ghost(query): Ghost<Option<Seq<char>>>,
    name: &String,
) -> (r: StackResponse)
    requires
        stacks_of(stacks@, services@, query),
        task_stacks_of(tstacks@, services@, tasks@, query),
    ensures
        shows_stack(r, services@, tasks@, query, name@),
{
    let ghost n = name@;
    // The services of the stack, in order.
    let mut rows: Vec<(String, String, u64, bool)> = Vec::new();
    let mut desired: u64 = 0;
    let mut i: usize = 0;
    assert(services@.take(0) =~= Seq::<ServiceSummary>::empty());
    assert(rows_model(rows@) =~= Seq::<(Seq<char>, Seq<char>, u64, bool)>::empty());
    while i < services.len()
        invariant
            i <= services@.len(),
            stacks_of(stacks@, services@, query),
            n == name@,
            rows_model(rows@) == stack_service_rows(services@.take(i as int), query, n),
            desired == cap(desired_total(rows_model(rows@))),
        decreases services.len() - i,
    {
        let ghost prev = rows_model(rows@);
        assert(services@.take(i + 1).drop_last() =~= services@.take(i as int));
        assert(services@.take(i + 1).last() == services@[i as int]);
        assert(opt_view(stacks@[i as int]) == stack_of(services@[i as int], query));
        if in_named_stack(&stacks[i], name) {
            let s = &services[i];
            let id = clone_or_empty(&s.id);
            let sname = match &s.spec {
                Some(spec) => match &spec.name {
                    Some(x) => x.clone(),
                    None => id.clone(),
                },
                None => id.clone(),
            };
            let d = desired_replicas(s);
            let mut seen = false;
            let mut j: usize = 0;
            while j < rows.len()
                invariant
                    j <= rows@.len(),
                    prev == rows_model(rows@),
                    seen == row_ids(prev).take(j as int).contains(id@),
                decreases rows.len() - j,
            {
                let ghost ids = row_ids(prev);
                assert(ids[j as int] == rows@[j as int].0@);
                assert(ids.take(j + 1) =~= ids.take(j as int).push(rows@[j as int].0@));
                proof {
                    if ids.take(j + 1).contains(id@) {
                        let w = choose|w: int| 0 <= w < ids.take(j + 1).len() && #[trigger] ids.take(j + 1)[w] == id@;
                        if w < j {
                            assert(ids.take(j as int)[w] == id@);
                        }
                    }
                    if ids.take(j as int).contains(id@) {
                        let w = choose|w: int| 0 <= w < ids.take(j as int).len() && #[trigger] ids.take(j as int)[w] == id@;
                        assert(ids.take(j + 1)[w] == id@);
                    }
                    if rows@[j as int].0@ == id@ {
                        assert(ids.take(j + 1)[j as int] == id@);
                    }
                }
                if same_text(rows[j].0.as_str(), id.as_str()) {
                    seen = true;
                }
                j += 1;
            }
            assert(row_ids(prev).take(rows@.len() as int) =~= row_ids(prev));
            let ghost row = (id@, sname@, d, !seen);
            rows.push((id, sname, d, !seen));
            assert(rows_model(rows@) =~= prev.push(row));
            assert(rows_model(rows@).drop_last() =~= prev);
            desired = desired.saturating_add(d);
        }
        i += 1;
    }
    assert(services@.take(services@.len() as int) =~= services@);
    // The tasks of the stack, with their counts.
    let ghost in_p = in_stack(services@, query, n);
    let ghost run_p = running_in_stack(services@, query, n);
    let ghost fail_p = failed_in_stack(services@, query, n);
    let mut task_rows: Vec<StackTaskResponse> = Vec::new();
    let mut running: u64 = 0;
    let mut failed: u64 = 0;
    let mut k: usize = 0;
    assert(tasks@.take(0) =~= Seq::<TaskSummary>::empty());
    proof {
        reveal(Seq::filter);
    }
    while k < tasks.len()
        invariant
            k <= tasks@.len(),
            task_stacks_of(tstacks@, services@, tasks@, query),
            n == name@,
            in_p == in_stack(services@, query, n),
            run_p == running_in_stack(services@, query, n),
            fail_p == failed_in_stack(services@, query, n),
            task_rows@.len() == tasks@.take(k as int).filter(in_p).len(),
            forall|m: int| 0 <= m < task_rows@.len() ==> shows_task(#[trigger] task_rows@[m], tasks@.take(k as int).filter(in_p)[m]),
            running == count_tasks(tasks@.take(k as int), run_p),
            failed == count_tasks(tasks@.take(k as int), fail_p),
            running <= k,
            failed <= k,
        decreases tasks.len() - k,
    {
        let ghost before = tasks@.take(k as int);
        assert(tasks@.take(k + 1).drop_last() =~= before);
        assert(tasks@.take(k + 1).last() == tasks@[k as int]);
        assert(tasks@.take(k + 1) =~= before.push(tasks@[k as int]));
        proof {
            before.lemma_filter_push(tasks@[k as int], in_p);
        }
        assert(opt_view(tstacks@[k as int]) == task_stack(services@, query, tasks@[k as int]));
        let t = &tasks[k];
        if in_named_stack(&tstacks[k], name) {
            task_rows.push(task_response(t));
            if is_running(t) {
                running = running + 1;
            }
            if is_failed(t) {
                failed = failed + 1;
            }
        }
        k += 1;
    }
    assert(tasks@.take(tasks@.len() as int) =~= tasks@);
    // The replicas running for each service of the stack.
    let mut service_rows: Vec<StackServiceResponse> = Vec::new();
    let mut j: usize = 0;
    while j < rows.len()
        invariant
            j <= rows@.len(),
            task_stacks_of(tstacks@, services@, tasks@, query),
            n == name@,
            service_rows@.len() == j,
            forall|m: int| 0 <= m < j ==> {
                &&& (#[trigger] service_rows@[m]).id@ == rows@[m].0@
                &&& service_rows@[m].name@ == rows@[m].1@
                &&& service_rows@[m].desired_replicas == rows@[m].2
                &&& service_rows@[m].running_replicas == if rows@[m].3 {
                    cap(count_tasks(tasks@, running_for(services@, query, n, rows@[m].0@)))
                } else {
                    0
                }
            },
        decreases rows.len() - j,
    {
        let run = if rows[j].3 {
            count_running_for(tasks, tstacks, Ghost(services@), Ghost(query), name, &rows[j].0)
        } else {
            0
        };
        service_rows.push(
            StackServiceResponse {
                id: rows[j].0.clone(),
                name: rows[j].1.clone(),
                desired_replicas: rows[j].2,
                running_replicas: run,
            },
        );
        j += 1;
    }
    let status = if failed > 0 {
        "degraded".to_owned()
    } else if running >= desired {
        "running".to_owned()
    } else {
        "pending".to_owned()
    };
    StackResponse {
        name: name.clone(),
        status,
        service_count: rows.len() as u64,
        desired_replicas: desired,
        running_replicas: running,
        failed_tasks: failed,
        services: service_rows,
        tasks: task_rows,
    }
}


/// No stack name is listed twice.
pub proof fn lemma_stack_names_distinct(services: Seq<ServiceSummary>, query: Option<Seq<char>>)
    ensures
        forall|a: int, b: int|
            0 <= a < b < stack_names(services, query).len() ==> #[trigger] stack_names(services, query)[a]
                != #[trigger] stack_names(services, query)[b],
    decreases services.len(),
{
    if services.len() > 0 {
        lemma_stack_names_distinct(services.drop_last(), query);
        let prev = stack_names(services.drop_last(), query);
        match stack_of(services.last(), query) {
            Some(n) => {
                if !prev.contains(n) {
                    assert forall|a: int, b: int| 0 <= a < b < prev.push(n).len() implies #[trigger] prev.push(n)[a]
                        != #[trigger] prev.push(n)[b] by {
                        if b == prev.len() {
                            assert(prev[a] != n);
                        }
                    }
                }
            },
            None => {},
        }
    }
}

/// A task row that reports a running task.
pub open spec fn row_running(row: StackTaskResponse) -> bool {
    opt_view(row.state) == Some("running"@)
}

/// A task row that reports a failed, rejected or orphaned task, or an error.
pub open spec fn row_failed(row: StackTaskResponse) -> bool {
    opt_view(row.state) == Some("failed"@) || opt_view(row.state) == Some("rejected"@) || opt_view(row.state) == Some(
        "orphaned"@,
    ) || row.error is Some
}

/// How many task rows satisfy `p`.
pub open spec fn count_rows(rows: Seq<StackTaskResponse>, p: spec_fn(StackTaskResponse) -> bool) -> nat
    decreases rows.len(),
{
    if rows.len() == 0 {
        0
    } else {
        count_rows(rows.drop_last(), p) + if p(rows.last()) { 1nat } else { 0nat }
    }
}

/// The desired replicas of the answered services, summed.
pub open spec fn services_desired(rows: Seq<StackServiceResponse>) -> nat
    decreases rows.len(),
{
    if rows.len() == 0 {
        0
    } else {
        services_desired(rows.drop_last()) + (rows.last().desired_replicas as nat)
    }
}

proof fn lemma_state_names(x: TaskState)
    ensures
        state_name(x) == "running"@ <==> x == TaskState::Running,
        state_name(x) == "failed"@ <==> x == TaskState::Failed,
        state_name(x) == "rejected"@ <==> x == TaskState::Rejected,
        state_name(x) == "orphaned"@ <==> x == TaskState::Orphaned,
{
    reveal_strlit("new");
    reveal_strlit("allocated");
    reveal_strlit("pending");
    reveal_strlit("assigned");
    reveal_strlit("accepted");
    reveal_strlit("preparing");
    reveal_strlit("ready");
    reveal_strlit("starting");
    reveal_strlit("running");
    reveal_strlit("complete");
    reveal_strlit("shutdown");
    reveal_strlit("failed");
    reveal_strlit("rejected");
    reveal_strlit("remove");
    reveal_strlit("orphaned");
    let s = state_name(x);
    if s.len() == 7 && s[0] == 'r' {
        assert(x == TaskState::Running);
    }
    if s.len() == 6 && s[0] == 'f' {
        assert(x == TaskState::Failed);
    }
    if s.len() == 8 && s[0] == 'r' {
        assert(x == TaskState::Rejected);
    }
    if s.len() == 8 && s[0] == 'o' {
        assert(x == TaskState::Orphaned);
    }
}

proof fn lemma_count_within(
    tasks: Seq<TaskSummary>,
    s: spec_fn(TaskSummary) -> bool,
    p: spec_fn(TaskSummary) -> bool,
    sp: spec_fn(TaskSummary) -> bool,
)
    requires
        forall|t: TaskSummary| #[trigger] sp(t) == (s(t) && p(t)),
    ensures
        count_tasks(tasks, sp) == count_tasks(tasks.filter(s), p),
    decreases tasks.len(),
{
    reveal(Seq::filter);
    if tasks.len() > 0 {
        lemma_count_within(tasks.drop_last(), s, p, sp);
        let prev = tasks.drop_last().filter(s);
        if s(tasks.last()) {
            assert(prev.push(tasks.last()).drop_last() =~= prev);
        }
    }
}

proof fn lemma_rows_count(rows: Seq<StackTaskResponse>, ts: Seq<TaskSummary>)
    requires
        rows.len() == ts.len(),
        forall|i: int| 0 <= i < ts.len() ==> shows_task(#[trigger] rows[i], ts[i]),
    ensures
        count_rows(rows, |r: StackTaskResponse| row_running(r)) == count_tasks(ts, |t: TaskSummary| task_running(t)),
        count_rows(rows, |r: StackTaskResponse| row_failed(r)) == count_tasks(ts, |t: TaskSummary| task_failed(t)),
        count_rows(rows, |r: StackTaskResponse| row_running(r)) <= rows.len(),
        count_rows(rows, |r: StackTaskResponse| row_failed(r)) <= rows.len(),
    decreases ts.len(),
{
    if ts.len() > 0 {
        let k = ts.len() - 1;
        assert forall|i: int| 0 <= i < ts.drop_last().len() implies shows_task(
            #[trigger] rows.drop_last()[i],
            ts.drop_last()[i],
        ) by {
            assert(shows_task(rows[i], ts[i]));
        }
        lemma_rows_count(rows.drop_last(), ts.drop_last());
        assert(shows_task(rows[k], ts[k]));
        let t = ts.last();
        if t.status is Some {
            if t.status.unwrap().state is Some {
                lemma_state_names(t.status.unwrap().state.unwrap());
            }
        }
    }
}

proof fn lemma_desired_rows(answered: Seq<StackServiceResponse>, rows: Seq<(Seq<char>, Seq<char>, u64, bool)>)
    requires
        answered.len() == rows.len(),
        forall|j: int| 0 <= j < rows.len() ==> (#[trigger] answered[j]).desired_replicas == rows[j].2,
    ensures
        services_desired(answered) == desired_total(rows),
    decreases rows.len(),
{
    if rows.len() > 0 {
        let k = rows.len() - 1;
        assert(answered[k].desired_replicas == rows[k].2);
        assert forall|j: int| 0 <= j < rows.drop_last().len() implies (
        #[trigger] answered.drop_last()[j]).desired_replicas == rows.drop_last()[j].2 by {
            assert(answered[j].desired_replicas == rows[j].2);
        }
        lemma_desired_rows(answered.drop_last(), rows.drop_last());
    }
}

/// Law of a stack's figures: its running replicas are its task rows that
/// report `running`, its failed tasks are its task rows that report a
/// failed, rejected or orphaned state or an error (neither more than the
/// stack has tasks), its desired replicas are the sum of its services'
/// desired replicas, and its service count is the number of its service
/// rows (each capped at the largest `u64`).
pub proof fn law_stack_figures(
    r: StackResponse,
    services: Seq<ServiceSummary>,
    tasks: Seq<TaskSummary>,
    query: Option<Seq<char>>,
    n: Seq<char>,
)
    requires
        shows_stack(r, services, tasks, query, n),
    ensures
        r.running_replicas == cap(count_rows(r.tasks@, |x: StackTaskResponse| row_running(x))),
        r.failed_tasks == cap(count_rows(r.tasks@, |x: StackTaskResponse| row_failed(x))),
        r.running_replicas <= r.tasks@.len(),
        r.failed_tasks <= r.tasks@.len(),
        r.desired_replicas == cap(services_desired(r.services@)),
        r.service_count == r.services@.len(),
{
    let rows = stack_service_rows(services, query, n);
    let stack_tasks = tasks.filter(in_stack(services, query, n));
    lemma_count_within(tasks, in_stack(services, query, n), |t: TaskSummary| task_running(t), running_in_stack(services, query, n));
    lemma_count_within(tasks, in_stack(services, query, n), |t: TaskSummary| task_failed(t), failed_in_stack(services, query, n));
    lemma_rows_count(r.tasks@, stack_tasks);
    lemma_desired_rows(r.services@, rows);
}

/// Law of a stack's health: it is degraded exactly when it has a failed
/// task; otherwise it runs when its running replicas reach its desired
/// replicas, and is pending when they fall short.
pub proof fn law_stack_health(
    r: StackResponse,
    services: Seq<ServiceSummary>,
    tasks: Seq<TaskSummary>,
    query: Option<Seq<char>>,
    n: Seq<char>,
)
    requires
        shows_stack(r, services, tasks, query, n),
    ensures
        r.status@ == "degraded"@ <==> r.failed_tasks > 0,
        r.status@ == "running"@ <==> (r.failed_tasks == 0 && r.running_replicas >= r.desired_replicas),
        r.status@ == "pending"@ <==> (r.failed_tasks == 0 && r.running_replicas < r.desired_replicas),
{
    reveal_strlit("degraded");
    reveal_strlit("running");
    reveal_strlit("pending");
    assert("degraded"@ != "running"@) by {
        assert("degraded"@.len() != "running"@.len());
    }
    assert("degraded"@ != "pending"@) by {
        assert("degraded"@.len() != "pending"@.len());
    }
    assert("running"@ != "pending"@) by {
        assert("running"@[0] != "pending"@[0]);
    }
}

/// An answered service row shows service `svc`: its id, its own name when
/// its specification names it (else its id), and its desired replicas.
pub open spec fn row_shows_service(id: Seq<char>, name: Seq<char>, desired: u64, svc: ServiceSummary) -> bool {
    &&& id == service_id_of(svc)
    &&& (svc.spec matches Some(sp) && sp.name matches Some(x) ==> name == x@)
    &&& (!(svc.spec matches Some(sp) && sp.name is Some) ==> name == service_id_of(svc))
    &&& desired == desired_of(svc)
}

/// Some listed service of stack `n` is shown by the row.
pub open spec fn shows_a_service_of(
    services: Seq<ServiceSummary>,
    query: Option<Seq<char>>,
    n: Seq<char>,
    id: Seq<char>,
    name: Seq<char>,
    desired: u64,
) -> bool {
    exists|i: int|
        0 <= i < services.len() && stack_of(services[i], query) == Some(n) && #[trigger] row_shows_service(
            id,
            name,
            desired,
            services[i],
        )
}

/// Some answered service row shows `svc`.
pub open spec fn shown_in_rows(rows: Seq<StackServiceResponse>, svc: ServiceSummary) -> bool {
    exists|j: int|
        0 <= j < rows.len() && #[trigger] row_shows_service(rows[j].id@, rows[j].name@, rows[j].desired_replicas, svc)
}

spec fn shown_in_model(rows: Seq<(Seq<char>, Seq<char>, u64, bool)>, svc: ServiceSummary) -> bool {
    exists|j: int| 0 <= j < rows.len() && #[trigger] row_shows_service(rows[j].0, rows[j].1, rows[j].2, svc)
}

proof fn lemma_rows_from_services(services: Seq<ServiceSummary>, query: Option<Seq<char>>, n: Seq<char>)
    ensures
        forall|j: int|
            0 <= j < stack_service_rows(services, query, n).len() ==> shows_a_service_of(
                services,
                query,
                n,
                (#[trigger] stack_service_rows(services, query, n)[j]).0,
                stack_service_rows(services, query, n)[j].1,
                stack_service_rows(services, query, n)[j].2,
            ),
        forall|i: int|
            0 <= i < services.len() && stack_of(services[i], query) == Some(n) ==> shown_in_model(
                stack_service_rows(services, query, n),
                #[trigger] services[i],
            ),
    decreases services.len(),
{
    if services.len() > 0 {
        let pre = services.drop_last();
        let k = services.len() - 1;
        let svc = services.last();
        lemma_rows_from_services(pre, query, n);
        law_service_row_shows_the_service(pre, query, n, svc);
        assert(pre.push(svc) =~= services);
        let before = stack_service_rows(pre, query, n);
        let after = stack_service_rows(services, query, n);
        assert(services[k] == svc);
        assert forall|j: int| 0 <= j < after.len() implies shows_a_service_of(
            services,
            query,
            n,
            (#[trigger] after[j]).0,
            after[j].1,
            after[j].2,
        ) by {
            if j < before.len() {
                if stack_of(svc, query) == Some(n) {
                    assert(after[j] == after.take(before.len() as int)[j]);
                }
                assert(after[j] == before[j]);
                assert(shows_a_service_of(pre, query, n, before[j].0, before[j].1, before[j].2));
                let i = choose|i: int|
                    0 <= i < pre.len() && stack_of(pre[i], query) == Some(n) && #[trigger] row_shows_service(
                        before[j].0,
                        before[j].1,
                        before[j].2,
                        pre[i],
                    );
                assert(services[i] == pre[i]);
                assert(row_shows_service(after[j].0, after[j].1, after[j].2, services[i]));
            } else {
                assert(row_shows_service(after[j].0, after[j].1, after[j].2, services[k]));
            }
        }
        assert forall|i: int| 0 <= i < services.len() && stack_of(services[i], query) == Some(n) implies shown_in_model(
            after,
            #[trigger] services[i],
        ) by {
            if i < k {
                assert(services[i] == pre[i]);
                assert(shown_in_model(before, pre[i]));
                let j = choose|j: int|
                    0 <= j < before.len() && #[trigger] row_shows_service(before[j].0, before[j].1, before[j].2, pre[i]);
                if stack_of(svc, query) == Some(n) {
                    assert(after[j] == after.take(before.len() as int)[j]);
                }
                assert(after[j] == before[j]);
                assert(row_shows_service(after[j].0, after[j].1, after[j].2, services[i]));
            } else {
                let j = after.len() - 1;
                assert(row_shows_service(after[j].0, after[j].1, after[j].2, services[i]));
            }
        }
    }
}

/// Law of a stack's services: every service row of the answered stack
/// shows one listed service of that stack (its id, its own name when it
/// has one, else its id, and its desired replicas), and every listed
/// service of the stack is shown by some row.
pub proof fn law_stack_services_are_its_services(
    r: StackResponse,
    services: Seq<ServiceSummary>,
    tasks: Seq<TaskSummary>,
    query: Option<Seq<char>>,
    n: Seq<char>,
)
    requires
        shows_stack(r, services, tasks, query, n),
    ensures
        forall|j: int|
            0 <= j < r.services@.len() ==> shows_a_service_of(
                services,
                query,
                n,
                (#[trigger] r.services@[j]).id@,
                r.services@[j].name@,
                r.services@[j].desired_replicas,
            ),
        forall|i: int|
            0 <= i < services.len() && stack_of(services[i], query) == Some(n) ==> shown_in_rows(
                r.services@,
                #[trigger] services[i],
            ),
{
    let rows = stack_service_rows(services, query, n);
    lemma_rows_from_services(services, query, n);
    assert forall|j: int| 0 <= j < r.services@.len() implies shows_a_service_of(
        services,
        query,
        n,
        (#[trigger] r.services@[j]).id@,
        r.services@[j].name@,
        r.services@[j].desired_replicas,
    ) by {
        assert(r.services@[j].id@ == rows[j].0);
        assert(shows_a_service_of(services, query, n, rows[j].0, rows[j].1, rows[j].2));
    }
    assert forall|i: int| 0 <= i < services.len() && stack_of(services[i], query) == Some(n) implies shown_in_rows(
        r.services@,
        #[trigger] services[i],
    ) by {
        assert(shown_in_model(rows, services[i]));
        let j = choose|j: int|
            0 <= j < rows.len() && #[trigger] row_shows_service(rows[j].0, rows[j].1, rows[j].2, services[i]);
        assert(r.services@[j].id@ == rows[j].0);
        assert(row_shows_service(r.services@[j].id@, r.services@[j].name@, r.services@[j].desired_replicas, services[i]));
    }
}

/// The running replicas of the answered services, summed.
pub open spec fn services_running(rows: Seq<StackServiceResponse>) -> nat
    decreases rows.len(),
{
    if rows.len() == 0 {
        0
    } else {
        services_running(rows.drop_last()) + (rows.last().running_replicas as nat)
    }
}

spec fn model_running(
    rows: Seq<(Seq<char>, Seq<char>, u64, bool)>,
    tasks: Seq<TaskSummary>,
    services: Seq<ServiceSummary>,
    query: Option<Seq<char>>,
    n: Seq<char>,
) -> nat
    decreases rows.len(),
{
    if rows.len() == 0 {
        0
    } else {
        model_running(rows.drop_last(), tasks, services, query, n) + if rows.last().3 {
            count_tasks(tasks, running_for(services, query, n, rows.last().0))
        } else {
            0nat
        }
    }
}

spec fn first_rows_with(rows: Seq<(Seq<char>, Seq<char>, u64, bool)>, s: Seq<char>) -> nat
    decreases rows.len(),
{
    if rows.len() == 0 {
        0
    } else {
        first_rows_with(rows.drop_last(), s) + if rows.last().3 && rows.last().0 == s { 1nat } else { 0nat }
    }
}

proof fn lemma_count_le(tasks: Seq<TaskSummary>, p: spec_fn(TaskSummary) -> bool)
    ensures
        count_tasks(tasks, p) <= tasks.len(),
    decreases tasks.len(),
{
    if tasks.len() > 0 {
        lemma_count_le(tasks.drop_last(), p);
    }
}

proof fn lemma_first_rows(services: Seq<ServiceSummary>, query: Option<Seq<char>>, n: Seq<char>, s: Seq<char>)
    ensures
        first_rows_with(stack_service_rows(services, query, n), s) == if row_ids(
            stack_service_rows(services, query, n),
        ).contains(s) {
            1nat
        } else {
            0nat
        },
        last_stack(services, query, s) == Some(n) ==> row_ids(stack_service_rows(services, query, n)).contains(s),
    decreases services.len(),
{
    if services.len() > 0 {
        let pre = services.drop_last();
        lemma_first_rows(pre, query, n, s);
        let before = stack_service_rows(pre, query, n);
        let after = stack_service_rows(services, query, n);
        if stack_of(services.last(), query) == Some(n) {
            let id = service_id_of(services.last());
            assert(after.drop_last() == before);
            assert(after.last().0 == id);
            assert(row_ids(after) =~= row_ids(before).push(id));
            assert(row_ids(after).contains(s) <==> (row_ids(before).contains(s) || id == s)) by {
                if row_ids(after).contains(s) {
                    let j = choose|j: int| 0 <= j < row_ids(after).len() && row_ids(after)[j] == s;
                    if j < row_ids(before).len() {
                        assert(row_ids(before)[j] == s);
                    }
                }
                if row_ids(before).contains(s) {
                    let j = choose|j: int| 0 <= j < row_ids(before).len() && row_ids(before)[j] == s;
                    assert(row_ids(after)[j] == s);
                }
                if id == s {
                    assert(row_ids(after)[row_ids(before).len() as int] == s);
                }
            }
        }
    }
}

proof fn lemma_hits(
    rows: Seq<(Seq<char>, Seq<char>, u64, bool)>,
    tasks: Seq<TaskSummary>,
    t: TaskSummary,
    services: Seq<ServiceSummary>,
    query: Option<Seq<char>>,
    n: Seq<char>,
)
    ensures
        model_running(rows, tasks.push(t), services, query, n) == model_running(rows, tasks, services, query, n)
            + if task_stack(services, query, t) == Some(n) && task_running(t) {
            first_rows_with(rows, t.service_id.unwrap()@)
        } else {
            0nat
        },
    decreases rows.len(),
{
    if rows.len() > 0 {
        lemma_hits(rows.drop_last(), tasks, t, services, query, n);
        assert(tasks.push(t).drop_last() =~= tasks);
        assert(tasks.push(t).last() == t);
    }
}

proof fn lemma_model_running(
    rows: Seq<(Seq<char>, Seq<char>, u64, bool)>,
    tasks: Seq<TaskSummary>,
    services: Seq<ServiceSummary>,
    query: Option<Seq<char>>,
    n: Seq<char>,
)
    requires
        rows == stack_service_rows(services, query, n),
    ensures
        model_running(rows, tasks, services, query, n) == count_tasks(tasks, running_in_stack(services, query, n)),
    decreases tasks.len(),
{
    if tasks.len() == 0 {
        lemma_model_empty(rows, tasks, services, query, n);
    } else {
        let pre = tasks.drop_last();
        let t = tasks.last();
        lemma_model_running(rows, pre, services, query, n);
        assert(pre.push(t) =~= tasks);
        lemma_hits(rows, pre, t, services, query, n);
        if task_stack(services, query, t) == Some(n) && task_running(t) {
            let s = t.service_id.unwrap()@;
            lemma_first_rows(services, query, n, s);
        }
    }
}

proof fn lemma_model_empty(
    rows: Seq<(Seq<char>, Seq<char>, u64, bool)>,
    tasks: Seq<TaskSummary>,
    services: Seq<ServiceSummary>,
    query: Option<Seq<char>>,
    n: Seq<char>,
)
    requires
        tasks.len() == 0,
    ensures
        model_running(rows, tasks, services, query, n) == 0,
    decreases rows.len(),
{
    if rows.len() > 0 {
        lemma_model_empty(rows.drop_last(), tasks, services, query, n);
    }
}

proof fn lemma_answered_running(
    answered: Seq<StackServiceResponse>,
    rows: Seq<(Seq<char>, Seq<char>, u64, bool)>,
    tasks: Seq<TaskSummary>,
    services: Seq<ServiceSummary>,
    query: Option<Seq<char>>,
    n: Seq<char>,
)
    requires
        answered.len() == rows.len(),
        tasks.len() <= u64::MAX,
        forall|j: int|
            0 <= j < rows.len() ==> (#[trigger] answered[j]).running_replicas == if rows[j].3 {
                cap(count_tasks(tasks, running_for(services, query, n, rows[j].0)))
            } else {
                0
            },
    ensures
        services_running(answered) == model_running(rows, tasks, services, query, n),
    decreases rows.len(),
{
    if rows.len() > 0 {
        let k = rows.len() - 1;
        assert(answered[k] == answered.last());
        lemma_count_le(tasks, running_for(services, query, n, rows[k].0));
        assert forall|j: int| 0 <= j < rows.drop_last().len() implies (
        #[trigger] answered.drop_last()[j]).running_replicas == if rows.drop_last()[j].3 {
            cap(count_tasks(tasks, running_for(services, query, n, rows.drop_last()[j].0)))
        } else {
            0
        } by {
            assert(answered.drop_last()[j] == answered[j]);
            assert(rows.drop_last()[j] == rows[j]);
        }
        lemma_answered_running(answered.drop_last(), rows.drop_last(), tasks, services, query, n);
    }
}

/// Law of a stack's replicas: while the task count fits in a `u64`, the
/// stack's running replicas are the sum of its services' running
/// replicas: each running task of the stack is counted once, for the
/// first row of the service it runs for.
pub proof fn law_stack_running_is_sum_of_services(
    r: StackResponse,
    services: Seq<ServiceSummary>,
    tasks: Seq<TaskSummary>,
    query: Option<Seq<char>>,
    n: Seq<char>,
)
    requires
        shows_stack(r, services, tasks, query, n),
        tasks.len() <= u64::MAX,
    ensures
        r.running_replicas == services_running(r.services@),
{
    let rows = stack_service_rows(services, query, n);
    lemma_answered_running(r.services@, rows, tasks, services, query, n);
    lemma_model_running(rows, tasks, services, query, n);
    lemma_count_le(tasks, running_in_stack(services, query, n));
}

/// The stacks are ordered by their lower-cased names.
pub open spec fn sorted_by_lowercase(items: Seq<StackResponse>) -> bool {
    forall|a: int, b: int|
        0 <= a < b < items.len() ==> lex_le(lowercase(#[trigger] items[a].name@), lowercase(#[trigger] items[b].name@))
}

/// The stacks of the services whose stack label matches the query, each
/// with its services and tasks, ordered by lower-cased name.
pub fn aggregate_stacks(services: Vec<ServiceSummary>, tasks: Vec<TaskSummary>, query: Option<&str>) -> (r: Vec<StackResponse>)
    ensures
        r@.len() == stack_names(services@, query_view(query)).len(),
        forall|m: int|
            0 <= m < r@.len() ==> stack_names(services@, query_view(query)).contains(#[trigger] r@[m].name@),
        forall|m: int|
            0 <= m < r@.len() ==> shows_stack(#[trigger] r@[m], services@, tasks@, query_view(query), r@[m].name@),
        forall|a: int, b: int| 0 <= a < b < r@.len() ==> #[trigger] r@[a].name@ != #[trigger] r@[b].name@,
        sorted_by_lowercase(r@),
{
    let ghost qv = query_view(query);
    let stacks = service_stacks(&services, query);
    let names = collect_stack_names(&services, &stacks, Ghost(qv));
    let tstacks = task_stacks(&services, &stacks, &tasks, Ghost(qv));
    let ghost nm = stack_names(services@, qv);
    proof {
        lemma_stack_names_distinct(services@, qv);
    }
    let mut sorted: Vec<StackResponse> = Vec::new();
    let mut keys: Vec<Vec<char>> = Vec::new();
    let mut i: usize = 0;
    while i < names.len()
        invariant
            i <= names@.len(),
            names@.map_values(|s: String| s@) == nm,
            nm == stack_names(services@, qv),
            forall|a: int, b: int| 0 <= a < b < nm.len() ==> #[trigger] nm[a] != #[trigger] nm[b],
            stacks_of(stacks@, services@, qv),
            task_stacks_of(tstacks@, services@, tasks@, qv),
            sorted@.len() == i,
            keys@.len() == i,
            forall|m: int| 0 <= m < i ==> exists|k: int| 0 <= k < i && #[trigger] nm[k] == (#[trigger] sorted@[m]).name@,
            forall|m: int| 0 <= m < i ==> shows_stack(#[trigger] sorted@[m], services@, tasks@, qv, sorted@[m].name@),
            forall|m: int| 0 <= m < i ==> (#[trigger] keys@[m])@ == lowercase(sorted@[m].name@),
            forall|a: int, b: int| 0 <= a < b < i ==> #[trigger] sorted@[a].name@ != #[trigger] sorted@[b].name@,
            forall|a: int, b: int| 0 <= a < b < i ==> lex_le((#[trigger] keys@[a])@, (#[trigger] keys@[b])@),
        decreases names.len() - i,
    {
        assert(names@[i as int]@ == nm[i as int]);
        let stack = build_stack(&services, &stacks, &tasks, &tstacks, Ghost(qv), &names[i]);
        let low = to_lowercase(stack.name.as_str());
        let key = chars_of(low.as_str());
        let mut p: usize = 0;
        while p < keys.len() && chars_le(keys[p].as_slice(), key.as_slice())
            invariant
                p <= keys@.len(),
                forall|q: int| 0 <= q < p ==> lex_le((#[trigger] keys@[q])@, key@),
            decreases keys.len() - p,
        {
            p += 1;
        }
        let ghost old_sorted = sorted@;
        let ghost old_keys = keys@;
        let ghost x = stack;
        proof {
            if p < old_keys.len() {
                lemma_lex_total(old_keys[p as int]@, key@);
            }
            assert forall|m: int| p <= m < old_keys.len() implies lex_le(key@, (#[trigger] old_keys[m])@) by {
                if m > p {
                    lemma_lex_transitive(key@, old_keys[p as int]@, old_keys[m]@);
                }
            }
        }
        sorted.insert(p, stack);
        keys.insert(p, key);
        assert(sorted@ =~= old_sorted.insert(p as int, x));
        assert(keys@ =~= old_keys.insert(p as int, key));
        proof {
            assert forall|m: int| 0 <= m < i + 1 implies exists|k: int| 0 <= k < i + 1 && #[trigger] nm[k] == (#[trigger] sorted@[m]).name@ by {
                if m < p {
                    assert(sorted@[m] == old_sorted[m]);
                } else if m == p {
                    assert(nm[i as int] == sorted@[m].name@);
                } else {
                    assert(sorted@[m] == old_sorted[m - 1]);
                }
            }
            assert forall|a: int, b: int| 0 <= a < b < i + 1 implies #[trigger] sorted@[a].name@ != #[trigger] sorted@[b].name@ by {
                if a != p as int && b != p as int {
                    let a0 = if a < p { a } else { a - 1 };
                    let b0 = if b < p { b } else { b - 1 };
                    assert(sorted@[a] == old_sorted[a0]);
                    assert(sorted@[b] == old_sorted[b0]);
                } else if a == p as int {
                    let b0 = b - 1;
                    assert(sorted@[b] == old_sorted[b0]);
                    let k = choose|k: int| 0 <= k < i && #[trigger] nm[k] == old_sorted[b0].name@;
                    assert(nm[k] != nm[i as int]);
                } else {
                    assert(sorted@[a] == old_sorted[a]);
                    let k = choose|k: int| 0 <= k < i && #[trigger] nm[k] == old_sorted[a].name@;
                    assert(nm[k] != nm[i as int]);
                }
            }
            assert forall|a: int, b: int| 0 <= a < b < i + 1 implies lex_le((#[trigger] keys@[a])@, (#[trigger] keys@[b])@) by {
                if a != p as int && b != p as int {
                    let a0 = if a < p { a } else { a - 1 };
                    let b0 = if b < p { b } else { b - 1 };
                    assert(keys@[a] == old_keys[a0]);
                    assert(keys@[b] == old_keys[b0]);
                } else if a == p as int {
                    assert(keys@[b] == old_keys[b - 1]);
                } else {
                    assert(keys@[a] == old_keys[a]);
                }
            }
            assert forall|m: int| 0 <= m < i + 1 implies shows_stack(#[trigger] sorted@[m], services@, tasks@, qv, sorted@[m].name@) by {
                if m < p {
                    assert(sorted@[m] == old_sorted[m]);
                } else if m > p {
                    assert(sorted@[m] == old_sorted[m - 1]);
                }
            }
            assert forall|m: int| 0 <= m < i + 1 implies (#[trigger] keys@[m])@ == lowercase(sorted@[m].name@) by {
                if m < p {
                    assert(sorted@[m] == old_sorted[m]);
                    assert(keys@[m] == old_keys[m]);
                } else if m > p {
                    assert(sorted@[m] == old_sorted[m - 1]);
                    assert(keys@[m] == old_keys[m - 1]);
                }
            }
        }
        i += 1;
    }
    proof {
        assert forall|m: int| 0 <= m < sorted@.len() implies nm.contains(#[trigger] sorted@[m].name@) by {
            let k = choose|k: int| 0 <= k < i && #[trigger] nm[k] == sorted@[m].name@;
            assert(nm[k] == sorted@[m].name@);
        }
        assert forall|a: int, b: int| 0 <= a < b < sorted@.len() implies lex_le(lowercase(#[trigger] sorted@[a].name@), lowercase(#[trigger] sorted@[b].name@)) by {
            assert(keys@[a]@ == lowercase(sorted@[a].name@));
            assert(keys@[b]@ == lowercase(sorted@[b].name@));
        }
    }
    sorted
}


/// The listing off a swarm manager: unavailable, with the reason.
pub fn not_a_swarm_manager() -> (r: StackListResponse)
    ensures
        !r.available,
        opt_view(r.reason) == Some("当前 Docker 环境不是 Swarm manager"@),
        r.items@.len() == 0,
{
    StackListResponse { available: false, reason: Some("当前 Docker 环境不是 Swarm manager".to_owned()), items: Vec::new() }
}

/// The listing on a swarm manager: the aggregated stacks.
pub fn stack_listing(services: Vec<ServiceSummary>, tasks: Vec<TaskSummary>, query: Option<&str>) -> (r: StackListResponse)
    ensures
        r.available,
        r.reason is None,
        r.items@.len() == stack_names(services@, query_view(query)).len(),
        forall|m: int|
            0 <= m < r.items@.len() ==> stack_names(services@, query_view(query)).contains(#[trigger] r.items@[m].name@),
        forall|m: int|
            0 <= m < r.items@.len() ==> shows_stack(#[trigger] r.items@[m], services@, tasks@, query_view(query), r.items@[m].name@),
        forall|a: int, b: int| 0 <= a < b < r.items@.len() ==> #[trigger] r.items@[a].name@ != #[trigger] r.items@[b].name@,
        sorted_by_lowercase(r.items@),
{
    let items = aggregate_stacks(services, tasks, query);
    StackListResponse { available: true, reason: None, items }
}

/// The first listed stack named `name`, or 404 "Stack 不存在".
pub fn select_stack(list: StackListResponse, name: &str) -> (r: Result<StackResponse, ApiError>)
    ensures
        match r {
            Ok(s) => exists|m: int|
                0 <= m < list.items@.len() && list.items@[m] == s && s.name@ == name@ && forall|q: int|
                    0 <= q < m ==> (#[trigger] list.items@[q]).name@ != name@,
            Err(e) => e.is(STATUS_NOT_FOUND, "Stack 不存在"@) && forall|q: int|
                0 <= q < list.items@.len() ==> (#[trigger] list.items@[q]).name@ != name@,
        },
{
    let mut items = list.items;
    let ghost all = items@;
    let mut m: usize = 0;
    while m < items.len()
        invariant
            items@ == all,
            all == list.items@,
            m <= all.len(),
            forall|q: int| 0 <= q < m ==> (#[trigger] all[q]).name@ != name@,
        decreases items.len() - m,
    {
        if same_text(items[m].name.as_str(), name) {
            let s = items.remove(m);
            assert(s == all[m as int]);
            assert(list.items@[m as int] == s && s.name@ == name@);
            return Ok(s);
        }
        m += 1;
    }
    Err(ApiError::not_found("Stack 不存在".to_owned()))
}

} // verus!
