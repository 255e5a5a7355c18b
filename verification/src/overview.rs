//! The dashboard summary of an environment: how many stacks, containers,
//! images, volumes and networks it holds, or why a count is missing.

use vstd::prelude::*;

use crate::environments::{EnvironmentKind, EnvironmentResponse};
use crate::error::ApiError;
use crate::resources::ContainerSummary;
use crate::stacks::{StackListResponse, StackResponse};
use crate::text::{opt_view, same_text};

verus! {

/// A resource count, or the reason it is missing.
#[derive(Debug)]
pub struct ResourceCountResponse {
    pub total: Option<u64>,
    pub active: Option<u64>,
    pub error: Option<String>,
}

/// The containers by state, or the reason they are missing.
#[derive(Debug)]
pub struct ContainerCountOverview {
    pub total: Option<u64>,
    pub running: Option<u64>,
    pub paused: Option<u64>,
    pub stopped: Option<u64>,
    pub error: Option<String>,
}

/// The counts of every kind of resource.
#[derive(Debug)]
pub struct OverviewResources {
    pub stacks: ResourceCountResponse,
    pub containers: ContainerCountOverview,
    pub images: ResourceCountResponse,
    pub volumes: ResourceCountResponse,
    pub networks: ResourceCountResponse,
}

/// An environment with its resource counts.
#[derive(Debug)]
pub struct EnvironmentOverviewResponse {
    pub environment: EnvironmentResponse,
    pub resources: OverviewResources,
}

/// The message of every count that the engine could not give.
pub open spec fn unavailable_resources() -> Seq<char> {
    "Docker 资源暂不可用"@
}

/// A container is in state `s`.
pub open spec fn in_state(c: ContainerSummary, s: Seq<char>) -> bool {
    opt_view(c.state) == Some(s)
}

/// A container is neither running nor paused.
pub open spec fn stopped(c: ContainerSummary) -> bool {
    !in_state(c, "running"@) && !in_state(c, "paused"@)
}

/// How many of the containers satisfy `p`.
pub open spec fn count_containers(cs: Seq<ContainerSummary>, p: spec_fn(ContainerSummary) -> bool) -> nat
    decreases cs.len(),
{
    if cs.len() == 0 {
        0
    } else {
        count_containers(cs.drop_last(), p) + if p(cs.last()) { 1nat } else { 0nat }
    }
}

/// How many stacks have status `running`.
pub open spec fn count_running_stacks(items: Seq<StackResponse>) -> nat
    decreases items.len(),
{
    if items.len() == 0 {
        0
    } else {
        count_running_stacks(items.drop_last()) + if items.last().status@ == "running"@ { 1nat } else { 0nat }
    }
}

/// Law of the stack count: the running stacks are exactly the listed
/// stacks whose status is `running`; a `pending` or `degraded` stack never
/// counts, and no more stacks run than are listed.
pub proof fn law_running_stacks_are_those_running(items: Seq<StackResponse>)
    ensures
        count_running_stacks(items) == items.filter(|s: StackResponse| s.status@ == "running"@).len(),
        count_running_stacks(items) <= items.len(),
        (forall|i: int| 0 <= i < items.len() ==> (#[trigger] items[i]).status@ != "running"@) ==> count_running_stacks(
            items,
        ) == 0,
        (forall|i: int| 0 <= i < items.len() ==> (#[trigger] items[i]).status@ == "running"@) ==> count_running_stacks(
            items,
        ) == items.len(),
    decreases items.len(),
{
    reveal(Seq::filter);
    if items.len() > 0 {
        law_running_stacks_are_those_running(items.drop_last());
        assert(items.drop_last().push(items.last()) =~= items);
        items.drop_last().lemma_filter_push(items.last(), |s: StackResponse| s.status@ == "running"@);
        if forall|i: int| 0 <= i < items.len() ==> (#[trigger] items[i]).status@ != "running"@ {
            assert(items[items.len() - 1].status@ != "running"@);
            assert forall|i: int| 0 <= i < items.drop_last().len() implies (#[trigger] items.drop_last()[i]).status@
                != "running"@ by {
                assert(items.drop_last()[i] == items[i]);
            }
        }
        if forall|i: int| 0 <= i < items.len() ==> (#[trigger] items[i]).status@ == "running"@ {
            assert(items[items.len() - 1].status@ == "running"@);
            assert forall|i: int| 0 <= i < items.drop_last().len() implies (#[trigger] items.drop_last()[i]).status@
                == "running"@ by {
                assert(items.drop_last()[i] == items[i]);
            }
        }
    }
}

/// Every container is counted once: running, paused or stopped.
pub proof fn law_container_states_partition(cs: Seq<ContainerSummary>)
    ensures
        count_containers(cs, |c: ContainerSummary| in_state(c, "running"@)) + count_containers(
            cs,
            |c: ContainerSummary| in_state(c, "paused"@),
        ) + count_containers(cs, |c: ContainerSummary| stopped(c)) == cs.len(),
    decreases cs.len(),
{
    if cs.len() > 0 {
        law_container_states_partition(cs.drop_last());
        reveal_strlit("running");
        reveal_strlit("paused");
        assert("running"@ != "paused"@) by {
            assert("running"@[0] != "paused"@[0]);
        }
    }
}

/// The count of a listing: its length, or the unavailable message.
pub fn count_result<T>(result: Result<Vec<T>, ApiError>) -> (r: ResourceCountResponse)
    ensures
        r.active is None,
        match result {
            Ok(items) => r.total == Some(items@.len() as u64) && r.error is None,
            Err(_) => r.total is None && opt_view(r.error) == Some(unavailable_resources()),
        },
{
    match result {
        Ok(items) => ResourceCountResponse { total: Some(items.len() as u64), active: None, error: None },
        Err(error) => resource_error(error),
    }
}

/// A count that the engine could not give.
pub fn resource_error(_error: ApiError) -> (r: ResourceCountResponse)
    ensures
        r.total is None,
        r.active is None,
        opt_view(r.error) == Some(unavailable_resources()),
{
    ResourceCountResponse { total: None, active: None, error: Some(resource_error_message()) }
}

/// The message of a count that the engine could not give.
pub fn resource_error_message() -> (r: String)
    ensures
        r@ == unavailable_resources(),
{
    "Docker 资源暂不可用".to_owned()
}

/// The stack count: how many stacks and how many of them run; off a swarm
/// manager the listing's reason; on failure the unavailable message.
pub fn stack_count(result: Result<StackListResponse, ApiError>) -> (r: ResourceCountResponse)
    ensures
        match result {
            Ok(list) => if list.available {
                &&& r.total == Some(list.items@.len() as u64)
                &&& r.active == Some(count_running_stacks(list.items@) as u64)
                &&& r.active == Some(list.items@.filter(|s: StackResponse| s.status@ == "running"@).len() as u64)
                &&& r.error is None
            } else {
                r.total is None && r.active is None && opt_view(r.error) == opt_view(list.reason)
            },
            Err(_) => r.total is None && r.active is None && opt_view(r.error) == Some(unavailable_resources()),
        },
{
    proof {
        if result is Ok {
            law_running_stacks_are_those_running(result->Ok_0.items@);
        }
    }
    match result {
        Ok(list) => {
            if list.available {
                let mut active: u64 = 0;
                let mut i: usize = 0;
                assert(list.items@.take(0) =~= Seq::<StackResponse>::empty());
                while i < list.items.len()
                    invariant
                        i <= list.items@.len(),
                        active == count_running_stacks(list.items@.take(i as int)),
                        active <= i,
                    decreases list.items.len() - i,
                {
                    assert(list.items@.take(i + 1).drop_last() =~= list.items@.take(i as int));
                    if same_text(list.items[i].status.as_str(), "running") {
                        active = active + 1;
                    }
                    i += 1;
                }
                assert(list.items@.take(list.items@.len() as int) =~= list.items@);
                ResourceCountResponse { total: Some(list.items.len() as u64), active: Some(active), error: None }
            } else {
                ResourceCountResponse { total: None, active: None, error: list.reason }
            }
        },
        Err(error) => resource_error(error),
    }
}

/// The container count by state: running, paused, and any other state
/// (or none) as stopped; on failure the unavailable message.
pub fn container_counts(result: Result<Vec<ContainerSummary>, ApiError>) -> (r: ContainerCountOverview)
    ensures
        match result {
            Ok(cs) => {
                &&& r.total == Some(cs@.len() as u64)
                &&& r.running == Some(count_containers(cs@, |c: ContainerSummary| in_state(c, "running"@)) as u64)
                &&& r.paused == Some(count_containers(cs@, |c: ContainerSummary| in_state(c, "paused"@)) as u64)
                &&& r.stopped == Some(count_containers(cs@, |c: ContainerSummary| stopped(c)) as u64)
                &&& r.error is None
            },
            Err(_) => {
                &&& r.total is None && r.running is None && r.paused is None && r.stopped is None
                &&& opt_view(r.error) == Some(unavailable_resources())
            },
        },
{
    match result {
        Ok(cs) => {
            let ghost pr = |c: ContainerSummary| in_state(c, "running"@);
            let ghost pp = |c: ContainerSummary| in_state(c, "paused"@);
            let ghost ps = |c: ContainerSummary| stopped(c);
            let mut running: u64 = 0;
            let mut paused: u64 = 0;
            let mut stopped_count: u64 = 0;
            let mut i: usize = 0;
            assert(cs@.take(0) =~= Seq::<ContainerSummary>::empty());
            while i < cs.len()
                invariant
                    i <= cs@.len(),
                    pr == (|c: ContainerSummary| in_state(c, "running"@)),
                    pp == (|c: ContainerSummary| in_state(c, "paused"@)),
                    ps == (|c: ContainerSummary| stopped(c)),
                    running == count_containers(cs@.take(i as int), pr),
                    paused == count_containers(cs@.take(i as int), pp),
                    stopped_count == count_containers(cs@.take(i as int), ps),
                    running <= i,
                    paused <= i,
                    stopped_count <= i,
                decreases cs.len() - i,
            {
                assert(cs@.take(i + 1).drop_last() =~= cs@.take(i as int));
                assert(cs@.take(i + 1).last() == cs@[i as int]);
                proof {
                    reveal_strlit("running");
                    reveal_strlit("paused");
                    assert("running"@[0] != "paused"@[0]);
                }
                let state = &cs[i].state;
                let is_running = match state {
                    Some(s) => same_text(s.as_str(), "running"),
                    None => false,
                };
                let is_paused = match state {
                    Some(s) => same_text(s.as_str(), "paused"),
                    None => false,
                };
                if is_running {
                    running = running + 1;
                } else if is_paused {
                    paused = paused + 1;
                } else {
                    stopped_count = stopped_count + 1;
                }
                i += 1;
            }
            assert(cs@.take(cs@.len() as int) =~= cs@);
            ContainerCountOverview {
                total: Some(cs.len() as u64),
                running: Some(running),
                paused: Some(paused),
                stopped: Some(stopped_count),
                error: None,
            }
        },
        Err(_error) => ContainerCountOverview {
            total: None,
            running: None,
            paused: None,
            stopped: None,
            error: Some(resource_error_message()),
        },
    }
}

/// The counts of every kind of resource from what each listing gave.
pub fn overview_resources<I, V, N>(
    stacks: Result<StackListResponse, ApiError>,
    containers: Result<Vec<ContainerSummary>, ApiError>,
    images: Result<Vec<I>, ApiError>,
    volumes: Result<Vec<V>, ApiError>,
    networks: Result<Vec<N>, ApiError>,
) -> (r: OverviewResources)
    ensures
        match stacks {
            Ok(list) => if list.available {
                &&& r.stacks.total == Some(list.items@.len() as u64)
                &&& r.stacks.active == Some(count_running_stacks(list.items@) as u64)
                &&& r.stacks.error is None
            } else {
                r.stacks.total is None && r.stacks.active is None && opt_view(r.stacks.error) == opt_view(list.reason)
            },
            Err(_) => r.stacks.total is None && r.stacks.active is None && opt_view(r.stacks.error) == Some(
                unavailable_resources(),
            ),
        },
        match containers {
            Ok(cs) => {
                &&& r.containers.total == Some(cs@.len() as u64)
                &&& r.containers.running == Some(count_containers(cs@, |c: ContainerSummary| in_state(c, "running"@)) as u64)
                &&& r.containers.paused == Some(count_containers(cs@, |c: ContainerSummary| in_state(c, "paused"@)) as u64)
                &&& r.containers.stopped == Some(count_containers(cs@, |c: ContainerSummary| stopped(c)) as u64)
                &&& r.containers.error is None
            },
            Err(_) => {
                &&& r.containers.total is None && r.containers.running is None
                &&& r.containers.paused is None && r.containers.stopped is None
                &&& opt_view(r.containers.error) == Some(unavailable_resources())
            },
        },
        match images {
            Ok(items) => r.images.total == Some(items@.len() as u64) && r.images.error is None,
            Err(_) => r.images.total is None && opt_view(r.images.error) == Some(unavailable_resources()),
        },
        match volumes {
            Ok(items) => r.volumes.total == Some(items@.len() as u64) && r.volumes.error is None,
            Err(_) => r.volumes.total is None && opt_view(r.volumes.error) == Some(unavailable_resources()),
        },
        match networks {
            Ok(items) => r.networks.total == Some(items@.len() as u64) && r.networks.error is None,
            Err(_) => r.networks.total is None && opt_view(r.networks.error) == Some(unavailable_resources()),
        },
        r.images.active is None,
        r.volumes.active is None,
        r.networks.active is None,
{
    OverviewResources {
        stacks: stack_count(stacks),
        containers: container_counts(containers),
        images: count_result(images),
        volumes: count_result(volumes),
        networks: count_result(networks),
    }
}

/// Why the resources of an environment cannot be reached.
pub fn unreachable_message(kind: EnvironmentKind) -> (r: String)
    ensures
        r@ == if kind == EnvironmentKind::Agent {
            "远程 Agent 当前不可用"@
        } else {
            "Docker Engine 当前不可用"@
        },
{
    match kind {
        EnvironmentKind::Agent => "远程 Agent 当前不可用".to_owned(),
        EnvironmentKind::Local => "Docker Engine 当前不可用".to_owned(),
    }
}

/// A count missing for `message`.
pub open spec fn missing(r: ResourceCountResponse, message: Seq<char>) -> bool {
    r.total is None && r.active is None && opt_view(r.error) == Some(message)
}

fn missing_count(message: &str) -> (r: ResourceCountResponse)
    ensures
        missing(r, message@),
{
    ResourceCountResponse { total: None, active: None, error: Some(message.to_owned()) }
}

/// Every count missing, each with the given message.
pub fn unavailable_overview(message: &str) -> (r: OverviewResources)
    ensures
        missing(r.stacks, message@),
        missing(r.images, message@),
        missing(r.volumes, message@),
        missing(r.networks, message@),
        r.containers.total is None && r.containers.running is None,
        r.containers.paused is None && r.containers.stopped is None,
        opt_view(r.containers.error) == Some(message@),
{
    OverviewResources {
        stacks: missing_count(message),
        containers: ContainerCountOverview {
            total: None,
            running: None,
            paused: None,
            stopped: None,
            error: Some(message.to_owned()),
        },
        images: missing_count(message),
        volumes: missing_count(message),
        networks: missing_count(message),
    }
}

} // verus!
