use dockrs::environments::EnvironmentKind;
use dockrs::error::ApiError;
use dockrs::overview::{
    container_counts, count_result, overview_resources, stack_count, unavailable_overview, unreachable_message,
};
use dockrs::resources::ContainerSummary;
use dockrs::stacks::{not_a_swarm_manager, stack_listing, ServiceSpecSummary, ServiceSummary};

fn container(state: Option<&str>) -> ContainerSummary {
    ContainerSummary {
        id: Some("c".to_owned()),
        names: None,
        image: None,
        state: state.map(str::to_owned),
        status: None,
        created: None,
        ports: None,
        labels: None,
    }
}

fn labelled(stack: &str) -> ServiceSummary {
    ServiceSummary {
        id: Some(stack.to_owned()),
        spec: Some(ServiceSpecSummary {
            name: None,
            labels: Some(vec![("com.docker.stack.namespace".to_owned(), stack.to_owned())]),
            mode: None,
        }),
        desired_tasks: None,
    }
}

#[test]
fn containers_are_counted_by_state() {
    let cs = vec![
        container(Some("running")),
        container(Some("paused")),
        container(Some("exited")),
        container(None),
        container(Some("running")),
    ];
    let c = container_counts(Ok(cs));
    assert_eq!(c.total, Some(5));
    assert_eq!(c.running, Some(2));
    assert_eq!(c.paused, Some(1));
    assert_eq!(c.stopped, Some(2));
    assert_eq!(c.running.unwrap() + c.paused.unwrap() + c.stopped.unwrap(), c.total.unwrap());
    let failed = container_counts(Err(ApiError::bad_gateway("x".to_owned())));
    assert_eq!(failed.total, None);
    assert_eq!(failed.error.as_deref(), Some("Docker 资源暂不可用"));
}

#[test]
fn listings_are_counted_or_reported_missing() {
    let ok = count_result::<u8>(Ok(vec![1, 2, 3]));
    assert_eq!(ok.total, Some(3));
    assert_eq!(ok.active, None);
    assert_eq!(ok.error, None);
    let err = count_result::<u8>(Err(ApiError::internal("boom".to_owned())));
    assert_eq!(err.total, None);
    assert_eq!(err.error.as_deref(), Some("Docker 资源暂不可用"));
}

#[test]
fn stacks_count_their_running_ones() {
    let listing = stack_listing(vec![labelled("a"), labelled("b")], vec![], None);
    let c = stack_count(Ok(listing));
    assert_eq!(c.total, Some(2));
    assert_eq!(c.active, Some(2));
    let c = stack_count(Ok(not_a_swarm_manager()));
    assert_eq!(c.total, None);
    assert_eq!(c.error.as_deref(), Some("当前 Docker 环境不是 Swarm manager"));
    let c = stack_count(Err(ApiError::internal("x".to_owned())));
    assert_eq!(c.error.as_deref(), Some("Docker 资源暂不可用"));
}

#[test]
fn the_overview_gathers_every_count() {
    let r = overview_resources::<u8, u8, u8>(
        Ok(not_a_swarm_manager()),
        Ok(vec![container(Some("running"))]),
        Ok(vec![1, 2]),
        Err(ApiError::internal("x".to_owned())),
        Ok(vec![]),
    );
    assert_eq!(r.containers.running, Some(1));
    assert_eq!(r.images.total, Some(2));
    assert_eq!(r.volumes.error.as_deref(), Some("Docker 资源暂不可用"));
    assert_eq!(r.networks.total, Some(0));
    assert_eq!(r.stacks.total, None);
}

#[test]
fn an_unreachable_environment_has_no_counts() {
    assert_eq!(unreachable_message(EnvironmentKind::Agent), "远程 Agent 当前不可用");
    assert_eq!(unreachable_message(EnvironmentKind::Local), "Docker Engine 当前不可用");
    let r = unavailable_overview("远程 Agent 当前不可用");
    assert_eq!(r.stacks.error.as_deref(), Some("远程 Agent 当前不可用"));
    assert_eq!(r.containers.error.as_deref(), Some("远程 Agent 当前不可用"));
    assert_eq!(r.containers.total, None);
    assert_eq!(r.networks.total, None);
}
