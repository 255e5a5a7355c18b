use dockrs::stacks::{
    aggregate_stacks, desired_replicas, not_a_swarm_manager, select_stack, service_stack, stack_listing, ServiceMode,
    ServiceSpecSummary, ServiceSummary, TaskState, TaskStatusSummary, TaskSummary,
};

fn service(id: &str, name: Option<&str>, stack: Option<&str>, replicas: Option<i64>) -> ServiceSummary {
    ServiceSummary {
        id: Some(id.to_owned()),
        spec: Some(ServiceSpecSummary {
            name: name.map(str::to_owned),
            labels: stack.map(|s| vec![("com.docker.stack.namespace".to_owned(), s.to_owned())]),
            mode: Some(ServiceMode { replicas, total_completions: None }),
        }),
        desired_tasks: None,
    }
}

fn task(id: &str, service_id: &str, state: TaskState, err: Option<&str>) -> TaskSummary {
    TaskSummary {
        id: Some(id.to_owned()),
        name: Some(format!("{service_id}.{id}")),
        service_id: Some(service_id.to_owned()),
        status: Some(TaskStatusSummary {
            state: Some(state),
            err: err.map(str::to_owned),
            container_id: Some(format!("c-{id}")),
        }),
    }
}

#[test]
fn desired_replicas_prefer_the_service_status() {
    let mut s = service("s1", None, None, Some(3));
    assert_eq!(desired_replicas(&s), 3);
    s.desired_tasks = Some(5);
    assert_eq!(desired_replicas(&s), 5);
    let negative = service("s2", None, None, Some(-2));
    assert_eq!(desired_replicas(&negative), 0);
    let job = ServiceSummary {
        id: None,
        spec: Some(ServiceSpecSummary {
            name: None,
            labels: None,
            mode: Some(ServiceMode { replicas: None, total_completions: Some(4) }),
        }),
        desired_tasks: None,
    };
    assert_eq!(desired_replicas(&job), 4);
    let bare = ServiceSummary { id: None, spec: None, desired_tasks: None };
    assert_eq!(desired_replicas(&bare), 0);
}

#[test]
fn services_belong_to_the_stack_in_their_label() {
    let s = service("s1", Some("shop_web"), Some("Shop"), Some(1));
    assert_eq!(service_stack(&s, None), Some("Shop".to_owned()));
    assert_eq!(service_stack(&s, Some("sho")), Some("Shop".to_owned()));
    assert_eq!(service_stack(&s, Some("blog")), None);
    let unlabelled = service("s2", None, None, Some(1));
    assert_eq!(service_stack(&unlabelled, None), None);
}

#[test]
fn stacks_are_aggregated_and_sorted_by_name() {
    let services = vec![
        service("w", Some("web"), Some("shop"), Some(2)),
        service("d", Some("db"), Some("shop"), Some(1)),
        service("b", None, Some("Blog"), Some(1)),
        service("x", Some("loose"), None, Some(1)),
    ];
    let tasks = vec![
        task("t1", "w", TaskState::Running, None),
        task("t2", "w", TaskState::Running, None),
        task("t3", "d", TaskState::Pending, None),
        task("t4", "b", TaskState::Running, None),
        task("t5", "x", TaskState::Running, None),
    ];
    let stacks = aggregate_stacks(services, tasks, None);
    assert_eq!(stacks.len(), 2);
    assert_eq!(stacks[0].name, "Blog");
    assert_eq!(stacks[1].name, "shop");

    let blog = &stacks[0];
    assert_eq!(blog.status, "running");
    assert_eq!(blog.service_count, 1);
    assert_eq!(blog.services[0].name, "b");
    assert_eq!(blog.services[0].running_replicas, 1);

    let shop = &stacks[1];
    assert_eq!(shop.service_count, 2);
    assert_eq!(shop.desired_replicas, 3);
    assert_eq!(shop.running_replicas, 2);
    assert_eq!(shop.failed_tasks, 0);
    assert_eq!(shop.status, "pending");
    assert_eq!(shop.services[0].id, "w");
    assert_eq!(shop.services[0].running_replicas, 2);
    assert_eq!(shop.services[1].running_replicas, 0);
    assert_eq!(shop.tasks.len(), 3);
    assert_eq!(shop.tasks[2].state.as_deref(), Some("pending"));
    assert_eq!(shop.tasks[0].container_id.as_deref(), Some("c-t1"));
}

#[test]
fn a_failed_task_degrades_its_stack() {
    let services = vec![service("a", Some("api"), Some("api"), Some(1))];
    let tasks = vec![
        task("t1", "a", TaskState::Running, None),
        task("t2", "a", TaskState::Shutdown, Some("exit 1")),
        task("t3", "a", TaskState::Rejected, None),
    ];
    let stacks = aggregate_stacks(services, tasks, None);
    assert_eq!(stacks.len(), 1);
    assert_eq!(stacks[0].failed_tasks, 2);
    assert_eq!(stacks[0].status, "degraded");
    assert_eq!(stacks[0].tasks[1].error.as_deref(), Some("exit 1"));
}

#[test]
fn the_query_selects_stacks_ignoring_case() {
    let services = vec![
        service("a", None, Some("Payments"), Some(1)),
        service("b", None, Some("blog"), Some(1)),
    ];
    let listing = stack_listing(services, vec![], Some("PAY"));
    assert!(listing.available);
    assert_eq!(listing.items.len(), 1);
    assert_eq!(listing.items[0].name, "Payments");
    assert_eq!(listing.items[0].status, "pending");
}

#[test]
fn stacks_are_looked_up_by_exact_name() {
    let services = vec![service("a", None, Some("app"), Some(0)), service("b", None, Some("app2"), Some(0))];
    let listing = stack_listing(services, vec![], Some("app"));
    assert_eq!(listing.items.len(), 2);
    let found = select_stack(listing, "app").unwrap();
    assert_eq!(found.name, "app");
    assert_eq!(found.status, "running");
    let listing = stack_listing(vec![service("a", None, Some("app"), Some(0))], vec![], None);
    let e = select_stack(listing, "other").unwrap_err();
    assert_eq!(e.status, 404);
    assert_eq!(e.msg, "Stack 不存在");
    let off = not_a_swarm_manager();
    assert!(!off.available);
    assert_eq!(off.reason.as_deref(), Some("当前 Docker 环境不是 Swarm manager"));
    assert!(select_stack(off, "app").is_err());
}

#[test]
fn a_service_id_listed_twice_counts_its_tasks_once() {
    let services = vec![service("dup", Some("one"), Some("s"), Some(1)), service("dup", Some("two"), Some("s"), Some(1))];
    let tasks = vec![task("t1", "dup", TaskState::Running, None)];
    let stacks = aggregate_stacks(services, tasks, None);
    assert_eq!(stacks[0].service_count, 2);
    assert_eq!(stacks[0].services[0].running_replicas, 1);
    assert_eq!(stacks[0].services[1].running_replicas, 0);
    assert_eq!(stacks[0].running_replicas, 1);
}
