use std::collections::HashMap;

use dockrs::agent::ContainerAction;
use dockrs::docker::DockerError;
use dockrs::resources::{
    check_container_action, check_network_removable, container_response, image_response, map_docker_error,
    network_count, network_response, resource_target, validate_container_status, validate_filter,
    validate_optional_name, validate_options, validate_reference, validate_resource_name, volume_response,
    ContainerSummary, ImageSummary, NetworkSummary, PortSummary, ResourceTarget, VolumeSummary, MAX_FILTER_LENGTH,
};
use dockrs::tagged_map::TaggedMap;

#[test]
fn filter_values_are_trimmed_and_blank_values_are_ignored() {
    assert_eq!(validate_filter(Some("  nginx  ".to_owned())).unwrap(), Some("nginx".to_owned()));
    assert_eq!(validate_filter(Some("   ".to_owned())).unwrap(), None);
    assert!(validate_filter(Some("x".repeat(MAX_FILTER_LENGTH + 1))).is_err());
}

#[test]
fn optional_resource_names_and_options_are_validated() {
    assert_eq!(validate_optional_name(Some("  data  ".to_owned()), "卷").unwrap(), Some("data".to_owned()));
    assert_eq!(validate_optional_name(None, "卷").unwrap(), None);
    assert!(validate_optional_name(Some("bad\nname".to_owned()), "卷").is_err());

    let valid = HashMap::from([("type".to_owned(), "nfs".to_owned())]);
    assert_eq!(validate_options(Some(valid.clone())).unwrap(), Some(valid));

    let invalid = HashMap::from([(String::new(), "value".to_owned())]);
    assert!(validate_options(Some(invalid)).is_err());

    let too_many = (0..33).map(|index| (index.to_string(), "value".to_owned())).collect();
    assert!(validate_options(Some(too_many)).is_err());
}

#[test]
fn validation_errors_carry_their_messages() {
    let e = validate_filter(Some("x".repeat(129))).unwrap_err();
    assert_eq!(e.status, 422);
    assert_eq!(e.msg, "筛选条件过长");
    assert_eq!(validate_filter(Some("x".repeat(128))).unwrap().unwrap().len(), 128);
    let e = validate_resource_name(" ".to_owned(), "网络名称").unwrap_err();
    assert_eq!(e.status, 422);
    assert_eq!(e.msg, "网络名称无效");
    let once = validate_resource_name(" net ".to_owned(), "网络名称").unwrap();
    assert_eq!(once, "net");
    assert_eq!(validate_resource_name(once.clone(), "网络名称").unwrap(), once);
    let e = validate_options(Some(HashMap::from([("k".to_owned(), "a\u{7}b".to_owned())]))).unwrap_err();
    assert_eq!(e.msg, "资源选项无效");
    assert_eq!(validate_options(None).unwrap(), None);
    assert_eq!(validate_reference(" nginx:1.27 ".to_owned()).unwrap(), "nginx:1.27");
    assert_eq!(validate_reference("".to_owned()).unwrap_err().msg, "镜像引用无效");
    assert_eq!(validate_reference("x".repeat(257)).unwrap_err().msg, "镜像引用无效");
}

#[test]
fn a_kept_filter_is_kept_again() {
    let once = validate_filter(Some("  web  app ".to_owned())).unwrap().unwrap();
    assert_eq!(once, "web  app");
    assert_eq!(validate_filter(Some(once.clone())).unwrap(), Some(once));
}

#[test]
fn container_states_and_actions_are_checked() {
    assert_eq!(validate_container_status(Some(" running ".to_owned())).unwrap(), Some("running".to_owned()));
    assert_eq!(validate_container_status(None).unwrap(), None);
    assert_eq!(validate_container_status(Some("sleeping".to_owned())).unwrap_err().msg, "容器状态筛选条件无效");
    assert_eq!(check_container_action("pause").unwrap(), ContainerAction::Pause);
    assert_eq!(check_container_action("explode").unwrap_err().msg, "不支持的容器操作");
}

#[test]
fn engine_failures_become_api_errors() {
    assert_eq!(map_docker_error(DockerError::NotFound("x".to_owned())).status, 404);
    assert_eq!(map_docker_error(DockerError::Conflict("x".to_owned())).status, 409);
    let e = map_docker_error(DockerError::Connection("x".to_owned()));
    assert_eq!(e.status, 502);
    assert_eq!(e.msg, "Docker Engine 当前不可用");
}

#[test]
fn resource_targets_follow_the_stored_kind() {
    assert_eq!(resource_target(Some("local"), true).unwrap(), ResourceTarget::Local);
    assert_eq!(resource_target(Some("local"), false).unwrap_err().status, 502);
    assert_eq!(resource_target(Some("agent"), false).unwrap(), ResourceTarget::Agent);
    assert_eq!(resource_target(None, true).unwrap_err().msg, "环境不存在");
    assert_eq!(resource_target(Some("cloud"), true).unwrap_err().msg, "环境类型无效");
}

#[test]
fn containers_are_answered_with_names_ports_and_stack() {
    let c = ContainerSummary {
        id: Some("abc".to_owned()),
        names: Some(vec!["/web-1".to_owned(), "alias".to_owned()]),
        image: Some("nginx".to_owned()),
        state: None,
        status: Some("Up".to_owned()),
        created: Some(7),
        ports: Some(vec![
            PortSummary { private_port: 80, public_port: Some(8080), typ: None },
            PortSummary { private_port: 53, public_port: None, typ: Some("udp".to_owned()) },
        ]),
        labels: Some(vec![("com.docker.stack.namespace".to_owned(), "shop".to_owned())]),
    };
    let r = container_response(c);
    assert_eq!(r.id, "abc");
    assert_eq!(r.name, "web-1");
    assert_eq!(r.names, vec!["web-1".to_owned(), "alias".to_owned()]);
    assert_eq!(r.state, "unknown");
    assert_eq!(r.ports.len(), 2);
    assert_eq!(r.ports[0].protocol, "tcp");
    assert_eq!(r.ports[0].host_port, Some(8080));
    assert_eq!(r.ports[1].protocol, "udp");
    assert_eq!(r.stack.as_deref(), Some("shop"));

    let bare = ContainerSummary {
        id: None,
        names: None,
        image: None,
        state: Some("exited".to_owned()),
        status: None,
        created: None,
        ports: None,
        labels: None,
    };
    let r = container_response(bare);
    assert_eq!(r.id, "");
    assert_eq!(r.name, "");
    assert_eq!(r.state, "exited");
    assert_eq!(r.stack, None);
}

#[test]
fn images_are_answered_with_repository_and_dangling_flag() {
    let tagged = ImageSummary {
        id: "sha256:1".to_owned(),
        repo_tags: vec!["registry:5000/team/app:1.0".to_owned()],
        repo_digests: vec![],
        created: 1,
        size: 2,
        containers: 0,
    };
    let r = image_response(tagged);
    assert_eq!(r.repository.as_deref(), Some("registry:5000/team/app"));
    assert!(!r.dangling);
    let untagged = ImageSummary {
        id: "sha256:2".to_owned(),
        repo_tags: vec![],
        repo_digests: vec!["d".to_owned()],
        created: 1,
        size: 2,
        containers: -1,
    };
    let r = image_response(untagged);
    assert_eq!(r.repository, None);
    assert!(r.dangling);
    assert_eq!(r.digests, vec!["d".to_owned()]);
}

#[test]
fn volumes_report_only_known_usage() {
    let v = VolumeSummary {
        name: "data".to_owned(),
        driver: "local".to_owned(),
        scope: Some("local".to_owned()),
        mountpoint: "/var/lib/docker/volumes/data".to_owned(),
        labels: HashMap::new(),
        ref_count: Some(2),
    };
    assert_eq!(volume_response(v).usage_containers, Some(2));
    let v = VolumeSummary {
        name: "tmp".to_owned(),
        driver: "local".to_owned(),
        scope: None,
        mountpoint: "/tmp".to_owned(),
        labels: HashMap::new(),
        ref_count: Some(-1),
    };
    assert_eq!(volume_response(v).usage_containers, None);
}

#[test]
fn networks_are_answered_with_counts_and_system_flag() {
    let mut counts = TaggedMap::new();
    counts.insert("n1".to_owned(), 3u64, 0);
    counts.insert("bridge".to_owned(), 5u64, 0);
    let n = NetworkSummary {
        id: Some("n1".to_owned()),
        name: Some("backend".to_owned()),
        driver: Some("overlay".to_owned()),
        scope: None,
        labels: None,
        ipam_configs: Some(vec![(Some("10.0.0.0/24".to_owned()), Some("10.0.0.1".to_owned()))]),
    };
    let count = network_count(Some(&counts), &n.id, &n.name);
    assert_eq!(count, Some(3));
    let r = network_response(n, count);
    assert_eq!(r.subnet.as_deref(), Some("10.0.0.0/24"));
    assert_eq!(r.gateway.as_deref(), Some("10.0.0.1"));
    assert!(!r.system);
    let bridge_id = Some("zzz".to_owned());
    let bridge_name = Some("bridge".to_owned());
    assert_eq!(network_count(Some(&counts), &bridge_id, &bridge_name), Some(5));
    assert_eq!(network_count(None, &bridge_id, &bridge_name), None);
    let b = NetworkSummary { id: None, name: bridge_name, driver: None, scope: None, labels: None, ipam_configs: None };
    let r = network_response(b, None);
    assert_eq!(r.id, "bridge");
    assert!(r.system);
}

#[test]
fn system_networks_may_not_be_removed() {
    let networks = vec![
        NetworkSummary { id: Some("b1".to_owned()), name: Some("bridge".to_owned()), driver: None, scope: None, labels: None, ipam_configs: None },
        NetworkSummary { id: Some("n2".to_owned()), name: Some("app".to_owned()), driver: None, scope: None, labels: None, ipam_configs: None },
    ];
    let e = check_network_removable(&networks, "bridge").unwrap_err();
    assert_eq!(e.status, 409);
    assert_eq!(e.msg, "系统网络不可删除");
    assert!(check_network_removable(&networks, "b1").is_err());
    assert!(check_network_removable(&networks, "app").is_ok());
    assert!(check_network_removable(&networks, "host").is_ok());
}
