use dockrs::snapshot::cached_snapshot_fresh;
use dockrs::docker::{
    check_docker_host, container_matches, docker_failure, filter_value, image_matches, network_container_counts,
    swarm_manager, version_or_error, DockerError,
};
use dockrs::snapshot::{
    counts_from_info, cpu_percent_defined, cpu_sample, docker_info, memory_sample, memory_used_bytes, non_negative,
    plan_snapshot, tally_stats, trim_cpu_samples, unix_seconds, CollectionTally, ContainerStats, CpuReading, CpuSample,
    CpuShare, MAX_CPU_SAMPLES,
};
use dockrs::tagged_map::TaggedMap;
use dockrs::StringHashMap;

fn stats_map(pairs: &[(&str, u64)]) -> StringHashMap<u64> {
    let mut m = StringHashMap::new();
    for (k, v) in pairs {
        m.insert((*k).to_owned(), *v);
    }
    m
}

fn stats(total: u64, system: u64, cpus: Option<u32>, memory: Option<u64>) -> ContainerStats {
    ContainerStats {
        total_usage: Some(total),
        system_usage: Some(system),
        online_cpus: cpus,
        memory_usage: memory,
        memory_stats: None,
    }
}

#[test]
fn memory_usage_subtracts_the_preferred_cache_metric() {
    let stats = stats_map(&[("total_inactive_file", 40), ("inactive_file", 80), ("cache", 90)]);

    assert_eq!(memory_used_bytes(100, &stats), 60);
    assert_eq!(memory_used_bytes(100, &StringHashMap::new()), 100);
    assert_eq!(memory_used_bytes(10, &stats_map(&[("cache", 20)])), 0);
}

#[test]
fn cpu_percent_is_undefined_for_zero_denominators() {
    assert!(!cpu_percent_defined(0, 1, 1));
    assert!(!cpu_percent_defined(1, 0, 1));
    assert!(!cpu_percent_defined(1, 1, 0));
    assert!(cpu_percent_defined(4, 2, 2));
}

#[test]
fn engine_counts_are_read_as_non_negative() {
    assert_eq!(non_negative(Some(-3)), 0);
    assert_eq!(non_negative(None), 0);
    assert_eq!(non_negative(Some(9)), 9);
    let info = docker_info(Some(5), Some(3), Some(-1), Some(2), Some(8), Some(-7));
    assert_eq!(info.paused_containers, 0);
    assert_eq!(info.cpu_count, 8);
    assert_eq!(info.total_memory_bytes, None);
    let counts = counts_from_info(&info);
    assert_eq!((counts.total, counts.running, counts.paused, counts.stopped), (5, 3, 0, 2));
}

#[test]
fn readings_fall_back_to_the_engine_cpu_count() {
    assert_eq!(cpu_sample(&stats(10, 20, Some(0), None), 4).unwrap().online_cpus, 4);
    assert_eq!(cpu_sample(&stats(10, 20, Some(2), None), 4).unwrap().online_cpus, 2);
    let missing = ContainerStats { total_usage: None, system_usage: Some(1), online_cpus: None, memory_usage: None, memory_stats: None };
    assert!(cpu_sample(&missing, 4).is_none());
    let with_cache = ContainerStats {
        total_usage: None,
        system_usage: None,
        online_cpus: None,
        memory_usage: Some(100),
        memory_stats: Some(stats_map(&[("inactive_file", 30)])),
    };
    assert_eq!(memory_sample(&with_cache), Some(70));
    assert_eq!(memory_sample(&stats(1, 1, None, Some(50))), Some(50));
    assert_eq!(memory_sample(&stats(1, 1, None, None)), None);
}

#[test]
fn a_collection_compares_against_the_previous_readings() {
    let mut samples = TaggedMap::new();
    let first = vec![("a".to_owned(), Some(stats(100, 1_000, Some(2), Some(10)))), ("b".to_owned(), None)];
    let t = tally_stats(&mut samples, &first, 2, 1);
    assert!(t.shares.is_empty());
    assert_eq!(t.memory_used, 10);
    assert_eq!(t.memory_samples, 1);
    assert_eq!(t.failed, vec!["b".to_owned()]);
    assert_eq!(samples.len(), 1);

    let second = vec![("a".to_owned(), Some(stats(150, 1_400, Some(2), Some(20))))];
    let t = tally_stats(&mut samples, &second, 2, 2);
    assert_eq!(t.shares, vec![CpuShare { cpu_delta: 50, system_delta: 400, online_cpus: 2, engine_cpus: 2 }]);
    assert_eq!(t.memory_used, 20);
    assert!(t.failed.is_empty());
    assert_eq!(samples.get("a"), Some(&CpuSample { total_usage: 150, system_usage: 1_400, online_cpus: 2 }));

    let backwards = vec![("a".to_owned(), Some(stats(10, 1_500, Some(2), None)))];
    let t = tally_stats(&mut samples, &backwards, 2, 3);
    assert!(t.shares.is_empty());
    assert_eq!(t.failed, vec!["a".to_owned()]);
}

#[test]
fn old_cpu_readings_are_trimmed() {
    let mut samples = TaggedMap::new();
    for i in 0..(MAX_CPU_SAMPLES as u64 + 2) {
        samples.insert(format!("c{i}"), CpuSample { total_usage: i, system_usage: i, online_cpus: 1 }, i);
    }
    trim_cpu_samples(&mut samples);
    assert_eq!(samples.len(), MAX_CPU_SAMPLES);
    assert!(samples.get("c0").is_none());
    assert!(samples.get("c1").is_none());
    assert!(samples.get("c2").is_some());
}

#[test]
fn snapshot_plans_follow_what_was_collected() {
    let info = docker_info(Some(3), Some(2), Some(0), Some(1), Some(4), Some(1_000));
    let idle = plan_snapshot(&info, 0, CollectionTally { shares: vec![], memory_used: 5, memory_samples: 0, failed: vec![] });
    assert!(matches!(idle.cpu, CpuReading::Idle));
    assert_eq!(idle.memory.map(|m| m.used_bytes), Some(0));
    assert_eq!(idle.metrics_error, None);

    let share = CpuShare { cpu_delta: 1, system_delta: 4, online_cpus: 2, engine_cpus: 2 };
    let busy = plan_snapshot(
        &info,
        2,
        CollectionTally { shares: vec![share], memory_used: 300, memory_samples: 1, failed: vec!["x".to_owned(), "y".to_owned()] },
    );
    assert!(matches!(busy.cpu, CpuReading::Shares(ref v) if v.len() == 1));
    assert_eq!(busy.memory.map(|m| (m.used_bytes, m.total_bytes)), Some((300, 1_000)));
    assert_eq!(busy.metrics_error.as_deref(), Some("2 个运行中容器的指标暂不可用"));

    let blind = plan_snapshot(&info, 2, CollectionTally { shares: vec![], memory_used: 0, memory_samples: 0, failed: vec![] });
    assert!(matches!(blind.cpu, CpuReading::Unavailable));
    assert_eq!(blind.memory, None);
}

#[test]
fn clock_readings_are_capped() {
    assert_eq!(unix_seconds(None), 0);
    assert_eq!(unix_seconds(Some(42)), 42);
    assert_eq!(unix_seconds(Some(u64::MAX)), i64::MAX);
}

#[test]
fn engine_failures_are_classified_by_status() {
    assert!(matches!(docker_failure("删除容器失败", Some(404), "no such", "d"), DockerError::NotFound(m) if m == "删除容器失败: no such"));
    assert!(matches!(docker_failure("删除容器失败", Some(409), "in use", "d"), DockerError::Conflict(m) if m == "删除容器失败: in use"));
    assert!(matches!(docker_failure("删除容器失败", Some(500), "boom", "server error"), DockerError::Request(m) if m == "删除容器失败: server error"));
    assert!(matches!(check_docker_host("  "), Err(DockerError::Connection(m)) if m == "Docker 地址不能为空"));
    assert!(check_docker_host("unix:///var/run/docker.sock").is_ok());
    assert!(matches!(version_or_error(None), Err(DockerError::InvalidResponse(m)) if m == "Docker 版本为空"));
    assert_eq!(version_or_error(Some("27.0".to_owned())).unwrap(), "27.0");
    assert_eq!(DockerError::Conflict("x".to_owned()).describe(), "Docker 资源状态冲突: x");
    assert!(swarm_manager(Some(true)));
    assert!(!swarm_manager(Some(false)));
    assert!(!swarm_manager(None));
}

#[test]
fn listing_queries_ignore_case() {
    assert_eq!(filter_value(Some("  Web ")), Some("Web".to_owned()));
    assert_eq!(filter_value(Some("   ")), None);
    let names = Some(vec!["/Shop-Web".to_owned()]);
    assert!(container_matches("shop", &None, &None, &names));
    assert!(container_matches("NGINX", &Some("abc".to_owned()), &Some("nginx:latest".to_owned()), &None));
    assert!(!container_matches("redis", &Some("abc".to_owned()), &Some("nginx".to_owned()), &names));
    assert!(image_matches("alpine", "sha256:1", &vec!["Alpine:3".to_owned()], &vec![]));
    assert!(!image_matches("ubuntu", "sha256:1", &vec!["alpine:3".to_owned()], &vec!["alpine@sha".to_owned()]));
}

#[test]
fn containers_are_counted_per_network() {
    let networks = vec![
        Some(vec!["bridge".to_owned(), "app".to_owned()]),
        None,
        Some(vec!["app".to_owned()]),
    ];
    let counts = network_container_counts(&networks);
    assert_eq!(counts.get("app"), Some(&2));
    assert_eq!(counts.get("bridge"), Some(&1));
    assert_eq!(counts.get("host"), None);
    assert_eq!(counts.len(), 2);
}

#[test]
fn cached_snapshots_are_served_for_ten_seconds() {
    assert!(cached_snapshot_fresh(1_000, 1_000));
    assert!(cached_snapshot_fresh(1_000, 10_999));
    assert!(!cached_snapshot_fresh(1_000, 11_000));
    assert!(cached_snapshot_fresh(5_000, 4_000));
}

#[test]
fn few_cpu_readings_are_left_alone() {
    let mut samples = TaggedMap::new();
    samples.insert("a".to_owned(), CpuSample { total_usage: 1, system_usage: 1, online_cpus: 1 }, 3);
    trim_cpu_samples(&mut samples);
    assert_eq!(samples.len(), 1);
    assert!(samples.get("a").is_some());
}
