//! Docker engine snapshots: container counts, memory accounting and the
//! bookkeeping of CPU samples between two collections.

use vstd::prelude::*;
use vstd::hash_map::StringHashMap;

use crate::tagged_map::{TaggedMap, lookup, inserted, all_in};
use crate::text::decimal;

verus! {

/// Most CPU samples kept between collections.
pub const MAX_CPU_SAMPLES: usize = 512;

/// Container counts reported by the engine.
#[derive(Clone, Copy, Debug, PartialEq, Eq, Default)]
pub struct ContainerCounts {
    pub total: u64,
    pub running: u64,
    pub paused: u64,
    pub stopped: u64,
}

/// Memory use of the running containers against the engine's memory. The
/// percentage is carried as the bit pattern of an IEEE-754 double.
#[derive(Clone, Copy, Debug, PartialEq, Eq)]
pub struct MemoryMetrics {
    pub used_bytes: u64,
    pub total_bytes: u64,
    pub percent_bits: u64,
}

/// A summary of one engine: version, container counts and resource use.
/// The CPU percentage is carried as the bit pattern of an IEEE-754 double.
#[derive(Debug)]
pub struct DockerSnapshot {
    pub docker_version: String,
    pub containers: ContainerCounts,
    pub cpu_percent_bits: Option<u64>,
    pub memory: Option<MemoryMetrics>,
    pub metrics_error: Option<String>,
    pub metrics_collected_at: i64,
}

impl DockerSnapshot {
    /// A copy of the snapshot.
    pub fn duplicate(&self) -> (r: Self)
        ensures
            r.docker_version@ == self.docker_version@,
            r.containers == self.containers,
            r.cpu_percent_bits == self.cpu_percent_bits,
            r.memory == self.memory,
            r.metrics_error.is_some() == self.metrics_error.is_some(),
            self.metrics_error.is_some() ==> r.metrics_error.unwrap()@ == self.metrics_error.unwrap()@,
            r.metrics_collected_at == self.metrics_collected_at,
    {
        DockerSnapshot {
            docker_version: self.docker_version.clone(),
            containers: self.containers,
            cpu_percent_bits: self.cpu_percent_bits,
            memory: self.memory,
            metrics_error: match &self.metrics_error {
                Some(m) => Some(m.clone()),
                None => None,
            },
            metrics_collected_at: self.metrics_collected_at,
        }
    }
}

/// The cache figure subtracted from a container's memory usage: the first
/// of `total_inactive_file`, `inactive_file` and `cache` that the cgroup
/// statistics report, else 0.
pub open spec fn cache_figure(stats: Map<Seq<char>, u64>) -> u64 {
    if stats.contains_key("total_inactive_file"@) {
        stats["total_inactive_file"@]
    } else if stats.contains_key("inactive_file"@) {
        stats["inactive_file"@]
    } else if stats.contains_key("cache"@) {
        stats["cache"@]
    } else {
        0
    }
}

/// Memory in use: the usage less the cache figure, never below zero.
pub open spec fn used_memory(usage: u64, stats: Map<Seq<char>, u64>) -> u64 {
    if usage >= cache_figure(stats) {
        (usage - cache_figure(stats)) as u64
    } else {
        0
    }
}

/// Memory a container really uses: `usage` less its page cache.
pub fn memory_used_bytes(usage: u64, stats: &StringHashMap<u64>) -> (r: u64)
    ensures
        r == used_memory(usage, stats@),
        r <= usage,
{
    let cache: u64 = match stats.get("total_inactive_file") {
        Some(v) => *v,
        None => match stats.get("inactive_file") {
            Some(v) => *v,
            None => match stats.get("cache") {
                Some(v) => *v,
                None => 0,
            },
        },
    };
    usage.saturating_sub(cache)
}

/// The engine facts a snapshot is built from.
#[derive(Clone, Copy, Debug, PartialEq, Eq)]
pub struct DockerInfo {
    pub total_containers: u64,
    pub running_containers: u64,
    pub paused_containers: u64,
    pub stopped_containers: u64,
    pub cpu_count: u64,
    pub total_memory_bytes: Option<u64>,
}

/// A reported count, with a missing or negative one read as zero.
pub open spec fn count_or_zero(value: Option<i64>) -> u64 {
    match value {
        Some(v) => if v >= 0 { v as u64 } else { 0 },
        None => 0,
    }
}

/// A reported count, with a missing or negative one read as zero.
pub fn non_negative(value: Option<i64>) -> (r: u64)
    ensures
        r == count_or_zero(value),
{
    match value {
        Some(v) => if v >= 0 { v as u64 } else { 0 },
        None => 0,
    }
}

/// The engine facts from the counts the engine reports; the memory total is
/// kept only when it is not negative.
pub fn docker_info(
    containers: Option<i64>,
    running: Option<i64>,
    paused: Option<i64>,
    stopped: Option<i64>,
    ncpu: Option<i64>,
    mem_total: Option<i64>,
) -> (info: DockerInfo)
    ensures
        info.total_containers == count_or_zero(containers),
        info.running_containers == count_or_zero(running),
        info.paused_containers == count_or_zero(paused),
        info.stopped_containers == count_or_zero(stopped),
        info.cpu_count == count_or_zero(ncpu),
        info.total_memory_bytes == match mem_total {
            Some(m) => if m >= 0 { Some(m as u64) } else { None },
            None => None,
        },
{
    DockerInfo {
        total_containers: non_negative(containers),
        running_containers: non_negative(running),
        paused_containers: non_negative(paused),
        stopped_containers: non_negative(stopped),
        cpu_count: non_negative(ncpu),
        total_memory_bytes: match mem_total {
            Some(m) => if m >= 0 { Some(m as u64) } else { None },
            None => None,
        },
    }
}

/// Container counts of a snapshot taken from the engine facts.
pub fn counts_from_info(info: &DockerInfo) -> (c: ContainerCounts)
    ensures
        c.total == info.total_containers,
        c.running == info.running_containers,
        c.paused == info.paused_containers,
        c.stopped == info.stopped_containers,
{
    ContainerCounts {
        total: info.total_containers,
        running: info.running_containers,
        paused: info.paused_containers,
        stopped: info.stopped_containers,
    }
}

/// One CPU reading of a container; when it was seen is the tag it is stored with.
#[derive(Clone, Copy, Debug, PartialEq, Eq)]
pub struct CpuSample {
    pub total_usage: u64,
    pub system_usage: u64,
    pub online_cpus: u64,
}

/// What one container's statistics report, as far as the collector reads them.
pub struct ContainerStats {
    pub total_usage: Option<u64>,
    pub system_usage: Option<u64>,
    pub online_cpus: Option<u32>,
    pub memory_usage: Option<u64>,
    pub memory_stats: Option<StringHashMap<u64>>,
}

/// The CPU reading in a container's statistics: both counters are needed;
/// a missing or zero CPU count falls back to the engine's.
pub open spec fn sample_of(st: ContainerStats, engine_cpus: u64) -> Option<CpuSample> {
    match (st.total_usage, st.system_usage) {
        (Some(total), Some(system)) => Some(CpuSample {
            total_usage: total,
            system_usage: system,
            online_cpus: match st.online_cpus {
                Some(c) => if c > 0 { c as u64 } else { engine_cpus },
                None => engine_cpus,
            },
        }),
        _ => None,
    }
}

/// The memory reading in a container's statistics: the usage, less the
/// page cache when cgroup statistics are present.
pub open spec fn memory_of(st: ContainerStats) -> Option<u64> {
    match st.memory_usage {
        Some(usage) => match st.memory_stats {
            Some(stats) => Some(used_memory(usage, stats@)),
            None => Some(usage),
        },
        None => None,
    }
}

/// The CPU reading of a container's statistics.
pub fn cpu_sample(st: &ContainerStats, engine_cpus: u64) -> (r: Option<CpuSample>)
    ensures
        r == sample_of(*st, engine_cpus),
{
    match (st.total_usage, st.system_usage) {
        (Some(total), Some(system)) => Some(CpuSample {
            total_usage: total,
            system_usage: system,
            online_cpus: match st.online_cpus {
                Some(c) => if c > 0 { c as u64 } else { engine_cpus },
                None => engine_cpus,
            },
        }),
        _ => None,
    }
}

/// The memory reading of a container's statistics.
pub fn memory_sample(st: &ContainerStats) -> (r: Option<u64>)
    ensures
        r == memory_of(*st),
{
    match st.memory_usage {
        Some(usage) => match &st.memory_stats {
            Some(stats) => Some(memory_used_bytes(usage, stats)),
            None => Some(usage),
        },
        None => None,
    }
}

/// The inputs of one container's CPU percentage: the counter deltas since
/// the previous reading and the two CPU counts.
#[derive(Clone, Copy, Debug, PartialEq, Eq)]
pub struct CpuShare {
    pub cpu_delta: u64,
    pub system_delta: u64,
    pub online_cpus: u64,
    pub engine_cpus: u64,
}

/// A CPU percentage exists for these inputs: no denominator is zero.
pub open spec fn percent_defined(system_delta: u64, online_cpus: u64, engine_cpus: u64) -> bool {
    system_delta != 0 && online_cpus != 0 && engine_cpus != 0
}

/// Whether a CPU percentage exists for these inputs (the cases in which
/// `calculate_cpu_percent` gives a value).
pub fn cpu_percent_defined(system_delta: u64, online_cpus: u64, engine_cpus: u64) -> (r: bool)
    ensures
        r == percent_defined(system_delta, online_cpus, engine_cpus),
{
    system_delta != 0 && online_cpus != 0 && engine_cpus != 0
}

/// The share between a previous and a current reading: both counters must
/// not have gone backwards and a percentage must exist.
pub open spec fn share_of(prev: CpuSample, cur: CpuSample, engine_cpus: u64) -> Option<CpuShare> {
    if cur.total_usage >= prev.total_usage && cur.system_usage >= prev.system_usage
        && percent_defined((cur.system_usage - prev.system_usage) as u64, cur.online_cpus, engine_cpus) {
        Some(CpuShare {
            cpu_delta: (cur.total_usage - prev.total_usage) as u64,
            system_delta: (cur.system_usage - prev.system_usage) as u64,
            online_cpus: cur.online_cpus,
            engine_cpus,
        })
    } else {
        None
    }
}

/// The running result of a collection.
pub struct TallyModel {
    pub samples: Seq<(Seq<char>, CpuSample, u64)>,
    pub shares: Seq<CpuShare>,
    pub memory_used: u64,
    pub memory_samples: nat,
    pub failed: Seq<Seq<char>>,
}

/// `id` added to the failed containers, once.
pub open spec fn with_failed(failed: Seq<Seq<char>>, id: Seq<char>) -> Seq<Seq<char>> {
    if failed.contains(id) {
        failed
    } else {
        failed.push(id)
    }
}

/// One container's statistics folded into the running result: a failed
/// read marks the container; a CPU reading replaces the stored one and,
/// against the previous reading, may give a share; a memory reading adds
/// to the total (saturating) and a missing reading marks the container.
pub open spec fn tally_step(
    m: TallyModel,
    id: Seq<char>,
    result: Option<ContainerStats>,
    engine_cpus: u64,
    now: u64,
) -> TallyModel {
    match result {
        None => TallyModel { failed: with_failed(m.failed, id), ..m },
        Some(st) => {
            let after_cpu = match sample_of(st, engine_cpus) {
                None => TallyModel { failed: with_failed(m.failed, id), ..m },
                Some(cur) => TallyModel {
                    samples: inserted(m.samples, id, cur, now),
                    shares: match lookup(m.samples, id) {
                        Some(prev) => match share_of(prev.0, cur, engine_cpus) {
                            Some(sh) => m.shares.push(sh),
                            None => m.shares,
                        },
                        None => m.shares,
                    },
                    ..m
                },
            };
            match memory_of(st) {
                Some(used) => TallyModel {
                    memory_used: if after_cpu.memory_used + used > u64::MAX {
                        u64::MAX
                    } else {
                        (after_cpu.memory_used + used) as u64
                    },
                    memory_samples: after_cpu.memory_samples + 1,
                    ..after_cpu
                },
                None => TallyModel { failed: with_failed(after_cpu.failed, id), ..after_cpu },
            }
        },
    }
}

/// The result of folding all collected statistics, in order, over the
/// stored CPU readings.
pub open spec fn tally(
    samples: Seq<(Seq<char>, CpuSample, u64)>,
    results: Seq<(String, Option<ContainerStats>)>,
    engine_cpus: u64,
    now: u64,
) -> TallyModel
    decreases results.len(),
{
    if results.len() == 0 {
        TallyModel {
            samples,
            shares: Seq::empty(),
            memory_used: 0,
            memory_samples: 0,
            failed: Seq::empty(),
        }
    } else {
        tally_step(
            tally(samples, results.drop_last(), engine_cpus, now),
            results.last().0@,
            results.last().1,
            engine_cpus,
            now,
        )
    }
}

/// The memory readings of the collected statistics, summed (without a bound).
pub open spec fn memory_sum(results: Seq<(String, Option<ContainerStats>)>) -> nat
    decreases results.len(),
{
    if results.len() == 0 {
        0
    } else {
        memory_sum(results.drop_last()) + match results.last().1 {
            Some(st) => match memory_of(st) {
                Some(u) => u as nat,
                None => 0nat,
            },
            None => 0nat,
        }
    }
}

/// How many of the collected statistics carry a memory reading.
pub open spec fn memory_readings(results: Seq<(String, Option<ContainerStats>)>) -> nat
    decreases results.len(),
{
    if results.len() == 0 {
        0
    } else {
        memory_readings(results.drop_last()) + match results.last().1 {
            Some(st) => if memory_of(st) is Some { 1nat } else { 0nat },
            None => 0nat,
        }
    }
}

/// Law of a collection: the memory in use is the sum of every
/// container's memory reading, capped at the largest `u64`, and the number
/// of memory samples is the number of containers that gave one; neither
/// depends on the stored CPU readings.
pub proof fn law_memory_is_summed(
    samples: Seq<(Seq<char>, CpuSample, u64)>,
    results: Seq<(String, Option<ContainerStats>)>,
    engine_cpus: u64,
    now: u64,
)
    ensures
        tally(samples, results, engine_cpus, now).memory_used == if memory_sum(results) > u64::MAX {
            u64::MAX
        } else {
            memory_sum(results) as u64
        },
        tally(samples, results, engine_cpus, now).memory_samples == memory_readings(results),
    decreases results.len(),
{
    if results.len() > 0 {
        law_memory_is_summed(samples, results.drop_last(), engine_cpus, now);
    }
}

/// A container's statistics lack a reading: the read failed, or it gave
/// no CPU counters or no memory usage.
pub open spec fn lacks_reading(result: Option<ContainerStats>) -> bool {
    match result {
        None => true,
        Some(st) => st.total_usage is None || st.system_usage is None || st.memory_usage is None,
    }
}

proof fn lemma_with_failed(failed: Seq<Seq<char>>, id: Seq<char>)
    requires
        forall|a: int, b: int| 0 <= a < b < failed.len() ==> #[trigger] failed[a] != #[trigger] failed[b],
    ensures
        forall|a: int, b: int|
            0 <= a < b < with_failed(failed, id).len() ==> #[trigger] with_failed(failed, id)[a]
                != #[trigger] with_failed(failed, id)[b],
        forall|x: Seq<char>| #[trigger] with_failed(failed, id).contains(x) <==> (failed.contains(x) || x == id),
{
    if !failed.contains(id) {
        let f = failed.push(id);
        assert forall|x: Seq<char>| #[trigger] f.contains(x) <==> (failed.contains(x) || x == id) by {
            if f.contains(x) {
                let j = choose|j: int| 0 <= j < f.len() && f[j] == x;
                if j < failed.len() {
                    assert(failed[j] == x);
                }
            }
            if failed.contains(x) {
                let j = choose|j: int| 0 <= j < failed.len() && failed[j] == x;
                assert(f[j] == x);
            }
            if x == id {
                assert(f[failed.len() as int] == x);
            }
        }
        assert forall|a: int, b: int| 0 <= a < b < f.len() implies #[trigger] f[a] != #[trigger] f[b] by {
            if b == failed.len() {
                assert(f[a] == failed[a]);
            }
        }
    }
}

/// Law of a collection's failures and shares: the failed containers are
/// exactly those whose statistics lack a reading, each named once; there
/// are no more CPU shares than results, and each share is taken against
/// the engine's CPU count with no zero denominator.
pub proof fn law_failed_and_shares(
    samples: Seq<(Seq<char>, CpuSample, u64)>,
    results: Seq<(String, Option<ContainerStats>)>,
    engine_cpus: u64,
    now: u64,
)
    ensures
        forall|a: int, b: int|
            0 <= a < b < tally(samples, results, engine_cpus, now).failed.len() ==> #[trigger] tally(
                samples,
                results,
                engine_cpus,
                now,
            ).failed[a] != #[trigger] tally(samples, results, engine_cpus, now).failed[b],
        forall|x: Seq<char>|
            #[trigger] tally(samples, results, engine_cpus, now).failed.contains(x) <==> exists|i: int|
                0 <= i < results.len() && (#[trigger] results[i]).0@ == x && lacks_reading(results[i].1),
        tally(samples, results, engine_cpus, now).shares.len() <= results.len(),
        forall|k: int|
            0 <= k < tally(samples, results, engine_cpus, now).shares.len() ==> {
                let sh = #[trigger] tally(samples, results, engine_cpus, now).shares[k];
                sh.engine_cpus == engine_cpus && percent_defined(sh.system_delta, sh.online_cpus, engine_cpus)
            },
    decreases results.len(),
{
    if results.len() > 0 {
        let pre = results.drop_last();
        law_failed_and_shares(samples, pre, engine_cpus, now);
        let m = tally(samples, pre, engine_cpus, now);
        let t = tally(samples, results, engine_cpus, now);
        let id = results.last().0@;
        let k = results.len() - 1;
        assert(results[k] == results.last());
        assert forall|i: int| 0 <= i < pre.len() implies #[trigger] pre[i] == results[i] by {}
        lemma_with_failed(m.failed, id);
        lemma_with_failed(with_failed(m.failed, id), id);
        assert forall|x: Seq<char>| #[trigger] t.failed.contains(x) <==> exists|i: int|
            0 <= i < results.len() && (#[trigger] results[i]).0@ == x && lacks_reading(results[i].1) by {
            if t.failed.contains(x) {
                if m.failed.contains(x) {
                    let i = choose|i: int| 0 <= i < pre.len() && (#[trigger] pre[i]).0@ == x && lacks_reading(pre[i].1);
                    assert(results[i] == pre[i]);
                } else {
                    assert(x == id);
                }
            }
            if exists|i: int| 0 <= i < results.len() && (#[trigger] results[i]).0@ == x && lacks_reading(results[i].1) {
                let i = choose|i: int| 0 <= i < results.len() && (#[trigger] results[i]).0@ == x && lacks_reading(results[i].1);
                if i < k {
                    assert(pre[i] == results[i]);
                    assert(m.failed.contains(x));
                }
            }
        }
    }
}

/// What a collection gathered from the running containers' statistics.
pub struct CollectionTally {
    pub shares: Vec<CpuShare>,
    pub memory_used: u64,
    pub memory_samples: u64,
    pub failed: Vec<String>,
}

/// The tally matches the model.
pub open spec fn tally_matches(t: CollectionTally, m: TallyModel) -> bool {
    &&& t.shares@ == m.shares
    &&& t.memory_used == m.memory_used
    &&& t.memory_samples == m.memory_samples
    &&& t.failed@.map_values(|f: String| f@) == m.failed
}

fn add_failed(failed: &mut Vec<String>, id: &String)
    ensures
        final(failed)@.map_values(|f: String| f@) == with_failed(
            old(failed)@.map_values(|f: String| f@),
            id@,
        ),
{
    let ghost pre = failed@.map_values(|f: String| f@);
    if !crate::text::contains_string(failed, id.as_str()) {
        failed.push(id.clone());
        assert(failed@.map_values(|f: String| f@) =~= pre.push(id@));
    }
}

/// Folds the statistics of the running containers, in order, into the
/// stored CPU readings and the memory totals.
pub fn tally_stats(
    samples: &mut TaggedMap<CpuSample>,
    results: &Vec<(String, Option<ContainerStats>)>,
    engine_cpus: u64,
    now: u64,
) -> (t: CollectionTally)
    requires
        old(samples).wf(),
    ensures
        final(samples).wf(),
        final(samples).view() == tally(old(samples).view(), results@, engine_cpus, now).samples,
        tally_matches(t, tally(old(samples).view(), results@, engine_cpus, now)),
        t.memory_used == if memory_sum(results@) > u64::MAX { u64::MAX } else { memory_sum(results@) as u64 },
        t.memory_samples == memory_readings(results@),
{
    proof {
        law_memory_is_summed(old(samples).view(), results@, engine_cpus, now);
    }
    let ghost pre = samples.view();
    let mut shares: Vec<CpuShare> = Vec::new();
    let mut memory_used: u64 = 0;
    let mut memory_samples: u64 = 0;
    let mut failed: Vec<String> = Vec::new();
    let mut i: usize = 0;
    assert(results@.take(0) =~= Seq::<(String, Option<ContainerStats>)>::empty());
    assert(failed@.map_values(|f: String| f@) =~= Seq::<Seq<char>>::empty());
    while i < results.len()
        invariant
            i <= results@.len(),
            samples.wf(),
            samples.view() == tally(pre, results@.take(i as int), engine_cpus, now).samples,
            tally_matches(
                CollectionTally { shares, memory_used, memory_samples, failed },
                tally(pre, results@.take(i as int), engine_cpus, now),
            ),
            memory_samples <= i,
        decreases results.len() - i,
    {
        let ghost before = tally(pre, results@.take(i as int), engine_cpus, now);
        assert(results@.take(i + 1).drop_last() =~= results@.take(i as int));
        assert(results@.take(i + 1).last() == results@[i as int]);
        let id = &results[i].0;
        match &results[i].1 {
            None => {
                add_failed(&mut failed, id);
            },
            Some(st) => {
                match cpu_sample(st, engine_cpus) {
                    None => {
                        add_failed(&mut failed, id);
                    },
                    Some(cur) => {
                        let prev = samples.insert(id.clone(), cur, now);
                        match prev {
                            Some(p) => {
                                if cur.total_usage >= p.total_usage && cur.system_usage
                                    >= p.system_usage && cpu_percent_defined(
                                    cur.system_usage - p.system_usage,
                                    cur.online_cpus,
                                    engine_cpus,
                                ) {
                                    shares.push(
                                        CpuShare {
                                            cpu_delta: cur.total_usage - p.total_usage,
                                            system_delta: cur.system_usage - p.system_usage,
                                            online_cpus: cur.online_cpus,
                                            engine_cpus,
                                        },
                                    );
                                }
                            },
                            None => {},
                        }
                    },
                }
                match memory_sample(st) {
                    Some(used) => {
                        memory_used = memory_used.saturating_add(used);
                        memory_samples = memory_samples + 1;
                    },
                    None => {
                        add_failed(&mut failed, id);
                    },
                }
            },
        }
        i += 1;
    }
    assert(results@.take(results@.len() as int) =~= results@);
    CollectionTally { shares, memory_used, memory_samples, failed }
}

/// Drops the oldest CPU readings until at most [`MAX_CPU_SAMPLES`] remain.
pub fn trim_cpu_samples(samples: &mut TaggedMap<CpuSample>)
    requires
        old(samples).wf(),
    ensures
        final(samples).wf(),
        final(samples).view().len() == if old(samples).view().len() > MAX_CPU_SAMPLES {
            MAX_CPU_SAMPLES as nat
        } else {
            old(samples).view().len()
        },
        old(samples).view().len() <= MAX_CPU_SAMPLES ==> final(samples).view() == old(samples).view(),
        all_in(final(samples).view(), old(samples).view()),
        forall|i: int, j: int|
            0 <= i < old(samples).view().len() && !final(samples).view().contains(old(samples).view()[i])
                && 0 <= j < final(samples).view().len() ==> #[trigger] old(samples).view()[i].2
                <= #[trigger] final(samples).view()[j].2,
{
    samples.evict_oldest(MAX_CPU_SAMPLES);
}

/// How long a collected snapshot is served again, in milliseconds.
pub const SNAPSHOT_CACHE_TTL_MS: u64 = 10_000;

/// Whether a snapshot collected at `collected_at` may still be served at
/// `now` (both in milliseconds of a clock that does not run backwards):
/// less than [`SNAPSHOT_CACHE_TTL_MS`] has elapsed.
pub fn cached_snapshot_fresh(collected_at: u64, now: u64) -> (r: bool)
    ensures
        r == (now < collected_at || now - collected_at < SNAPSHOT_CACHE_TTL_MS),
{
    now < collected_at || now - collected_at < SNAPSHOT_CACHE_TTL_MS
}

/// How the CPU percentage of a snapshot is to be given.
#[derive(Debug)]
pub enum CpuReading {
    /// No container runs: the percentage is zero.
    Idle,
    /// The clamped sum of these containers' percentages.
    Shares(Vec<CpuShare>),
    /// No container has two usable readings yet: no percentage.
    Unavailable,
}

/// Memory use of a snapshot, before its percentage is computed.
#[derive(Clone, Copy, Debug, PartialEq, Eq)]
pub struct MemoryUse {
    pub used_bytes: u64,
    pub total_bytes: u64,
}

/// Everything of a snapshot but its floating-point figures.
#[derive(Debug)]
pub struct SnapshotPlan {
    pub containers: ContainerCounts,
    pub cpu: CpuReading,
    pub memory: Option<MemoryUse>,
    pub metrics_error: Option<String>,
}

/// The message that says how many running containers gave no metrics.
pub open spec fn unavailable_metrics_message(count: nat) -> Seq<char> {
    decimal(count) + " 个运行中容器的指标暂不可用"@
}

/// Plans a snapshot from the engine facts, the number of running
/// containers and what their statistics gave.
pub fn plan_snapshot(info: &DockerInfo, running: usize, t: CollectionTally) -> (p: SnapshotPlan)
    ensures
        p.containers.total == info.total_containers,
        p.containers.running == info.running_containers,
        p.containers.paused == info.paused_containers,
        p.containers.stopped == info.stopped_containers,
        running == 0 ==> p.cpu is Idle,
        running != 0 && t.shares@.len() > 0 ==> (p.cpu matches CpuReading::Shares(v) && v@ == t.shares@),
        running != 0 && t.shares@.len() == 0 ==> p.cpu is Unavailable,
        p.memory == match info.total_memory_bytes {
            None => None,
            Some(total) => if running != 0 && t.memory_samples == 0 {
                None
            } else {
                Some(MemoryUse { used_bytes: if running == 0 { 0 } else { t.memory_used }, total_bytes: total })
            },
        },
        t.failed@.len() == 0 ==> p.metrics_error is None,
        t.failed@.len() > 0 ==> (p.metrics_error matches Some(m) && m@ == unavailable_metrics_message(t.failed@.len())),
{
    let containers = counts_from_info(info);
    let failed_count = t.failed.len();
    let cpu = if running == 0 {
        CpuReading::Idle
    } else if t.shares.len() > 0 {
        CpuReading::Shares(t.shares)
    } else {
        CpuReading::Unavailable
    };
    let memory = match info.total_memory_bytes {
        None => None,
        Some(total) => if running != 0 && t.memory_samples == 0 {
            None
        } else {
            Some(MemoryUse { used_bytes: if running == 0 { 0 } else { t.memory_used }, total_bytes: total })
        },
    };
    let metrics_error = if failed_count == 0 {
        None
    } else {
        let mut m = crate::text::decimal_string(failed_count as u64);
        m.append(" 个运行中容器的指标暂不可用");
        Some(m)
    };
    SnapshotPlan { containers, cpu, memory, metrics_error }
}

/// Seconds since the Unix epoch as a signed count: a clock before the
/// epoch reads as zero, and a count beyond `i64::MAX` is capped.
pub fn unix_seconds(since_epoch: Option<u64>) -> (r: i64)
    ensures
        r == match since_epoch {
            Some(s) => if s > i64::MAX as u64 { i64::MAX as int } else { s as int },
            None => 0,
        },
{
    match since_epoch {
        Some(s) => if s > i64::MAX as u64 { i64::MAX } else { s as i64 },
        None => 0,
    }
}

} // verus!
