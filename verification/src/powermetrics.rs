//! Readings of the `powermetrics` tool: what a decoded snapshot becomes, and
//! how per-core and per-cluster figures are summed up.
//!
//! The power figures are carried through unread, so their type `W` is left to
//! the caller.

pub use crate::files::{new_timecode, powermetrics_path};
pub use crate::history::{History, RollingAverage};
pub use crate::reader::PowermetricsReader;

use crate::text::{first_char, same_text};
use vstd::prelude::*;

verus! {

/// One processor core.
#[derive(Debug, Clone, Copy, PartialEq, Eq, Structural)]
pub struct CoreMetrics {
    pub id: u32,
    pub active_pct: u64,
    pub freq_mhz: u64,
}

/// The graphics processor.
#[derive(Debug, Clone, Copy, PartialEq, Eq, Structural)]
pub struct GpuMetrics {
    pub active_pct: u64,
    pub freq_mhz: u64,
}

/// The processor: its efficiency and performance clusters, its cores, and the
/// energy drawn over one sample.
#[derive(Debug, Clone)]
pub struct CpuMetrics<W> {
    pub e_cluster_active: u64,
    pub e_cluster_freq_mhz: u64,
    pub p_cluster_active: u64,
    pub p_cluster_freq_mhz: u64,
    pub e_cores: Vec<CoreMetrics>,
    pub p_cores: Vec<CoreMetrics>,
    pub cpu_w: W,
    pub gpu_w: W,
    pub ane_w: W,
    pub package_w: W,
}

impl Default for CoreMetrics {
    fn default() -> (res: Self)
        ensures
            res == (CoreMetrics { id: 0, active_pct: 0, freq_mhz: 0 }),
    {
        CoreMetrics { id: 0, active_pct: 0, freq_mhz: 0 }
    }
}

impl Default for GpuMetrics {
    fn default() -> (res: Self)
        ensures
            res == (GpuMetrics { active_pct: 0, freq_mhz: 0 }),
    {
        GpuMetrics { active_pct: 0, freq_mhz: 0 }
    }
}

impl<W: Default> Default for CpuMetrics<W> {
    fn default() -> (res: Self)
        ensures
            res.e_cluster_active == 0,
            res.e_cluster_freq_mhz == 0,
            res.p_cluster_active == 0,
            res.p_cluster_freq_mhz == 0,
            res.e_cores@ == Seq::<CoreMetrics>::empty(),
            res.p_cores@ == Seq::<CoreMetrics>::empty(),
            call_ensures(W::default, (), res.cpu_w),
            call_ensures(W::default, (), res.gpu_w),
            call_ensures(W::default, (), res.ane_w),
            call_ensures(W::default, (), res.package_w),
    {
        CpuMetrics {
            e_cluster_active: 0,
            e_cluster_freq_mhz: 0,
            p_cluster_active: 0,
            p_cluster_freq_mhz: 0,
            e_cores: Vec::new(),
            p_cores: Vec::new(),
            cpu_w: W::default(),
            gpu_w: W::default(),
            ane_w: W::default(),
            package_w: W::default(),
        }
    }
}

/// One sample, ready for display.
#[derive(Debug, Clone)]
pub struct PowermetricsReading<W> {
    /// Nanoseconds since the Unix epoch.
    pub timestamp: i128,
    pub thermal_pressure: String,
    pub cpu: CpuMetrics<W>,
    pub gpu: GpuMetrics,
}

/// A cluster as the tool reports it, with its own cores.
#[derive(Debug, Clone)]
pub struct RawCluster {
    pub name: String,
    pub active_pct: u64,
    pub freq_mhz: u64,
    pub cpus: Vec<CoreMetrics>,
}

/// One decoded snapshot, clusters in the order of the report.
#[derive(Debug, Clone)]
pub struct RawSnapshot<W> {
    /// Nanoseconds since the Unix epoch.
    pub timestamp: i128,
    pub thermal_pressure: String,
    pub clusters: Vec<RawCluster>,
    pub cpu_w: W,
    pub gpu_w: W,
    pub ane_w: W,
    pub package_w: W,
    pub gpu: GpuMetrics,
}

/// A cluster without its cores.
#[derive(Debug, Clone)]
pub struct ClusterData {
    pub name: String,
    pub active_pct: u64,
    pub freq_mhz: u64,
}

/// Whether a name begins with the character `c`.
pub open spec fn begins_with(name: Seq<char>, c: char) -> bool {
    name.len() > 0 && name[0] == c
}

/// Whether a name is that of an efficiency cluster.
pub open spec fn is_efficiency(name: Seq<char>) -> bool {
    begins_with(name, 'E') || begins_with(name, 'e')
}

/// Whether a name is that of a performance cluster.
pub open spec fn is_performance(name: Seq<char>) -> bool {
    begins_with(name, 'P') || begins_with(name, 'p')
}

/// The cluster's own figures.
pub open spec fn cluster_data(cluster: RawCluster) -> ClusterData {
    ClusterData {
        name: cluster.name,
        active_pct: cluster.active_pct,
        freq_mhz: cluster.freq_mhz,
    }
}

/// The efficiency clusters of a report, in its order.
pub open spec fn efficiency_clusters(clusters: Seq<RawCluster>) -> Seq<ClusterData>
    decreases clusters.len(),
{
    if clusters.len() == 0 {
        seq![]
    } else {
        let before = efficiency_clusters(clusters.drop_last());
        if is_efficiency(clusters.last().name@) {
            before.push(cluster_data(clusters.last()))
        } else {
            before
        }
    }
}

/// The performance clusters of a report, in its order.
pub open spec fn performance_clusters(clusters: Seq<RawCluster>) -> Seq<ClusterData>
    decreases clusters.len(),
{
    if clusters.len() == 0 {
        seq![]
    } else {
        let before = performance_clusters(clusters.drop_last());
        if is_performance(clusters.last().name@) {
            before.push(cluster_data(clusters.last()))
        } else {
            before
        }
    }
}

/// The cores of the efficiency clusters, in the order of the report.
pub open spec fn efficiency_cores(clusters: Seq<RawCluster>) -> Seq<CoreMetrics>
    decreases clusters.len(),
{
    if clusters.len() == 0 {
        seq![]
    } else {
        let before = efficiency_cores(clusters.drop_last());
        if is_efficiency(clusters.last().name@) {
            before + clusters.last().cpus@
        } else {
            before
        }
    }
}

/// The cores of all other clusters, in the order of the report.
pub open spec fn other_cores(clusters: Seq<RawCluster>) -> Seq<CoreMetrics>
    decreases clusters.len(),
{
    if clusters.len() == 0 {
        seq![]
    } else {
        let before = other_cores(clusters.drop_last());
        if is_efficiency(clusters.last().name@) {
            before
        } else {
            before + clusters.last().cpus@
        }
    }
}

/// The sum of the cores' activity.
pub open spec fn core_activity(cores: Seq<CoreMetrics>) -> nat
    decreases cores.len(),
{
    if cores.len() == 0 {
        0
    } else {
        core_activity(cores.drop_last()) + cores.last().active_pct as nat
    }
}

/// The mean activity of the cores, rounded down; zero without cores.
pub open spec fn mean_core_activity(cores: Seq<CoreMetrics>) -> nat {
    if cores.len() == 0 {
        0
    } else {
        core_activity(cores) / cores.len()
    }
}

/// The highest frequency of the cores; zero without cores.
pub open spec fn top_core_freq(cores: Seq<CoreMetrics>) -> nat
    decreases cores.len(),
{
    if cores.len() == 0 {
        0
    } else {
        let before = top_core_freq(cores.drop_last());
        if cores.last().freq_mhz > before {
            cores.last().freq_mhz as nat
        } else {
            before
        }
    }
}

/// The clusters whose name begins with `prefix`, in order.
pub open spec fn matching(clusters: Seq<ClusterData>, prefix: char) -> Seq<ClusterData>
    decreases clusters.len(),
{
    if clusters.len() == 0 {
        seq![]
    } else {
        let before = matching(clusters.drop_last(), prefix);
        if begins_with(clusters.last().name@, prefix) {
            before.push(clusters.last())
        } else {
            before
        }
    }
}

/// The sum of the clusters' activity.
pub open spec fn cluster_activity(clusters: Seq<ClusterData>) -> nat
    decreases clusters.len(),
{
    if clusters.len() == 0 {
        0
    } else {
        cluster_activity(clusters.drop_last()) + clusters.last().active_pct as nat
    }
}

/// The highest frequency of the clusters; zero without clusters.
pub open spec fn top_cluster_freq(clusters: Seq<ClusterData>) -> nat
    decreases clusters.len(),
{
    if clusters.len() == 0 {
        0
    } else {
        let before = top_cluster_freq(clusters.drop_last());
        if clusters.last().freq_mhz > before {
            clusters.last().freq_mhz as nat
        } else {
            before
        }
    }
}

/// The name of the cluster that speaks for all clusters of its kind.
pub open spec fn primary_label(prefix: char) -> Seq<char> {
    seq![prefix] + "-Cluster"@
}

/// The first cluster that carries `label`.
pub open spec fn first_named(clusters: Seq<ClusterData>, label: Seq<char>) -> Option<ClusterData>
    decreases clusters.len(),
{
    if clusters.len() == 0 {
        None
    } else if clusters.first().name@ == label {
        Some(clusters.first())
    } else {
        first_named(clusters.drop_first(), label)
    }
}

/// `n`, unless it is zero.
pub open spec fn nonzero(n: nat) -> Option<nat> {
    if n > 0 {
        Some(n)
    } else {
        None
    }
}

/// What the clusters themselves say of their activity and frequency: the
/// primary cluster speaks alone; without it, the matching clusters give their
/// mean activity and their top frequency. A figure of zero counts as missing.
pub open spec fn cluster_figures(clusters: Seq<ClusterData>, prefix: char) -> (
    Option<nat>,
    Option<nat>,
) {
    let found = matching(clusters, prefix);
    match first_named(clusters, primary_label(prefix)) {
        Some(primary) => (nonzero(primary.active_pct as nat), nonzero(primary.freq_mhz as nat)),
        None => if found.len() == 0 {
            (None, None)
        } else {
            (
                if cluster_activity(found) > 0 {
                    Some(cluster_activity(found) / found.len())
                } else {
                    None
                },
                nonzero(top_cluster_freq(found)),
            )
        },
    }
}

/// An optional figure as a natural number.
pub open spec fn widened(figure: Option<u64>) -> Option<nat> {
    match figure {
        Some(n) => Some(n as nat),
        None => None,
    }
}

/// Whether [`cluster_figures`] has to add up activity, and the sum fits.
pub open spec fn clusters_fit(clusters: Seq<ClusterData>, prefix: char) -> bool {
    first_named(clusters, primary_label(prefix)) is None ==> cluster_activity(
        matching(clusters, prefix),
    ) <= u64::MAX
}

/// The activity and frequency shown for one kind of cluster: the mean of the
/// cores where it is not zero, else what the clusters say; and the frequency
/// that the clusters say, else that of the fastest core.
pub open spec fn combined_figures(
    clusters: Seq<ClusterData>,
    cores: Seq<CoreMetrics>,
    prefix: char,
) -> (nat, nat) {
    let (cluster_active, cluster_freq) = cluster_figures(clusters, prefix);
    (
        if mean_core_activity(cores) > 0 {
            mean_core_activity(cores)
        } else {
            cluster_active.unwrap_or(0)
        },
        cluster_freq.unwrap_or(top_core_freq(cores)),
    )
}

proof fn lemma_core_activity_prefix(cores: Seq<CoreMetrics>, n: int)
    requires
        0 <= n <= cores.len(),
    ensures
        core_activity(cores.take(n)) <= core_activity(cores),
    decreases cores.len() - n,
{
    if n < cores.len() {
        lemma_core_activity_prefix(cores, n + 1);
        assert(cores.take(n + 1).drop_last() =~= cores.take(n));
    } else {
        assert(cores.take(n) =~= cores);
    }
}

/// The sum of the cores' activity, if it fits.
fn core_sum(cores: &[CoreMetrics]) -> (res: Option<u64>)
    ensures
        widened(res) == (if core_activity(cores@) <= u64::MAX {
            Some(core_activity(cores@))
        } else {
            None
        }),
{
    let mut sum: u64 = 0;
    let mut i: usize = 0;
    while i < cores.len()
        invariant
            i <= cores.len(),
            sum == core_activity(cores@.take(i as int)),
        decreases cores.len() - i,
    {
        proof {
            assert(cores@.take(i + 1).drop_last() =~= cores@.take(i as int));
            lemma_core_activity_prefix(cores@, i + 1);
        }
        match sum.checked_add(cores[i].active_pct) {
            Some(next) => {
                sum = next;
            },
            None => {
                return None;
            },
        }
        i += 1;
    }
    assert(cores@.take(i as int) =~= cores@);
    Some(sum)
}

/// The mean activity of the cores, rounded down; zero without cores.
pub fn core_average(cores: &[CoreMetrics]) -> (res: u64)
    requires
        core_activity(cores@) <= u64::MAX,
    ensures
        res == mean_core_activity(cores@),
{
    if cores.len() == 0 {
        0
    } else {
        let sum: u64 = core_sum(cores).unwrap();
        sum / cores.len() as u64
    }
}

/// The highest frequency of the cores; zero without cores.
pub fn core_max_freq(cores: &[CoreMetrics]) -> (res: u64)
    ensures
        res == top_core_freq(cores@),
{
    let mut top: u64 = 0;
    let mut i: usize = 0;
    while i < cores.len()
        invariant
            i <= cores.len(),
            top == top_core_freq(cores@.take(i as int)),
        decreases cores.len() - i,
    {
        assert(cores@.take(i + 1).drop_last() =~= cores@.take(i as int));
        if cores[i].freq_mhz > top {
            top = cores[i].freq_mhz;
        }
        i += 1;
    }
    assert(cores@.take(i as int) =~= cores@);
    top
}

/// Whether `name` begins with `prefix`.
fn name_begins_with(name: &str, prefix: char) -> (res: bool)
    ensures
        res == begins_with(name@, prefix),
{
    match first_char(name) {
        Some(c) => c == prefix,
        None => false,
    }
}

/// Whether `name` is the label of the primary cluster.
fn is_primary(name: &str, prefix: char) -> (res: bool)
    ensures
        res == (name@ == primary_label(prefix)),
{
    if !name_begins_with(name, prefix) {
        assert(primary_label(prefix)[0] == prefix);
        return false;
    }
    let tail = name.substring_char(1, name.unicode_len());
    assert(name@ =~= seq![prefix] + tail@);
    assert(primary_label(prefix).subrange(1, primary_label(prefix).len() as int) =~= "-Cluster"@);
    same_text(tail, "-Cluster")
}

proof fn lemma_matching_prefix(clusters: Seq<ClusterData>, prefix: char, n: int)
    requires
        0 <= n <= clusters.len(),
    ensures
        cluster_activity(matching(clusters.take(n), prefix)) <= cluster_activity(
            matching(clusters, prefix),
        ),
        matching(clusters.take(n), prefix).len() <= n,
    decreases clusters.len() - n,
{
    lemma_matching_len(clusters.take(n), prefix);
    if n < clusters.len() {
        lemma_matching_prefix(clusters, prefix, n + 1);
        let next = clusters.take(n + 1);
        assert(next.drop_last() =~= clusters.take(n));
        assert(matching(next, prefix).drop_last() =~= matching(clusters.take(n), prefix) || matching(
            next,
            prefix,
        ) == matching(clusters.take(n), prefix));
    } else {
        assert(clusters.take(n) =~= clusters);
    }
}

proof fn lemma_matching_len(clusters: Seq<ClusterData>, prefix: char)
    ensures
        matching(clusters, prefix).len() <= clusters.len(),
    decreases clusters.len(),
{
    if clusters.len() > 0 {
        lemma_matching_len(clusters.drop_last(), prefix);
    }
}

/// `n`, unless it is zero.
fn positive(n: u64) -> (res: Option<u64>)
    ensures
        widened(res) == nonzero(n as nat),
{
    if n > 0 {
        Some(n)
    } else {
        None
    }
}

/// The place of the first cluster that carries the primary label.
fn find_primary(clusters: &[ClusterData], prefix: char) -> (res: Option<usize>)
    ensures
        match res {
            Some(i) => i < clusters.len() && first_named(clusters@, primary_label(prefix)) == Some(
                clusters@[i as int],
            ),
            None => first_named(clusters@, primary_label(prefix)) is None,
        },
{
    let ghost label = primary_label(prefix);
    assert(clusters@.skip(0) =~= clusters@);
    let mut i: usize = 0;
    while i < clusters.len()
        invariant
            i <= clusters.len(),
            label == primary_label(prefix),
            first_named(clusters@, label) == first_named(clusters@.skip(i as int), label),
        decreases clusters.len() - i,
    {
        assert(clusters@.skip(i as int).drop_first() =~= clusters@.skip(i + 1));
        if is_primary(clusters[i].name.as_str(), prefix) {
            return Some(i);
        }
        i += 1;
    }
    None
}

/// How many clusters match `prefix`, the sum of their activity and their top
/// frequency, if the sum fits.
fn matching_totals(clusters: &[ClusterData], prefix: char) -> (res: Option<(u64, u64, u64)>)
    ensures
        match res {
            Some((count, sum, top)) => {
                let found = matching(clusters@, prefix);
                &&& count == found.len()
                &&& sum == cluster_activity(found)
                &&& top == top_cluster_freq(found)
            },
            None => cluster_activity(matching(clusters@, prefix)) > u64::MAX,
        },
{
    let mut count: u64 = 0;
    let mut sum: u64 = 0;
    let mut top: u64 = 0;
    let mut k: usize = 0;
    while k < clusters.len()
        invariant
            k <= clusters.len(),
            count == matching(clusters@.take(k as int), prefix).len(),
            sum == cluster_activity(matching(clusters@.take(k as int), prefix)),
            top == top_cluster_freq(matching(clusters@.take(k as int), prefix)),
        decreases clusters.len() - k,
    {
        let ghost found = matching(clusters@.take(k as int), prefix);
        proof {
            assert(clusters@.take(k + 1).drop_last() =~= clusters@.take(k as int));
            lemma_matching_prefix(clusters@, prefix, k + 1);
            assert(found.push(clusters@[k as int]).drop_last() =~= found);
        }
        if name_begins_with(clusters[k].name.as_str(), prefix) {
            count += 1;
            match sum.checked_add(clusters[k].active_pct) {
                Some(next) => {
                    sum = next;
                },
                None => {
                    return None;
                },
            }
            if clusters[k].freq_mhz > top {
                top = clusters[k].freq_mhz;
            }
        }
        k += 1;
    }
    assert(clusters@.take(k as int) =~= clusters@);
    Some((count, sum, top))
}

/// What the clusters themselves say of their activity and frequency.
pub fn cluster_stats(clusters: &[ClusterData], prefix: char) -> (res: (Option<u64>, Option<u64>))
    requires
        clusters_fit(clusters@, prefix),
    ensures
        (widened(res.0), widened(res.1)) == cluster_figures(clusters@, prefix),
{
    if let Some(i) = find_primary(clusters, prefix) {
        return (positive(clusters[i].active_pct), positive(clusters[i].freq_mhz));
    }
    let (count, sum, top) = matching_totals(clusters, prefix).unwrap();
    if count > 0 {
        let active: Option<u64> = if sum > 0 {
            Some(sum / count)
        } else {
            None
        };
        (active, positive(top))
    } else {
        (None, None)
    }
}

/// The activity and frequency shown for one kind of cluster.
pub fn aggregate_cluster(clusters: &[ClusterData], cores: &[CoreMetrics], prefix: char) -> (res: (
    u64,
    u64,
))
    requires
        core_activity(cores@) <= u64::MAX,
        clusters_fit(clusters@, prefix),
    ensures
        res.0 == combined_figures(clusters@, cores@, prefix).0,
        res.1 == combined_figures(clusters@, cores@, prefix).1,
{
    let core_avg: u64 = core_average(cores);
    let core_freq: u64 = core_max_freq(cores);
    let (cluster_active, cluster_freq) = cluster_stats(clusters, prefix);

    let active: u64 = if core_avg > 0 {
        core_avg
    } else {
        cluster_active.unwrap_or(0)
    };

    let freq: u64 = cluster_freq.unwrap_or(core_freq);

    (active, freq)
}

/// The clusters and cores of a report, sorted by kind.
pub struct Sorted {
    pub e_clusters: Vec<ClusterData>,
    pub p_clusters: Vec<ClusterData>,
    pub e_cores: Vec<CoreMetrics>,
    pub p_cores: Vec<CoreMetrics>,
}

/// Sorts clusters and their cores by the first letter of the cluster's name.
/// Cores of a cluster of neither kind are listed with the performance cores.
pub fn sort_clusters(clusters: &[RawCluster]) -> (res: Sorted)
    ensures
        res.e_clusters@ == efficiency_clusters(clusters@),
        res.p_clusters@ == performance_clusters(clusters@),
        res.e_cores@ == efficiency_cores(clusters@),
        res.p_cores@ == other_cores(clusters@),
{
    let mut e_clusters: Vec<ClusterData> = Vec::new();
    let mut p_clusters: Vec<ClusterData> = Vec::new();
    let mut e_cores: Vec<CoreMetrics> = Vec::new();
    let mut p_cores: Vec<CoreMetrics> = Vec::new();
    let mut i: usize = 0;
    while i < clusters.len()
        invariant
            i <= clusters.len(),
            e_clusters@ == efficiency_clusters(clusters@.take(i as int)),
            p_clusters@ == performance_clusters(clusters@.take(i as int)),
            e_cores@ == efficiency_cores(clusters@.take(i as int)),
            p_cores@ == other_cores(clusters@.take(i as int)),
        decreases clusters.len() - i,
    {
        assert(clusters@.take(i + 1).drop_last() =~= clusters@.take(i as int));
        let cluster = &clusters[i];
        let name = cluster.name.as_str();
        let is_e: bool = name_begins_with(name, 'E') || name_begins_with(name, 'e');
        if is_e {
            e_clusters.push(
                ClusterData {
                    name: cluster.name.clone(),
                    active_pct: cluster.active_pct,
                    freq_mhz: cluster.freq_mhz,
                },
            );
        } else if name_begins_with(name, 'P') || name_begins_with(name, 'p') {
            p_clusters.push(
                ClusterData {
                    name: cluster.name.clone(),
                    active_pct: cluster.active_pct,
                    freq_mhz: cluster.freq_mhz,
                },
            );
        }
        if is_e {
            push_cores(&mut e_cores, cluster.cpus.as_slice());
        } else {
            push_cores(&mut p_cores, cluster.cpus.as_slice());
        }
        i += 1;
    }
    assert(clusters@.take(i as int) =~= clusters@);
    Sorted { e_clusters, p_clusters, e_cores, p_cores }
}

/// Appends all of `more` to `cores`.
fn push_cores(cores: &mut Vec<CoreMetrics>, more: &[CoreMetrics])
    ensures
        final(cores)@ == old(cores)@ + more@,
{
    let ghost before = cores@;
    let mut i: usize = 0;
    while i < more.len()
        invariant
            i <= more.len(),
            cores@ =~= before + more@.take(i as int),
        decreases more.len() - i,
    {
        cores.push(more[i]);
        i += 1;
    }
    assert(more@.take(i as int) =~= more@);
}

impl<W> RawSnapshot<W> {
    /// Whether every sum of activity that the snapshot calls for fits its
    /// type.
    pub open spec fn fits_spec(&self) -> bool {
        &&& core_activity(efficiency_cores(self.clusters@)) <= u64::MAX
        &&& core_activity(other_cores(self.clusters@)) <= u64::MAX
        &&& clusters_fit(efficiency_clusters(self.clusters@), 'E')
        &&& clusters_fit(performance_clusters(self.clusters@), 'P')
    }

    /// Tells whether the snapshot can be converted.
    pub fn fits(&self) -> (res: bool)
        ensures
            res == self.fits_spec(),
    {
        let sorted = sort_clusters(self.clusters.as_slice());
        core_sum(sorted.e_cores.as_slice()).is_some() && core_sum(
            sorted.p_cores.as_slice(),
        ).is_some() && (find_primary(sorted.e_clusters.as_slice(), 'E').is_some()
            || matching_totals(sorted.e_clusters.as_slice(), 'E').is_some()) && (find_primary(
            sorted.p_clusters.as_slice(),
            'P',
        ).is_some() || matching_totals(sorted.p_clusters.as_slice(), 'P').is_some())
    }
}

/// What a snapshot becomes: its clusters and cores are sorted by kind and
/// summed up, and everything else is carried over.
pub open spec fn reading_of<W>(raw: RawSnapshot<W>, reading: PowermetricsReading<W>) -> bool {
    let clusters = raw.clusters@;
    let e = combined_figures(efficiency_clusters(clusters), efficiency_cores(clusters), 'E');
    let p = combined_figures(performance_clusters(clusters), other_cores(clusters), 'P');
    &&& reading.timestamp == raw.timestamp
    &&& reading.thermal_pressure@ == raw.thermal_pressure@
    &&& reading.gpu == raw.gpu
    &&& reading.cpu.e_cluster_active == e.0
    &&& reading.cpu.e_cluster_freq_mhz == e.1
    &&& reading.cpu.p_cluster_active == p.0
    &&& reading.cpu.p_cluster_freq_mhz == p.1
    &&& reading.cpu.e_cores@ == efficiency_cores(clusters)
    &&& reading.cpu.p_cores@ == other_cores(clusters)
    &&& reading.cpu.cpu_w == raw.cpu_w
    &&& reading.cpu.gpu_w == raw.gpu_w
    &&& reading.cpu.ane_w == raw.ane_w
    &&& reading.cpu.package_w == raw.package_w
}

/// Turns a decoded snapshot into a reading.
pub fn convert_snapshot<W>(raw: RawSnapshot<W>) -> (res: PowermetricsReading<W>)
    requires
        raw.fits_spec(),
    ensures
        reading_of(raw, res),
{
    let sorted = sort_clusters(raw.clusters.as_slice());
    let (e_active, e_freq) = aggregate_cluster(
        sorted.e_clusters.as_slice(),
        sorted.e_cores.as_slice(),
        'E',
    );
    let (p_active, p_freq) = aggregate_cluster(
        sorted.p_clusters.as_slice(),
        sorted.p_cores.as_slice(),
        'P',
    );
    PowermetricsReading {
        timestamp: raw.timestamp,
        thermal_pressure: raw.thermal_pressure,
        cpu: CpuMetrics {
            e_cluster_active: e_active,
            e_cluster_freq_mhz: e_freq,
            p_cluster_active: p_active,
            p_cluster_freq_mhz: p_freq,
            e_cores: sorted.e_cores,
            p_cores: sorted.p_cores,
            cpu_w: raw.cpu_w,
            gpu_w: raw.gpu_w,
            ane_w: raw.ane_w,
            package_w: raw.package_w,
        },
        gpu: raw.gpu,
    }
}

/// All cores of a report, in its order.
pub open spec fn all_cores(clusters: Seq<RawCluster>) -> Seq<CoreMetrics>
    decreases clusters.len(),
{
    if clusters.len() == 0 {
        seq![]
    } else {
        all_cores(clusters.drop_last()) + clusters.last().cpus@
    }
}

/// Sorting loses no core, invents none and repeats none.
pub proof fn law_every_core_is_listed_once(clusters: Seq<RawCluster>)
    ensures
        efficiency_cores(clusters).to_multiset().add(other_cores(clusters).to_multiset())
            == all_cores(clusters).to_multiset(),
        efficiency_cores(clusters).len() + other_cores(clusters).len() == all_cores(clusters).len(),
    decreases clusters.len(),
{
    broadcast use vstd::multiset::group_multiset_axioms;

    if clusters.len() == 0 {
        all_cores(clusters).to_multiset_ensures();
        assert(efficiency_cores(clusters).to_multiset().add(other_cores(clusters).to_multiset())
            =~= all_cores(clusters).to_multiset());
    } else {
        let before = clusters.drop_last();
        let cpus = clusters.last().cpus@;
        law_every_core_is_listed_once(before);
        vstd::seq_lib::lemma_multiset_commutative(all_cores(before), cpus);
        vstd::seq_lib::lemma_multiset_commutative(efficiency_cores(before), cpus);
        vstd::seq_lib::lemma_multiset_commutative(other_cores(before), cpus);
        assert(efficiency_cores(clusters).to_multiset().add(other_cores(clusters).to_multiset())
            =~= all_cores(clusters).to_multiset());
    }
}

proof fn lemma_mean_bound(sum: nat, count: nat, bound: nat)
    requires
        count > 0,
        sum <= bound * count,
    ensures
        sum / count <= bound,
{
    assert(sum / count <= bound) by (nonlinear_arith)
        requires
            count > 0,
            sum <= bound * count,
    ;
}

proof fn lemma_core_activity_bound(cores: Seq<CoreMetrics>, bound: nat)
    requires
        forall|i: int| 0 <= i < cores.len() ==> (#[trigger] cores[i]).active_pct <= bound,
    ensures
        core_activity(cores) <= bound * cores.len(),
    decreases cores.len(),
{
    if cores.len() > 0 {
        lemma_core_activity_bound(cores.drop_last(), bound);
        assert(cores.last() == cores[cores.len() - 1]);
        assert(bound * cores.len() == bound * (cores.len() - 1) + bound) by (nonlinear_arith)
            requires
                cores.len() > 0,
        ;
    }
}

proof fn lemma_cluster_activity_bound(clusters: Seq<ClusterData>, prefix: char, bound: nat)
    requires
        forall|i: int| 0 <= i < clusters.len() ==> (#[trigger] clusters[i]).active_pct <= bound,
    ensures
        cluster_activity(matching(clusters, prefix)) <= bound * matching(clusters, prefix).len(),
    decreases clusters.len(),
{
    if clusters.len() > 0 {
        let before = matching(clusters.drop_last(), prefix);
        lemma_cluster_activity_bound(clusters.drop_last(), prefix, bound);
        assert(clusters.last() == clusters[clusters.len() - 1]);
        if begins_with(clusters.last().name@, prefix) {
            assert(before.push(clusters.last()).drop_last() =~= before);
            assert(bound * (before.len() + 1) == bound * before.len() + bound) by (nonlinear_arith);
        }
    }
}

proof fn lemma_first_named_is_listed(clusters: Seq<ClusterData>, label: Seq<char>)
    ensures
        first_named(clusters, label) matches Some(c) ==> clusters.contains(c) && c.name@ == label,
    decreases clusters.len(),
{
    if clusters.len() > 0 {
        if clusters.first().name@ == label {
            assert(clusters[0] == clusters.first());
        } else {
            lemma_first_named_is_listed(clusters.drop_first(), label);
            if let Some(c) = first_named(clusters.drop_first(), label) {
                let i = choose|i: int|
                    0 <= i < clusters.drop_first().len() && clusters.drop_first()[i] == c;
                assert(clusters[i + 1] == c);
            }
        }
    }
}

/// Summing up stays within the scale of what is summed: where no core and no
/// cluster is more than `bound` percent active, neither is the figure shown.
pub proof fn law_activity_stays_in_scale(
    clusters: Seq<ClusterData>,
    cores: Seq<CoreMetrics>,
    prefix: char,
    bound: nat,
)
    requires
        forall|i: int| 0 <= i < clusters.len() ==> (#[trigger] clusters[i]).active_pct <= bound,
        forall|i: int| 0 <= i < cores.len() ==> (#[trigger] cores[i]).active_pct <= bound,
    ensures
        combined_figures(clusters, cores, prefix).0 <= bound,
{
    lemma_core_activity_bound(cores, bound);
    if cores.len() > 0 {
        lemma_mean_bound(core_activity(cores), cores.len(), bound);
    }
    lemma_first_named_is_listed(clusters, primary_label(prefix));
    lemma_cluster_activity_bound(clusters, prefix, bound);
    let found = matching(clusters, prefix);
    if found.len() > 0 {
        lemma_mean_bound(cluster_activity(found), found.len(), bound);
    }
}

/// The top frequency of the cores is reached by no core from above, and by
/// some core exactly, unless it is zero.
pub proof fn law_top_core_freq_is_the_maximum(cores: Seq<CoreMetrics>)
    ensures
        forall|i: int| 0 <= i < cores.len() ==> (#[trigger] cores[i]).freq_mhz <= top_core_freq(cores),
        top_core_freq(cores) > 0 ==> exists|i: int|
            0 <= i < cores.len() && (#[trigger] cores[i]).freq_mhz == top_core_freq(cores),
    decreases cores.len(),
{
    if cores.len() > 0 {
        let before = cores.drop_last();
        law_top_core_freq_is_the_maximum(before);
        assert(cores[cores.len() - 1] == cores.last());
        assert forall|i: int| 0 <= i < cores.len() implies (#[trigger] cores[i]).freq_mhz
            <= top_core_freq(cores) by {
            if i < before.len() {
                assert(before[i] == cores[i]);
            }
        }
        if top_core_freq(cores) > 0 && cores.last().freq_mhz <= top_core_freq(before) {
            let i = choose|i: int|
                0 <= i < before.len() && (#[trigger] before[i]).freq_mhz == top_core_freq(before);
            assert(cores[i] == before[i]);
        }
    }
}

proof fn lemma_top_cluster_freq_is_listed(clusters: Seq<ClusterData>, prefix: char)
    ensures
        top_cluster_freq(matching(clusters, prefix)) > 0 ==> exists|i: int|
            0 <= i < clusters.len() && begins_with((#[trigger] clusters[i]).name@, prefix)
                && clusters[i].freq_mhz == top_cluster_freq(matching(clusters, prefix)),
    decreases clusters.len(),
{
    if clusters.len() > 0 {
        let before = clusters.drop_last();
        lemma_top_cluster_freq_is_listed(before, prefix);
        let found = matching(before, prefix);
        assert(clusters[clusters.len() - 1] == clusters.last());
        assert(found.push(clusters.last()).drop_last() =~= found);
        let top = top_cluster_freq(matching(clusters, prefix));
        if top > 0 && top == top_cluster_freq(found) {
            let i = choose|i: int|
                0 <= i < before.len() && begins_with((#[trigger] before[i]).name@, prefix)
                    && before[i].freq_mhz == top;
            assert(clusters[i] == before[i]);
        }
    }
}

/// A frequency shown is one that was reported: that of a cluster whose name
/// begins with the prefix, or that of a core, unless it is zero.
pub proof fn law_frequency_is_reported(
    clusters: Seq<ClusterData>,
    cores: Seq<CoreMetrics>,
    prefix: char,
)
    ensures
        ({
            let shown = combined_figures(clusters, cores, prefix).1;
            ||| shown == 0
            ||| exists|i: int|
                0 <= i < clusters.len() && begins_with((#[trigger] clusters[i]).name@, prefix)
                    && clusters[i].freq_mhz == shown
            ||| exists|i: int| 0 <= i < cores.len() && (#[trigger] cores[i]).freq_mhz == shown
        }),
{
    law_top_core_freq_is_the_maximum(cores);
    lemma_top_cluster_freq_is_listed(clusters, prefix);
    lemma_first_named_is_listed(clusters, primary_label(prefix));
    if let Some(primary) = first_named(clusters, primary_label(prefix)) {
        let i = choose|i: int| 0 <= i < clusters.len() && clusters[i] == primary;
        assert(clusters[i].freq_mhz == primary.freq_mhz);
        assert(primary_label(prefix)[0] == prefix);
    }
}

proof fn lemma_sorted_within_bound(clusters: Seq<RawCluster>, bound: nat)
    requires
        forall|i: int| 0 <= i < clusters.len() ==> cluster_within(#[trigger] clusters[i], bound),
    ensures
        forall|i: int|
            0 <= i < efficiency_clusters(clusters).len() ==> (
            #[trigger] efficiency_clusters(clusters)[i]).active_pct <= bound,
        forall|i: int|
            0 <= i < performance_clusters(clusters).len() ==> (
            #[trigger] performance_clusters(clusters)[i]).active_pct <= bound,
        forall|i: int|
            0 <= i < efficiency_cores(clusters).len() ==> (
            #[trigger] efficiency_cores(clusters)[i]).active_pct <= bound,
        forall|i: int|
            0 <= i < other_cores(clusters).len() ==> (
            #[trigger] other_cores(clusters)[i]).active_pct <= bound,
    decreases clusters.len(),
{
    if clusters.len() > 0 {
        let before = clusters.drop_last();
        assert forall|i: int| 0 <= i < before.len() implies cluster_within(
            #[trigger] before[i],
            bound,
        ) by {
            assert(before[i] == clusters[i]);
        }
        lemma_sorted_within_bound(before, bound);
        assert(cluster_within(clusters[clusters.len() - 1], bound));
        assert forall|i: int| 0 <= i < efficiency_clusters(clusters).len() implies (
        #[trigger] efficiency_clusters(clusters)[i]).active_pct <= bound by {
            if i < efficiency_clusters(before).len() {
                assert(efficiency_clusters(before)[i] == efficiency_clusters(clusters)[i]);
            }
        }
        assert forall|i: int| 0 <= i < performance_clusters(clusters).len() implies (
        #[trigger] performance_clusters(clusters)[i]).active_pct <= bound by {
            if i < performance_clusters(before).len() {
                assert(performance_clusters(before)[i] == performance_clusters(clusters)[i]);
            }
        }
        let cpus = clusters.last().cpus@;
        assert forall|i: int| 0 <= i < efficiency_cores(clusters).len() implies (
        #[trigger] efficiency_cores(clusters)[i]).active_pct <= bound by {
            let n = efficiency_cores(before).len() as int;
            if i < n {
                assert(efficiency_cores(before)[i] == efficiency_cores(clusters)[i]);
            } else {
                assert(cpus[i - n] == efficiency_cores(clusters)[i]);
            }
        }
        assert forall|i: int| 0 <= i < other_cores(clusters).len() implies (
        #[trigger] other_cores(clusters)[i]).active_pct <= bound by {
            let n = other_cores(before).len() as int;
            if i < n {
                assert(other_cores(before)[i] == other_cores(clusters)[i]);
            } else {
                assert(cpus[i - n] == other_cores(clusters)[i]);
            }
        }
    }
}

/// Whether neither the cluster nor any of its cores is more than `bound`
/// percent active.
pub open spec fn cluster_within(cluster: RawCluster, bound: nat) -> bool {
    &&& cluster.active_pct <= bound
    &&& forall|i: int|
        0 <= i < cluster.cpus@.len() ==> (#[trigger] cluster.cpus@[i]).active_pct <= bound
}

/// A reading stays within the scale of its snapshot: where nothing reported
/// is more than `bound` percent active, no cluster or core of the reading is,
/// nor its graphics processor.
pub proof fn law_reading_stays_in_scale<W>(
    raw: RawSnapshot<W>,
    reading: PowermetricsReading<W>,
    bound: nat,
)
    requires
        reading_of(raw, reading),
        forall|i: int| 0 <= i < raw.clusters@.len() ==> cluster_within(#[trigger] raw.clusters@[i], bound),
        raw.gpu.active_pct <= bound,
    ensures
        reading.cpu.e_cluster_active <= bound,
        reading.cpu.p_cluster_active <= bound,
        forall|i: int|
            0 <= i < reading.cpu.e_cores@.len() ==> (
            #[trigger] reading.cpu.e_cores@[i]).active_pct <= bound,
        forall|i: int|
            0 <= i < reading.cpu.p_cores@.len() ==> (
            #[trigger] reading.cpu.p_cores@[i]).active_pct <= bound,
        reading.gpu.active_pct <= bound,
{
    let clusters = raw.clusters@;
    lemma_sorted_within_bound(clusters, bound);
    law_activity_stays_in_scale(
        efficiency_clusters(clusters),
        efficiency_cores(clusters),
        'E',
        bound,
    );
    law_activity_stays_in_scale(performance_clusters(clusters), other_cores(clusters), 'P', bound);
}

/// Adding up by a fold is adding up the cores' activity.
proof fn lemma_fold_is_core_activity(cores: Seq<CoreMetrics>, f: spec_fn(int, CoreMetrics) -> int)
    requires
        forall|sum: int, core: CoreMetrics| #[trigger] f(sum, core) == sum + core.active_pct,
    ensures
        cores.fold_left(0, f) == core_activity(cores),
    decreases cores.len(),
{
    if cores.len() > 0 {
        lemma_fold_is_core_activity(cores.drop_last(), f);
    }
}

/// A quotient, multiplied back, falls short of what was divided by less than
/// the divisor.
proof fn lemma_quotient(sum: nat, count: nat)
    by (nonlinear_arith)
    requires
        count > 0,
    ensures
        (sum / count) * count <= sum < (sum / count + 1) * count,
{
}

/// The average of the cores is their mean, rounded down: as often as there are
/// cores, it is no more than the activity of all of them together, and one
/// more would be too much. Without cores it is zero.
pub proof fn law_core_average_is_the_mean(cores: &[CoreMetrics], mean: u64)
    requires
        call_ensures(core_average, (cores,), mean),
    ensures
        cores@.len() == 0 ==> mean == 0,
        cores@.len() > 0 ==> mean * cores@.len() <= cores@.fold_left(
            0,
            |sum: int, core: CoreMetrics| sum + core.active_pct,
        ) < (mean + 1) * cores@.len(),
{
    lemma_fold_is_core_activity(cores@, |sum: int, core: CoreMetrics| sum + core.active_pct);
    if cores@.len() > 0 {
        lemma_quotient(core_activity(cores@), cores@.len());
    }
}

/// The average of the cores does not depend on their order.
pub proof fn law_core_average_ignores_the_order(
    cores: &[CoreMetrics],
    others: &[CoreMetrics],
    mean: u64,
    other_mean: u64,
)
    requires
        call_ensures(core_average, (cores,), mean),
        call_ensures(core_average, (others,), other_mean),
        cores@.to_multiset() == others@.to_multiset(),
    ensures
        mean == other_mean,
{
    let f = |sum: int, core: CoreMetrics| sum + core.active_pct;
    lemma_fold_is_core_activity(cores@, f);
    lemma_fold_is_core_activity(others@, f);
    vstd::seq_lib::lemma_fold_left_permutation(cores@, others@, f, 0);
    cores@.to_multiset_ensures();
    others@.to_multiset_ensures();
}

proof fn lemma_core_activity_update(cores: Seq<CoreMetrics>, i: int, core: CoreMetrics)
    requires
        0 <= i < cores.len(),
    ensures
        core_activity(cores.update(i, core)) == core_activity(cores) - cores[i].active_pct
            + core.active_pct,
    decreases cores.len(),
{
    let updated = cores.update(i, core);
    if i == cores.len() - 1 {
        assert(updated.drop_last() =~= cores.drop_last());
    } else {
        assert(updated.drop_last() =~= cores.drop_last().update(i, core));
        lemma_core_activity_update(cores.drop_last(), i, core);
    }
}

/// Every core weighs the same: where one of `n` cores is `n` percent more
/// active and the others stay as they are, the average is one percent higher.
pub proof fn law_every_core_weighs_the_same(
    cores: &[CoreMetrics],
    raised: &[CoreMetrics],
    i: int,
    core: CoreMetrics,
    mean: u64,
    raised_mean: u64,
)
    requires
        call_ensures(core_average, (cores,), mean),
        call_ensures(core_average, (raised,), raised_mean),
        0 <= i < cores@.len(),
        raised@ == cores@.update(i, core),
        core.active_pct == cores@[i].active_pct + cores@.len(),
    ensures
        raised_mean == mean + 1,
{
    lemma_core_activity_update(cores@, i, core);
    let sum = core_activity(cores@);
    let n = cores@.len();
    assert((sum + n) / n == sum / n + 1) by (nonlinear_arith)
        requires
            n > 0,
    ;
}

/// The top frequency is that of a core that no core outdoes; without cores,
/// or where all stand still, it is zero.
pub proof fn law_core_max_freq_is_the_maximum(cores: &[CoreMetrics], top: u64)
    requires
        call_ensures(core_max_freq, (cores,), top),
    ensures
        forall|i: int| 0 <= i < cores@.len() ==> (#[trigger] cores@[i]).freq_mhz <= top,
        top > 0 ==> exists|i: int| 0 <= i < cores@.len() && (#[trigger] cores@[i]).freq_mhz == top,
{
    law_top_core_freq_is_the_maximum(cores@);
}

proof fn lemma_first_named_at(clusters: Seq<ClusterData>, label: Seq<char>, i: int)
    requires
        0 <= i < clusters.len(),
        clusters[i].name@ == label,
        forall|j: int| 0 <= j < i ==> (#[trigger] clusters[j]).name@ != label,
    ensures
        first_named(clusters, label) == Some(clusters[i]),
    decreases i,
{
    if i > 0 {
        let rest = clusters.drop_first();
        assert(clusters[0].name@ != label);
        assert forall|j: int| 0 <= j < i - 1 implies (#[trigger] rest[j]).name@ != label by {
            assert(rest[j] == clusters[j + 1]);
        }
        lemma_first_named_at(rest, label, i - 1);
    }
}

/// The first cluster that is called by the prefix and `-Cluster` speaks alone:
/// what other clusters report does not matter. A figure of zero is missing.
pub proof fn law_primary_cluster_speaks_alone(
    clusters: &[ClusterData],
    prefix: char,
    i: int,
    figures: (Option<u64>, Option<u64>),
)
    requires
        call_ensures(cluster_stats, (clusters, prefix), figures),
        0 <= i < clusters@.len(),
        clusters@[i].name@ == seq![prefix] + "-Cluster"@,
        forall|j: int|
            0 <= j < i ==> (#[trigger] clusters@[j]).name@ != seq![prefix] + "-Cluster"@,
    ensures
        clusters@[i].active_pct == 0 ==> figures.0 is None,
        clusters@[i].active_pct > 0 ==> figures.0 == Some(clusters@[i].active_pct),
        clusters@[i].freq_mhz == 0 ==> figures.1 is None,
        clusters@[i].freq_mhz > 0 ==> figures.1 == Some(clusters@[i].freq_mhz),
{
    lemma_first_named_at(clusters@, seq![prefix] + "-Cluster"@, i);
}

proof fn lemma_none_named(clusters: Seq<ClusterData>, label: Seq<char>)
    requires
        forall|j: int| 0 <= j < clusters.len() ==> (#[trigger] clusters[j]).name@ != label,
    ensures
        first_named(clusters, label) is None,
    decreases clusters.len(),
{
    if clusters.len() > 0 {
        let rest = clusters.drop_first();
        assert(clusters[0].name@ != label);
        assert forall|j: int| 0 <= j < rest.len() implies (#[trigger] rest[j]).name@ != label by {
            assert(rest[j] == clusters[j + 1]);
        }
        lemma_none_named(rest, label);
    }
}

proof fn lemma_matching_is_filtered(
    clusters: Seq<ClusterData>,
    prefix: char,
    keep: spec_fn(ClusterData) -> bool,
)
    requires
        forall|c: ClusterData| #[trigger] keep(c) == (c.name@.len() > 0 && c.name@[0] == prefix),
    ensures
        clusters.filter(keep) == matching(clusters, prefix),
    decreases clusters.len(),
{
    reveal(Seq::filter);
    if clusters.len() > 0 {
        lemma_matching_is_filtered(clusters.drop_last(), prefix, keep);
    } else {
        assert(clusters.filter(keep) =~= matching(clusters, prefix));
    }
}

proof fn lemma_fold_is_cluster_activity(
    clusters: Seq<ClusterData>,
    f: spec_fn(int, ClusterData) -> int,
)
    requires
        forall|sum: int, c: ClusterData| #[trigger] f(sum, c) == sum + c.active_pct,
    ensures
        clusters.fold_left(0, f) == cluster_activity(clusters),
    decreases clusters.len(),
{
    if clusters.len() > 0 {
        lemma_fold_is_cluster_activity(clusters.drop_last(), f);
    }
}

proof fn lemma_top_cluster_freq_is_the_maximum(clusters: Seq<ClusterData>)
    ensures
        forall|i: int|
            0 <= i < clusters.len() ==> (#[trigger] clusters[i]).freq_mhz <= top_cluster_freq(clusters),
        top_cluster_freq(clusters) > 0 ==> exists|i: int|
            0 <= i < clusters.len() && (#[trigger] clusters[i]).freq_mhz == top_cluster_freq(clusters),
    decreases clusters.len(),
{
    if clusters.len() > 0 {
        let before = clusters.drop_last();
        lemma_top_cluster_freq_is_the_maximum(before);
        assert(clusters[clusters.len() - 1] == clusters.last());
        assert forall|i: int| 0 <= i < clusters.len() implies (#[trigger] clusters[i]).freq_mhz
            <= top_cluster_freq(clusters) by {
            if i < before.len() {
                assert(before[i] == clusters[i]);
            }
        }
        if top_cluster_freq(clusters) > 0 && clusters.last().freq_mhz <= top_cluster_freq(before) {
            let i = choose|i: int|
                0 <= i < before.len() && (#[trigger] before[i]).freq_mhz == top_cluster_freq(before);
            assert(clusters[i] == before[i]);
        }
    }
}

/// Where no cluster is called by the prefix and `-Cluster`, the clusters whose
/// name begins with the prefix speak together: `found` of them give the mean of
/// their activity, rounded down, unless none of them is active, and the highest
/// of their frequencies, unless all of them stand still.
pub proof fn law_matching_clusters_speak_together(
    clusters: &[ClusterData],
    prefix: char,
    found: Seq<ClusterData>,
    figures: (Option<u64>, Option<u64>),
)
    requires
        call_ensures(cluster_stats, (clusters, prefix), figures),
        forall|j: int|
            0 <= j < clusters@.len() ==> (#[trigger] clusters@[j]).name@ != seq![prefix]
                + "-Cluster"@,
        found == clusters@.filter(|c: ClusterData| c.name@.len() > 0 && c.name@[0] == prefix),
    ensures
        match figures.0 {
            Some(mean) => mean * found.len() <= found.fold_left(
                0,
                |sum: int, c: ClusterData| sum + c.active_pct,
            ) < (mean + 1) * found.len() && exists|i: int|
                0 <= i < found.len() && (#[trigger] found[i]).active_pct > 0,
            None => forall|i: int| 0 <= i < found.len() ==> (#[trigger] found[i]).active_pct == 0,
        },
        match figures.1 {
            Some(top) => top > 0 && (forall|i: int|
                0 <= i < found.len() ==> (#[trigger] found[i]).freq_mhz <= top) && exists|i: int|
                0 <= i < found.len() && (#[trigger] found[i]).freq_mhz == top,
            None => forall|i: int| 0 <= i < found.len() ==> (#[trigger] found[i]).freq_mhz == 0,
        },
{
    lemma_none_named(clusters@, seq![prefix] + "-Cluster"@);
    lemma_matching_is_filtered(
        clusters@,
        prefix,
        |c: ClusterData| c.name@.len() > 0 && c.name@[0] == prefix,
    );
    lemma_fold_is_cluster_activity(found, |sum: int, c: ClusterData| sum + c.active_pct);
    lemma_top_cluster_freq_is_the_maximum(found);
    lemma_some_cluster_is_active(found);
    if found.len() > 0 {
        lemma_quotient(cluster_activity(found), found.len());
    }
}

proof fn lemma_some_cluster_is_active(clusters: Seq<ClusterData>)
    ensures
        cluster_activity(clusters) == 0 ==> forall|i: int|
            0 <= i < clusters.len() ==> (#[trigger] clusters[i]).active_pct == 0,
        cluster_activity(clusters) > 0 ==> exists|i: int|
            0 <= i < clusters.len() && (#[trigger] clusters[i]).active_pct > 0,
    decreases clusters.len(),
{
    if clusters.len() > 0 {
        let before = clusters.drop_last();
        lemma_some_cluster_is_active(before);
        assert(clusters[clusters.len() - 1] == clusters.last());
        assert forall|i: int|
            cluster_activity(clusters) == 0 && 0 <= i < clusters.len() implies (
        #[trigger] clusters[i]).active_pct == 0 by {
            if i < before.len() {
                assert(before[i] == clusters[i]);
            }
        }
        if cluster_activity(before) > 0 {
            let i = choose|i: int| 0 <= i < before.len() && (#[trigger] before[i]).active_pct > 0;
            assert(clusters[i] == before[i]);
        }
    }
}

/// The cores speak first for the activity and the clusters for the frequency:
/// where the cores' average is not zero it is shown, and else what the clusters
/// say; the frequency is what the clusters say, and where they say nothing,
/// that of the fastest core.
pub proof fn law_cores_speak_for_activity_and_clusters_for_frequency(
    clusters: &[ClusterData],
    cores: &[CoreMetrics],
    prefix: char,
    mean: u64,
    top: u64,
    figures: (Option<u64>, Option<u64>),
    shown: (u64, u64),
)
    requires
        call_ensures(core_average, (cores,), mean),
        call_ensures(core_max_freq, (cores,), top),
        call_ensures(cluster_stats, (clusters, prefix), figures),
        call_ensures(aggregate_cluster, (clusters, cores, prefix), shown),
    ensures
        mean > 0 ==> shown.0 == mean,
        mean == 0 ==> (match figures.0 {
            Some(active) => shown.0 == active,
            None => shown.0 == 0,
        }),
        match figures.1 {
            Some(freq) => shown.1 == freq,
            None => shown.1 == top,
        },
{
}

proof fn lemma_sorting_concatenates(first: Seq<RawCluster>, second: Seq<RawCluster>)
    ensures
        efficiency_clusters(first + second) == efficiency_clusters(first) + efficiency_clusters(second),
        performance_clusters(first + second) == performance_clusters(first) + performance_clusters(
            second,
        ),
        efficiency_cores(first + second) == efficiency_cores(first) + efficiency_cores(second),
        other_cores(first + second) == other_cores(first) + other_cores(second),
    decreases second.len(),
{
    if second.len() == 0 {
        assert(first + second =~= first);
    } else {
        lemma_sorting_concatenates(first, second.drop_last());
        assert((first + second).drop_last() =~= first + second.drop_last());
        assert((first + second).last() == second.last());
    }
    assert(efficiency_clusters(first + second) =~= efficiency_clusters(first) + efficiency_clusters(
        second,
    ));
    assert(performance_clusters(first + second) =~= performance_clusters(first)
        + performance_clusters(second));
    assert(efficiency_cores(first + second) =~= efficiency_cores(first) + efficiency_cores(second));
    assert(other_cores(first + second) =~= other_cores(first) + other_cores(second));
}

/// Reports are sorted cluster by cluster: two of them one after the other are
/// sorted into what each is sorted into, one after the other.
pub proof fn law_reports_are_sorted_cluster_by_cluster(
    first: &[RawCluster],
    second: &[RawCluster],
    both: &[RawCluster],
    of_first: Sorted,
    of_second: Sorted,
    of_both: Sorted,
)
    requires
        call_ensures(sort_clusters, (first,), of_first),
        call_ensures(sort_clusters, (second,), of_second),
        call_ensures(sort_clusters, (both,), of_both),
        both@ == first@ + second@,
    ensures
        of_both.e_clusters@ == of_first.e_clusters@ + of_second.e_clusters@,
        of_both.p_clusters@ == of_first.p_clusters@ + of_second.p_clusters@,
        of_both.e_cores@ == of_first.e_cores@ + of_second.e_cores@,
        of_both.p_cores@ == of_first.p_cores@ + of_second.p_cores@,
{
    lemma_sorting_concatenates(first@, second@);
}

/// A single cluster is sorted by the first letter of its name, in either case:
/// with an E it and its cores count as efficient; with a P it and its cores
/// count as performing; with another, or without a name, it counts as neither,
/// and its cores as performing.
pub proof fn law_first_letter_decides(clusters: &[RawCluster], sorted: Sorted)
    requires
        call_ensures(sort_clusters, (clusters,), sorted),
        clusters@.len() == 1,
    ensures
        ({
            let cluster = clusters@[0];
            let name = cluster.name@;
            let own = seq![
                ClusterData {
                    name: cluster.name,
                    active_pct: cluster.active_pct,
                    freq_mhz: cluster.freq_mhz,
                },
            ];
            let efficient = name.len() > 0 && (name[0] == 'E' || name[0] == 'e');
            let performing = name.len() > 0 && (name[0] == 'P' || name[0] == 'p');
            &&& efficient ==> sorted.e_clusters@ == own && sorted.p_clusters@.len() == 0
                && sorted.e_cores@ == cluster.cpus@ && sorted.p_cores@.len() == 0
            &&& !efficient ==> sorted.e_clusters@.len() == 0 && sorted.e_cores@.len() == 0
                && sorted.p_cores@ == cluster.cpus@
            &&& performing ==> sorted.p_clusters@ == own
            &&& !performing ==> sorted.p_clusters@.len() == 0
        }),
{
    let before = clusters@.drop_last();
    assert(before =~= seq![]);
    assert(clusters@.last() == clusters@[0]);
    let cpus = clusters@[0].cpus@;
    assert(Seq::<CoreMetrics>::empty() + cpus =~= cpus);
    let own = cluster_data(clusters@[0]);
    assert(Seq::<ClusterData>::empty().push(own) =~= seq![own]);
    assert(efficiency_clusters(before) =~= seq![]);
    assert(performance_clusters(before) =~= seq![]);
    assert(efficiency_cores(before) =~= seq![]);
    assert(other_cores(before) =~= seq![]);
}

/// Nothing comes of an empty report.
pub proof fn law_empty_report_sorts_into_nothing(clusters: &[RawCluster], sorted: Sorted)
    requires
        call_ensures(sort_clusters, (clusters,), sorted),
        clusters@.len() == 0,
    ensures
        sorted.e_clusters@.len() == 0,
        sorted.p_clusters@.len() == 0,
        sorted.e_cores@.len() == 0,
        sorted.p_cores@.len() == 0,
{
}

/// A reading shows its snapshot: it carries over the moment, the pressure, the
/// power figures and the graphics processor; it lists the cores as the report
/// is sorted; and the figures of each kind are what the sorted clusters and
/// cores of that kind are summed up to.
pub proof fn law_reading_shows_its_snapshot<W>(
    raw: RawSnapshot<W>,
    reading: PowermetricsReading<W>,
    clusters: &[RawCluster],
    sorted: Sorted,
    e_clusters: &[ClusterData],
    e_cores: &[CoreMetrics],
    e_shown: (u64, u64),
    p_clusters: &[ClusterData],
    p_cores: &[CoreMetrics],
    p_shown: (u64, u64),
)
    requires
        call_ensures(convert_snapshot::<W>, (raw,), reading),
        clusters@ == raw.clusters@,
        call_ensures(sort_clusters, (clusters,), sorted),
        e_clusters@ == sorted.e_clusters@,
        e_cores@ == sorted.e_cores@,
        call_ensures(aggregate_cluster, (e_clusters, e_cores, 'E'), e_shown),
        p_clusters@ == sorted.p_clusters@,
        p_cores@ == sorted.p_cores@,
        call_ensures(aggregate_cluster, (p_clusters, p_cores, 'P'), p_shown),
    ensures
        reading.timestamp == raw.timestamp,
        reading.thermal_pressure@ == raw.thermal_pressure@,
        reading.gpu.active_pct == raw.gpu.active_pct,
        reading.gpu.freq_mhz == raw.gpu.freq_mhz,
        reading.cpu.cpu_w == raw.cpu_w,
        reading.cpu.gpu_w == raw.gpu_w,
        reading.cpu.ane_w == raw.ane_w,
        reading.cpu.package_w == raw.package_w,
        reading.cpu.e_cores@ == sorted.e_cores@,
        reading.cpu.p_cores@ == sorted.p_cores@,
        reading.cpu.e_cluster_active == e_shown.0,
        reading.cpu.e_cluster_freq_mhz == e_shown.1,
        reading.cpu.p_cluster_active == p_shown.0,
        reading.cpu.p_cluster_freq_mhz == p_shown.1,
{
}

/// The activity that a reading shows for each kind is the mean of the cores
/// that it lists for it, rounded down, unless that is zero.
pub proof fn law_reading_averages_the_cores_it_lists<W>(
    raw: RawSnapshot<W>,
    reading: PowermetricsReading<W>,
)
    requires
        call_ensures(convert_snapshot::<W>, (raw,), reading),
    ensures
        ({
            let cores = reading.cpu.e_cores@;
            let sum = cores.fold_left(0, |sum: int, core: CoreMetrics| sum + core.active_pct);
            cores.len() > 0 && sum >= cores.len() ==> reading.cpu.e_cluster_active * cores.len()
                <= sum < (reading.cpu.e_cluster_active + 1) * cores.len()
        }),
        ({
            let cores = reading.cpu.p_cores@;
            let sum = cores.fold_left(0, |sum: int, core: CoreMetrics| sum + core.active_pct);
            cores.len() > 0 && sum >= cores.len() ==> reading.cpu.p_cluster_active * cores.len()
                <= sum < (reading.cpu.p_cluster_active + 1) * cores.len()
        }),
{
    let f = |sum: int, core: CoreMetrics| sum + core.active_pct;
    lemma_listed_mean(reading.cpu.e_cores@, f);
    lemma_listed_mean(reading.cpu.p_cores@, f);
}

proof fn lemma_listed_mean(cores: Seq<CoreMetrics>, f: spec_fn(int, CoreMetrics) -> int)
    requires
        forall|sum: int, core: CoreMetrics| #[trigger] f(sum, core) == sum + core.active_pct,
    ensures
        ({
            let sum = cores.fold_left(0, f);
            let mean = mean_core_activity(cores);
            cores.len() > 0 && sum >= cores.len() ==> mean > 0 && mean * cores.len() <= sum < (mean
                + 1) * cores.len()
        }),
{
    lemma_fold_is_core_activity(cores, f);
    let sum = core_activity(cores);
    let n = cores.len();
    if n > 0 {
        lemma_quotient(sum, n);
        assert(sum >= n ==> sum / n > 0) by (nonlinear_arith)
            requires
                n > 0,
        ;
    }
}

proof fn lemma_sorted_lengths(clusters: Seq<RawCluster>)
    ensures
        efficiency_clusters(clusters).len() <= clusters.len(),
        performance_clusters(clusters).len() <= clusters.len(),
    decreases clusters.len(),
{
    if clusters.len() > 0 {
        lemma_sorted_lengths(clusters.drop_last());
    }
}

/// A snapshot of percentages can be converted: one in which nothing is more
/// than a hundred percent active, unless it lists more cores or clusters than
/// any machine has.
pub proof fn law_percentages_can_be_converted<W>(raw: &RawSnapshot<W>, fits: bool)
    requires
        call_ensures(RawSnapshot::<W>::fits, (raw,), fits),
        forall|i: int| 0 <= i < raw.clusters@.len() ==> cluster_within(#[trigger] raw.clusters@[i], 100),
        raw.clusters@.len() <= 0x1_0000_0000,
        all_cores(raw.clusters@).len() <= 0x1_0000_0000,
    ensures
        fits,
{
    let clusters = raw.clusters@;
    lemma_sorted_within_bound(clusters, 100);
    law_every_core_is_listed_once(clusters);
    lemma_core_activity_bound(efficiency_cores(clusters), 100);
    lemma_core_activity_bound(other_cores(clusters), 100);
    lemma_sorted_lengths(clusters);
    lemma_cluster_activity_bound(efficiency_clusters(clusters), 'E', 100);
    lemma_matching_len(efficiency_clusters(clusters), 'E');
    lemma_cluster_activity_bound(performance_clusters(clusters), 'P', 100);
    lemma_matching_len(performance_clusters(clusters), 'P');
}

} // verus!
