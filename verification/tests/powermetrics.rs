use asitop::powermetrics::{
    aggregate_cluster, cluster_stats, convert_snapshot, core_average, core_max_freq,
    sort_clusters, ClusterData, CoreMetrics, CpuMetrics, GpuMetrics, RawCluster, RawSnapshot,
};

fn one_core(id: u32, active_pct: u64, freq_mhz: u64) -> CoreMetrics {
    CoreMetrics { id, active_pct, freq_mhz }
}

fn data(name: &str, active_pct: u64, freq_mhz: u64) -> ClusterData {
    ClusterData { name: name.to_string(), active_pct, freq_mhz }
}

fn cluster(name: &str, active_pct: u64, freq_mhz: u64, cpus: Vec<CoreMetrics>) -> RawCluster {
    RawCluster { name: name.to_string(), active_pct, freq_mhz, cpus }
}

fn snapshot(clusters: Vec<RawCluster>) -> RawSnapshot<f32> {
    RawSnapshot {
        timestamp: 1_700_000_000_000_000_000,
        thermal_pressure: "Nominal".to_string(),
        clusters,
        cpu_w: 1.5,
        gpu_w: 0.25,
        ane_w: 0.125,
        package_w: 2.0,
        gpu: GpuMetrics { active_pct: 12, freq_mhz: 444 },
    }
}

#[test]
fn averages_round_down() {
    assert_eq!(core_average(&[]), 0);
    assert_eq!(core_average(&[one_core(0, 10, 0), one_core(1, 31, 0)]), 20);
    assert_eq!(core_average(&[one_core(0, 1, 0), one_core(1, 0, 0)]), 0);
}

#[test]
fn top_frequency_of_cores() {
    assert_eq!(core_max_freq(&[]), 0);
    assert_eq!(core_max_freq(&[one_core(0, 0, 600), one_core(1, 0, 2064), one_core(2, 0, 1000)]), 2064);
}

#[test]
fn primary_cluster_speaks_alone() {
    let clusters = [data("E0-Cluster", 90, 900), data("E-Cluster", 40, 1000), data("E-Cluster", 1, 1)];
    assert_eq!(cluster_stats(&clusters, 'E'), (Some(40), Some(1000)));
    let idle = [data("E-Cluster", 0, 0), data("E0-Cluster", 90, 900)];
    assert_eq!(cluster_stats(&idle, 'E'), (None, None));
}

#[test]
fn matching_clusters_are_summed_up() {
    let clusters = [data("P0-Cluster", 30, 2000), data("P1-Cluster", 51, 3000), data("p2", 99, 9000)];
    assert_eq!(cluster_stats(&clusters, 'P'), (Some(40), Some(3000)));
    assert_eq!(cluster_stats(&clusters, 'E'), (None, None));
    assert_eq!(cluster_stats(&[], 'P'), (None, None));
}

#[test]
fn little_activity_rounds_to_nothing_but_is_there() {
    let clusters = [data("P0", 1, 0), data("P1", 0, 0)];
    assert_eq!(cluster_stats(&clusters, 'P'), (Some(0), None));
    let idle = [data("P0", 0, 5), data("P1", 0, 0)];
    assert_eq!(cluster_stats(&idle, 'P'), (None, Some(5)));
}

#[test]
fn label_must_match_in_full() {
    assert_eq!(cluster_stats(&[data("E-Clusters", 7, 8), data("E", 9, 2)], 'E'), (Some(8), Some(8)));
    assert_eq!(cluster_stats(&[data("P-Cluster", 7, 8)], 'E'), (None, None));
}

#[test]
fn cores_come_before_clusters_for_activity() {
    let clusters = [data("E-Cluster", 40, 1000)];
    assert_eq!(aggregate_cluster(&clusters, &[one_core(0, 20, 1500), one_core(1, 30, 1200)], 'E'), (25, 1000));
    assert_eq!(aggregate_cluster(&clusters, &[one_core(0, 0, 1500)], 'E'), (40, 1000));
    assert_eq!(aggregate_cluster(&[], &[one_core(0, 5, 1500)], 'E'), (5, 1500));
    assert_eq!(aggregate_cluster(&[], &[], 'E'), (0, 0));
    assert_eq!(
        aggregate_cluster(&[data("E-Cluster", 40, 0)], &[one_core(0, 5, 1500)], 'E'),
        (5, 1500)
    );
}

#[test]
fn clusters_are_sorted_by_their_first_letter() {
    let clusters = vec![
        cluster("E-Cluster", 10, 1000, vec![one_core(0, 1, 1), one_core(1, 2, 2)]),
        cluster("P0-Cluster", 20, 2000, vec![one_core(2, 3, 3)]),
        cluster("e1", 30, 3000, vec![one_core(3, 4, 4)]),
        cluster("p1", 40, 4000, vec![one_core(4, 5, 5)]),
        cluster("Mystery", 50, 5000, vec![one_core(5, 6, 6)]),
        cluster("", 60, 6000, vec![one_core(6, 7, 7)]),
    ];
    let sorted = sort_clusters(&clusters);
    let ids = |cores: &Vec<CoreMetrics>| cores.iter().map(|c| c.id).collect::<Vec<u32>>();
    assert_eq!(ids(&sorted.e_cores), vec![0, 1, 3]);
    assert_eq!(ids(&sorted.p_cores), vec![2, 4, 5, 6]);
    let names = |list: &Vec<ClusterData>| {
        list.iter().map(|c| c.name.clone()).collect::<Vec<String>>()
    };
    assert_eq!(names(&sorted.e_clusters), vec!["E-Cluster", "e1"]);
    assert_eq!(names(&sorted.p_clusters), vec!["P0-Cluster", "p1"]);
    assert_eq!(sorted.e_cores.len() + sorted.p_cores.len(), 7);
}

#[test]
fn snapshot_becomes_a_reading() {
    let raw = snapshot(vec![
        cluster("E-Cluster", 33, 1020, vec![one_core(0, 30, 1000), one_core(1, 41, 1100)]),
        cluster("P0-Cluster", 50, 2000, vec![one_core(2, 80, 3000)]),
        cluster("P1-Cluster", 60, 3200, vec![one_core(3, 0, 600)]),
    ]);
    assert!(raw.fits());
    let reading = convert_snapshot(raw);
    assert_eq!(reading.timestamp, 1_700_000_000_000_000_000);
    assert_eq!(reading.thermal_pressure, "Nominal");
    assert_eq!(reading.cpu.e_cluster_active, 35);
    assert_eq!(reading.cpu.e_cluster_freq_mhz, 1020);
    assert_eq!(reading.cpu.p_cluster_active, 40);
    assert_eq!(reading.cpu.p_cluster_freq_mhz, 3200);
    assert_eq!(reading.cpu.e_cores, vec![one_core(0, 30, 1000), one_core(1, 41, 1100)]);
    assert_eq!(reading.cpu.p_cores, vec![one_core(2, 80, 3000), one_core(3, 0, 600)]);
    assert_eq!(reading.cpu.cpu_w, 1.5);
    assert_eq!(reading.cpu.gpu_w, 0.25);
    assert_eq!(reading.cpu.ane_w, 0.125);
    assert_eq!(reading.cpu.package_w, 2.0);
    assert_eq!(reading.gpu, GpuMetrics { active_pct: 12, freq_mhz: 444 });
}

#[test]
fn empty_snapshot_becomes_an_idle_reading() {
    let reading = convert_snapshot(snapshot(vec![]));
    assert_eq!(reading.cpu.e_cluster_active, 0);
    assert_eq!(reading.cpu.p_cluster_freq_mhz, 0);
    assert!(reading.cpu.e_cores.is_empty());
}

#[test]
fn sums_that_do_not_fit() {
    let big = || one_core(0, u64::MAX, 0);
    assert!(snapshot(vec![cluster("E0", 0, 0, vec![big()])]).fits());
    assert!(!snapshot(vec![cluster("E0", 0, 0, vec![big(), one_core(1, 1, 0)])]).fits());
    assert!(!snapshot(vec![cluster("X", 0, 0, vec![big(), one_core(1, 1, 0)])]).fits());
    let two = |name: &str| {
        snapshot(vec![cluster("P0", u64::MAX, 0, vec![]), cluster(name, 1, 0, vec![])])
    };
    assert!(!two("P1").fits());
    assert!(two("E1").fits());
    assert!(two("P-Cluster").fits());
}

#[test]
fn shown_figures_stay_in_scale() {
    for active in [0u64, 1, 50, 99, 100] {
        let clusters = [data("P0", active, 10), data("P1", 100, 20), data("P2", 3, 0)];
        let cores = [one_core(0, active, 30), one_core(1, 100, 7)];
        let (shown, freq) = aggregate_cluster(&clusters, &cores, 'P');
        assert!(shown <= 100);
        assert_eq!(freq, 20);
        assert!(aggregate_cluster(&clusters, &[], 'P').0 <= 100);
    }
}

#[test]
fn metrics_are_zero_by_default() {
    assert_eq!(CoreMetrics::default(), CoreMetrics { id: 0, active_pct: 0, freq_mhz: 0 });
    assert_eq!(GpuMetrics::default(), GpuMetrics { active_pct: 0, freq_mhz: 0 });
    let cpu: CpuMetrics<f32> = CpuMetrics::default();
    assert_eq!((cpu.e_cluster_active, cpu.e_cluster_freq_mhz), (0, 0));
    assert_eq!((cpu.p_cluster_active, cpu.p_cluster_freq_mhz), (0, 0));
    assert!(cpu.e_cores.is_empty() && cpu.p_cores.is_empty());
    assert_eq!((cpu.cpu_w, cpu.gpu_w, cpu.ane_w, cpu.package_w), (0.0, 0.0, 0.0, 0.0));
}

#[test]
fn readings_stay_in_scale() {
    let raw = snapshot(vec![
        cluster("E-Cluster", 100, 1020, vec![one_core(0, 100, 1000), one_core(1, 99, 1100)]),
        cluster("P0-Cluster", 100, 2000, vec![one_core(2, 100, 3000)]),
        cluster("P1-Cluster", 7, 3200, vec![one_core(3, 100, 600), one_core(4, 0, 600)]),
    ]);
    let reading = convert_snapshot(raw);
    assert!(reading.cpu.e_cluster_active <= 100 && reading.cpu.p_cluster_active <= 100);
    assert!(reading.cpu.e_cores.iter().all(|c| c.active_pct <= 100));
    assert!(reading.cpu.p_cores.iter().all(|c| c.active_pct <= 100));
    assert!(reading.gpu.active_pct <= 100);
}
