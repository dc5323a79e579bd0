use asitop::config::{Cli, Color};
use asitop::history::SumUpdate;
use asitop::io_stats::{IoStats, Rate};
use asitop::memory::MemoryStats;
use asitop::powermetrics::{CpuMetrics, GpuMetrics, PowermetricsReading};
use asitop::state::{AppState, PowerFigures, Surroundings};
use asitop::thermal::ThermalLevel;

fn config() -> Cli {
    Cli { interval: 10, color: 6, avg: 20, show_cores: true, max_count: 0 }
}

fn memory(used: u64) -> MemoryStats {
    MemoryStats { total: 100, used, swap_total: 0, swap_used: 0 }
}

fn reading(timestamp: i128) -> PowermetricsReading<f32> {
    PowermetricsReading {
        timestamp,
        thermal_pressure: "Heavy".to_string(),
        cpu: CpuMetrics {
            e_cluster_active: 1,
            e_cluster_freq_mhz: 2,
            p_cluster_active: 3,
            p_cluster_freq_mhz: 4,
            e_cores: vec![],
            p_cores: vec![],
            cpu_w: 5.0,
            gpu_w: 6.0,
            ane_w: 7.0,
            package_w: 8.0,
        },
        gpu: GpuMetrics { active_pct: 9, freq_mhz: 10 },
    }
}

fn around(level: Option<ThermalLevel>, cpu: f32) -> Surroundings<f32> {
    let idle = Rate { bytes: 0, nanos: 0 };
    Surroundings {
        thermal_level: level,
        power: PowerFigures {
            cpu,
            gpu: cpu + 1.0,
            package: cpu + 2.0,
            ane: cpu + 3.0,
            charted: cpu + 4.0,
            ane_percent: 11,
        },
        io: IoStats {
            net_in: Rate { bytes: 3, nanos: 4 },
            net_out: idle,
            disk_read: idle,
            disk_write: idle,
        },
    }
}

#[test]
fn state_before_the_first_sample() {
    let state = AppState::new(config(), memory(1), 0.0f32);
    assert_eq!(state.color, Color::Cyan);
    assert_eq!(state.config, config());
    assert_eq!(state.memory_stats, memory(1));
    assert_eq!(state.samples_taken, 0);
    assert_eq!(state.last_timestamp, None);
    assert_eq!(state.thermal_level, None);
    assert_eq!(state.thermal_pressure, "");
    assert_eq!(state.io_stats, IoStats::default());
    assert_eq!(state.gpu_metrics, GpuMetrics { active_pct: 0, freq_mhz: 0 });
    assert_eq!(state.cpu_peak, 0.0);
    assert!(state.power_history.values().is_empty());
    assert!(state.is_new(i128::MIN));
    assert!(state.snapshot().thermal_throttle);
}

#[test]
fn first_reading_is_applied() {
    let mut state = AppState::new(config(), memory(1), 0.0f32);
    let updates = state.apply_reading(reading(50), around(Some(ThermalLevel::Normal), 2.0), f32::max);
    assert!(matches!(updates.cpu, SumUpdate::Shift { removed: None, added } if added == 2.0));
    assert!(matches!(updates.gpu, SumUpdate::Shift { removed: None, added } if added == 3.0));
    assert!(matches!(updates.package, SumUpdate::Shift { removed: None, added } if added == 4.0));
    assert_eq!(state.last_timestamp, Some(50));
    assert_eq!(state.memory_stats, memory(1));
    assert_eq!(state.samples_taken, 1);
    assert_eq!(state.cpu_metrics.ane_w, 7.0);
    assert_eq!(state.gpu_metrics.active_pct, 9);
    assert_eq!(state.io_stats.net_in, Rate { bytes: 3, nanos: 4 });
    assert_eq!(state.power.ane_percent, 11);
    assert_eq!(state.power_history.values(), vec![6.0]);
    assert!(!state.snapshot().thermal_throttle);
}

#[test]
fn stale_readings_change_nothing() {
    let mut state = AppState::new(config(), memory(1), 0.0f32);
    state.apply_reading(reading(50), around(None, 2.0), f32::max);
    for stale in [50, 49, -1] {
        assert!(!state.is_new(stale));
        let outcome = state.update_if_new(reading(stale), memory(9), around(None, 8.0), f32::max);
        assert!(outcome.is_none());
        assert_eq!(state.samples_taken, 1);
        assert_eq!(state.last_timestamp, Some(50));
        assert_eq!(state.memory_stats, memory(1));
        assert_eq!(state.cpu_avg.values(), vec![2.0]);
        assert_eq!(state.power_history.values(), vec![6.0]);
    }
}

#[test]
fn newer_readings_are_applied() {
    let mut state = AppState::new(config(), memory(1), 0.0f32);
    assert!(state.update_if_new(reading(50), memory(2), around(None, 2.0), f32::max).is_some());
    assert!(state.update_if_new(reading(51), memory(3), around(None, 4.0), f32::max).is_some());
    let third = state.update_if_new(reading(60), memory(4), around(None, 6.0), f32::max).unwrap();
    assert!(matches!(
        third.cpu,
        SumUpdate::Shift { removed: Some(gone), added } if gone == 2.0 && added == 6.0
    ));
    assert_eq!(state.cpu_avg.values(), vec![4.0, 6.0]);
    assert_eq!(state.gpu_avg.values(), vec![5.0, 7.0]);
    assert_eq!(state.package_avg.values(), vec![6.0, 8.0]);
    assert_eq!(state.power_history.values(), vec![6.0, 8.0, 10.0]);
    assert_eq!(state.memory_stats, memory(4));
    assert_eq!(state.samples_taken, 3);
    assert!(state.snapshot().thermal_throttle);
    assert!(!state.is_new(60));
    assert!(state.is_new(61));
}

#[test]
fn chart_goes_back_a_fixed_number_of_samples() {
    let mut state = AppState::new(config(), memory(1), 0.0f32);
    for n in 0..130 {
        state.update_if_new(reading(n), memory(1), around(None, n as f32), f32::max);
    }
    let chart = state.power_history.values();
    assert_eq!(chart.len(), 120);
    assert_eq!(chart[0], 14.0);
    assert_eq!(chart[119], 133.0);
}

#[test]
fn snapshot_gathers_what_is_drawn() {
    let mut state = AppState::new(config(), memory(1), 0.0f32);
    state.update_if_new(reading(50), memory(2), around(Some(ThermalLevel::Crisis), 2.0), f32::max);
    let shown = state.snapshot();
    assert_eq!(shown.cpu.p_cluster_active, 3);
    assert_eq!(shown.gpu.freq_mhz, 10);
    assert_eq!(*shown.memory, memory(2));
    assert_eq!(shown.io.net_in, Rate { bytes: 3, nanos: 4 });
    assert!(shown.thermal_throttle);
    assert_eq!(shown.color, Color::Cyan);
    assert!(shown.show_cores);
    assert_eq!(shown.ane_percent, 11);
    assert_eq!(shown.ane_power, 5.0);
    assert!(!shown.ram_has_swap);
    assert_eq!((shown.cpu_power.current, shown.cpu_power.peak), (2.0, 2.0));
    assert_eq!((shown.gpu_power.current, shown.gpu_power.peak), (3.0, 3.0));
    assert_eq!((shown.package_power.current, shown.package_power.peak), (4.0, 4.0));
    assert_eq!(shown.power_history, vec![6.0]);
    state.memory_stats.swap_total = 1 << 30;
    assert!(state.snapshot().ram_has_swap);
}

#[test]
fn peaks_never_fall() {
    let mut state = AppState::new(config(), memory(1), 0.0f32);
    for (n, cpu, peak) in [(1, 2.0, 2.0), (2, 9.0, 9.0), (3, 4.0, 9.0), (4, f32::NAN, 9.0)] {
        state.update_if_new(reading(n), memory(1), around(None, cpu), f32::max);
        assert_eq!(state.cpu_peak, peak);
        assert_eq!(state.gpu_peak, peak + 1.0);
        assert_eq!(state.package_peak, peak + 2.0);
    }
}

#[test]
fn restart_is_due_after_that_many_samples() {
    let options = Cli { max_count: 3, ..config() };
    let mut state = AppState::new(options, memory(1), 0.0f32);
    for round in 0..2 {
        for n in 0..3 {
            assert!(!state.restart_due());
            let moment = 100 - 10 * round + n;
            let outcome =
                state.update_if_new(reading(moment), memory(1), around(None, 2.0), f32::max);
            assert!(outcome.is_some());
        }
        assert!(state.restart_due());
        state.restarted();
        assert_eq!(state.samples_taken, 0);
        assert_eq!(state.last_timestamp, None);
        assert!(state.is_new(0));
    }
    assert_eq!(state.cpu_peak, 2.0);
    assert_eq!(state.power_history.values().len(), 6);
    assert_eq!(state.config, options);
}

#[test]
fn zero_means_never_restarted() {
    let mut state = AppState::new(config(), memory(1), 0.0f32);
    for n in 0..50 {
        assert!(!state.restart_due());
        state.update_if_new(reading(n), memory(1), around(None, 2.0), f32::max);
    }
    assert!(!state.restart_due());
}
