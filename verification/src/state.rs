//! What the monitor shows, and how one sample after another changes it.
//!
//! Power figures are computed by the caller and carried through unread, so
//! their type `W` is left open.

use crate::config::{color_from_arg, palette, Cli, Color};
use crate::history::{history_pushed, sum_update, window_pushed, History, RollingAverage, SumUpdate};
use crate::io_stats::{idle_stats, IoStats};
use crate::memory::{MemoryStats, SWAP_SHOWN_FROM};
use crate::powermetrics::{CpuMetrics, GpuMetrics, PowermetricsReading};
use crate::thermal::{thermal_throttle, throttle_shown, ThermalLevel};
use vstd::prelude::*;

verus! {

/// How many samples the power chart goes back.
pub const CHART_LEN: usize = 120;

/// The power figures of one sample.
#[derive(Debug, Clone, Copy)]
pub struct PowerFigures<W> {
    pub cpu: W,
    pub gpu: W,
    pub package: W,
    pub ane: W,
    /// Processor, graphics and neural engine together, for the chart.
    pub charted: W,
    pub ane_percent: u64,
}

/// What a sample does to the running sums of the three rolling averages.
#[derive(Debug, Clone, Copy)]
pub struct SumUpdates<W> {
    pub cpu: SumUpdate<W>,
    pub gpu: SumUpdate<W>,
    pub package: SumUpdate<W>,
}

/// Everything that a sample brings besides the reading itself.
#[derive(Debug, Clone, Copy)]
pub struct Surroundings<W> {
    pub thermal_level: Option<ThermalLevel>,
    pub power: PowerFigures<W>,
    pub io: IoStats,
}

/// The state of the monitor.
pub struct AppState<W> {
    pub config: Cli,
    pub color: Color,
    pub memory_stats: MemoryStats,
    pub cpu_metrics: CpuMetrics<W>,
    pub gpu_metrics: GpuMetrics,
    pub io_stats: IoStats,
    pub thermal_pressure: String,
    pub thermal_level: Option<ThermalLevel>,
    pub last_timestamp: Option<i128>,
    pub power_history: History<W>,
    pub cpu_avg: RollingAverage<W>,
    pub gpu_avg: RollingAverage<W>,
    pub package_avg: RollingAverage<W>,
    pub power: PowerFigures<W>,
    pub cpu_peak: W,
    pub gpu_peak: W,
    pub package_peak: W,
    pub samples_taken: u64,
}

/// One power figure and the highest it has been.
#[derive(Debug, Clone, Copy)]
pub struct PowerSnapshot<W> {
    pub current: W,
    pub peak: W,
}

/// What is to be drawn.
pub struct UiSnapshot<'a, W> {
    pub cpu: &'a CpuMetrics<W>,
    pub gpu: &'a GpuMetrics,
    pub memory: &'a MemoryStats,
    pub io: IoStats,
    pub thermal_throttle: bool,
    pub color: Color,
    pub show_cores: bool,
    pub ane_percent: u64,
    pub ane_power: W,
    /// Whether there is swap space worth showing.
    pub ram_has_swap: bool,
    pub cpu_power: PowerSnapshot<W>,
    pub gpu_power: PowerSnapshot<W>,
    pub package_power: PowerSnapshot<W>,
    /// The charted power, oldest first.
    pub power_history: Vec<W>,
}

/// Whether `after` is `before` with `value` pushed.
pub open spec fn average_pushed<W: Copy>(
    before: RollingAverage<W>,
    after: RollingAverage<W>,
    value: W,
    update: SumUpdate<W>,
) -> bool {
    &&& after.wf()
    &&& after.limit() == before.limit()
    &&& after@ == window_pushed(before@, before.limit(), value)
    &&& update == sum_update(before@, before.limit(), before.pushes(), value)
    &&& after.pushes() == (match update {
        SumUpdate::Unchanged => before.pushes(),
        SumUpdate::Shift { .. } => before.pushes() + 1,
        SumUpdate::Resum => 0,
    })
}

/// Whether `after` is `before` with the sample's power figures taken over,
/// held against the peaks by `higher`, and pushed to the averages and the
/// chart.
pub open spec fn power_updated<W: Copy, F: Fn(W, W) -> W>(
    before: AppState<W>,
    after: AppState<W>,
    power: PowerFigures<W>,
    higher: F,
    updates: SumUpdates<W>,
) -> bool {
    &&& after.power == power
    &&& call_ensures(higher, (before.cpu_peak, power.cpu), after.cpu_peak)
    &&& call_ensures(higher, (before.gpu_peak, power.gpu), after.gpu_peak)
    &&& call_ensures(higher, (before.package_peak, power.package), after.package_peak)
    &&& average_pushed(before.cpu_avg, after.cpu_avg, power.cpu, updates.cpu)
    &&& average_pushed(before.gpu_avg, after.gpu_avg, power.gpu, updates.gpu)
    &&& average_pushed(before.package_avg, after.package_avg, power.package, updates.package)
    &&& after.power_history.limit() == before.power_history.limit()
    &&& after.power_history@ == history_pushed(
        before.power_history@,
        before.power_history.limit(),
        power.charted,
    )
}

/// Whether `after` is `before` with a sample applied.
pub open spec fn sample_applied<W: Copy, F: Fn(W, W) -> W>(
    before: AppState<W>,
    after: AppState<W>,
    reading: PowermetricsReading<W>,
    around: Surroundings<W>,
    higher: F,
    updates: SumUpdates<W>,
) -> bool {
    &&& after.wf()
    &&& after.config == before.config
    &&& after.color == before.color
    &&& after.last_timestamp == Some(reading.timestamp)
    &&& after.thermal_pressure == reading.thermal_pressure
    &&& after.cpu_metrics == reading.cpu
    &&& after.gpu_metrics == reading.gpu
    &&& after.thermal_level == around.thermal_level
    &&& after.io_stats == around.io
    &&& after.samples_taken == before.samples_taken + 1
    &&& power_updated(before, after, around.power, higher, updates)
}

impl<W: Copy> AppState<W> {
    /// Whether the windows are in order.
    pub open spec fn wf(&self) -> bool {
        &&& self.cpu_avg.wf()
        &&& self.gpu_avg.wf()
        &&& self.package_avg.wf()
    }

    /// Whether a reading of that moment is newer than all before.
    pub open spec fn is_new_spec(&self, timestamp: i128) -> bool {
        match self.last_timestamp {
            Some(last) => timestamp > last,
            None => true,
        }
    }

    /// Whether `powermetrics` has to be started anew: after as many samples as
    /// the options say, and never where they say zero.
    pub open spec fn restart_due_spec(&self) -> bool {
        self.config.max_count > 0 && self.samples_taken >= self.config.max_count
    }

    /// The state before the first sample; `zero` is the figure for no power.
    pub fn new(config: Cli, memory_stats: MemoryStats, zero: W) -> (res: Self)
        ensures
            res.wf(),
            res.config == config,
            res.color == (if config.color < palette().len() {
                palette()[config.color as int]
            } else {
                Color::Green
            }),
            res.memory_stats == memory_stats,
            res.cpu_metrics.e_cluster_active == 0,
            res.cpu_metrics.e_cluster_freq_mhz == 0,
            res.cpu_metrics.p_cluster_active == 0,
            res.cpu_metrics.p_cluster_freq_mhz == 0,
            res.cpu_metrics.e_cores@ == Seq::<crate::powermetrics::CoreMetrics>::empty(),
            res.cpu_metrics.p_cores@ == Seq::<crate::powermetrics::CoreMetrics>::empty(),
            res.cpu_metrics.cpu_w == zero,
            res.cpu_metrics.gpu_w == zero,
            res.cpu_metrics.ane_w == zero,
            res.cpu_metrics.package_w == zero,
            res.gpu_metrics == (GpuMetrics { active_pct: 0, freq_mhz: 0 }),
            res.io_stats == idle_stats(),
            res.thermal_pressure@ == Seq::<char>::empty(),
            res.thermal_level is None,
            res.last_timestamp is None,
            res.power_history@ == Seq::<W>::empty(),
            res.power_history.limit() == CHART_LEN,
            res.cpu_avg@ == Seq::<W>::empty(),
            res.cpu_avg.limit() == config.window_spec(),
            res.cpu_avg.pushes() == 0,
            res.gpu_avg@ == Seq::<W>::empty(),
            res.gpu_avg.limit() == config.window_spec(),
            res.gpu_avg.pushes() == 0,
            res.package_avg@ == Seq::<W>::empty(),
            res.package_avg.limit() == config.window_spec(),
            res.package_avg.pushes() == 0,
            res.power == (PowerFigures {
                cpu: zero,
                gpu: zero,
                package: zero,
                ane: zero,
                charted: zero,
                ane_percent: 0,
            }),
            res.cpu_peak == zero,
            res.gpu_peak == zero,
            res.package_peak == zero,
            res.samples_taken == 0,
    {
        let window: usize = config.avg_window();
        AppState {
            color: color_from_arg(config.color),
            config,
            memory_stats,
            cpu_metrics: CpuMetrics {
                e_cluster_active: 0,
                e_cluster_freq_mhz: 0,
                p_cluster_active: 0,
                p_cluster_freq_mhz: 0,
                e_cores: Vec::new(),
                p_cores: Vec::new(),
                cpu_w: zero,
                gpu_w: zero,
                ane_w: zero,
                package_w: zero,
            },
            gpu_metrics: GpuMetrics::default(),
            io_stats: IoStats::default(),
            thermal_pressure: String::new(),
            thermal_level: None,
            last_timestamp: None,
            power_history: History::new(CHART_LEN),
            cpu_avg: RollingAverage::new(window),
            gpu_avg: RollingAverage::new(window),
            package_avg: RollingAverage::new(window),
            power: PowerFigures {
                cpu: zero,
                gpu: zero,
                package: zero,
                ane: zero,
                charted: zero,
                ane_percent: 0,
            },
            cpu_peak: zero,
            gpu_peak: zero,
            package_peak: zero,
            samples_taken: 0,
        }
    }

    /// Takes over the sample's power figures, raises the peaks, pushes the
    /// figures to the averages and the chart, and tells what to do with the
    /// averages' running sums. `higher` picks the higher of a peak and a
    /// figure.
    pub fn update_power_stats<F: Fn(W, W) -> W>(&mut self, power: PowerFigures<W>, higher: F) -> (res:
        SumUpdates<W>)
        requires
            old(self).wf(),
            forall|peak: W, figure: W| call_requires(higher, (peak, figure)),
        ensures
            final(self).wf(),
            power_updated(*old(self), *final(self), power, higher, res),
            final(self).config == old(self).config,
            final(self).color == old(self).color,
            final(self).memory_stats == old(self).memory_stats,
            final(self).cpu_metrics == old(self).cpu_metrics,
            final(self).gpu_metrics == old(self).gpu_metrics,
            final(self).io_stats == old(self).io_stats,
            final(self).thermal_pressure == old(self).thermal_pressure,
            final(self).thermal_level == old(self).thermal_level,
            final(self).last_timestamp == old(self).last_timestamp,
            final(self).samples_taken == old(self).samples_taken,
    {
        self.cpu_peak = higher(self.cpu_peak, power.cpu);
        self.gpu_peak = higher(self.gpu_peak, power.gpu);
        self.package_peak = higher(self.package_peak, power.package);
        let cpu = self.cpu_avg.push(power.cpu);
        let gpu = self.gpu_avg.push(power.gpu);
        let package = self.package_avg.push(power.package);
        self.power_history.push(power.charted);
        self.power = power;
        SumUpdates { cpu, gpu, package }
    }

    /// Applies a sample whatever its moment; the memory use stays as it was.
    pub fn apply_reading<F: Fn(W, W) -> W>(
        &mut self,
        reading: PowermetricsReading<W>,
        around: Surroundings<W>,
        higher: F,
    ) -> (res: SumUpdates<W>)
        requires
            old(self).wf(),
            old(self).samples_taken < u64::MAX,
            forall|peak: W, figure: W| call_requires(higher, (peak, figure)),
        ensures
            sample_applied(*old(self), *final(self), reading, around, higher, res),
            final(self).memory_stats == old(self).memory_stats,
    {
        self.last_timestamp = Some(reading.timestamp);
        self.thermal_pressure = reading.thermal_pressure;
        self.cpu_metrics = reading.cpu;
        self.gpu_metrics = reading.gpu;
        self.thermal_level = around.thermal_level;
        let updates = self.update_power_stats(around.power, higher);
        self.io_stats = around.io;
        self.samples_taken += 1;
        updates
    }

    /// Tells whether a reading of that moment is newer than all before.
    pub fn is_new(&self, timestamp: i128) -> (res: bool)
        ensures
            res == self.is_new_spec(timestamp),
    {
        match self.last_timestamp {
            Some(last) => timestamp > last,
            None => true,
        }
    }

    /// Applies a sample together with the memory use, if it is newer than all
    /// before; otherwise nothing changes.
    pub fn update_if_new<F: Fn(W, W) -> W>(
        &mut self,
        reading: PowermetricsReading<W>,
        memory_stats: MemoryStats,
        around: Surroundings<W>,
        higher: F,
    ) -> (res: Option<SumUpdates<W>>)
        requires
            old(self).wf(),
            old(self).samples_taken < u64::MAX,
            forall|peak: W, figure: W| call_requires(higher, (peak, figure)),
        ensures
            match res {
                Some(updates) => {
                    &&& old(self).is_new_spec(reading.timestamp)
                    &&& sample_applied(*old(self), *final(self), reading, around, higher, updates)
                    &&& final(self).memory_stats == memory_stats
                },
                None => {
                    &&& !old(self).is_new_spec(reading.timestamp)
                    &&& *final(self) == *old(self)
                },
            },
    {
        if !self.is_new(reading.timestamp) {
            return None;
        }
        self.memory_stats = memory_stats;
        Some(self.apply_reading(reading, around, higher))
    }

    /// Tells whether `powermetrics` has to be started anew.
    pub fn restart_due(&self) -> (res: bool)
        ensures
            res == self.restart_due_spec(),
    {
        self.config.max_count > 0 && self.samples_taken >= self.config.max_count
    }

    /// Takes note that `powermetrics` was started anew: samples are counted
    /// from the start again, and whatever reading comes next is new.
    pub fn restarted(&mut self)
        ensures
            *final(self) == (AppState { samples_taken: 0, last_timestamp: None, ..*old(self) }),
    {
        self.samples_taken = 0;
        self.last_timestamp = None;
    }

    /// Gathers what is to be drawn.
    pub fn snapshot(&self) -> (res: UiSnapshot<'_, W>)
        ensures
            is_shown(*self, res),
    {
        UiSnapshot {
            cpu: &self.cpu_metrics,
            gpu: &self.gpu_metrics,
            memory: &self.memory_stats,
            io: self.io_stats,
            thermal_throttle: thermal_throttle(self.thermal_level, self.thermal_pressure.as_str()),
            color: self.color,
            show_cores: self.config.show_cores,
            ane_percent: self.power.ane_percent,
            ane_power: self.power.ane,
            ram_has_swap: self.memory_stats.has_swap(),
            cpu_power: PowerSnapshot { current: self.power.cpu, peak: self.cpu_peak },
            gpu_power: PowerSnapshot { current: self.power.gpu, peak: self.gpu_peak },
            package_power: PowerSnapshot {
                current: self.power.package,
                peak: self.package_peak,
            },
            power_history: self.power_history.values(),
        }
    }
}

/// Whether `shown` is what there is to draw of `state`.
pub open spec fn is_shown<W: Copy>(state: AppState<W>, shown: UiSnapshot<W>) -> bool {
    let power = state.power;
    &&& *shown.cpu == state.cpu_metrics
    &&& *shown.gpu == state.gpu_metrics
    &&& *shown.memory == state.memory_stats
    &&& shown.io == state.io_stats
    &&& shown.thermal_throttle == throttle_shown(state.thermal_level, state.thermal_pressure@)
    &&& shown.color == state.color
    &&& shown.show_cores == state.config.show_cores
    &&& shown.ane_percent == power.ane_percent
    &&& shown.ane_power == power.ane
    &&& shown.ram_has_swap == (state.memory_stats.swap_total >= SWAP_SHOWN_FROM)
    &&& shown.cpu_power == (PowerSnapshot { current: power.cpu, peak: state.cpu_peak })
    &&& shown.gpu_power == (PowerSnapshot { current: power.gpu, peak: state.gpu_peak })
    &&& shown.package_power == (PowerSnapshot { current: power.package, peak: state.package_peak })
    &&& shown.power_history@ == state.power_history@
}

/// After a sample was applied, that sample and every older one count as known.
pub proof fn law_a_sample_counts_once<W: Copy, F: Fn(W, W) -> W>(
    before: AppState<W>,
    after: AppState<W>,
    reading: PowermetricsReading<W>,
    around: Surroundings<W>,
    higher: F,
    updates: SumUpdates<W>,
    timestamp: i128,
)
    requires
        sample_applied(before, after, reading, around, higher, updates),
    ensures
        after.is_new_spec(timestamp) == (timestamp > reading.timestamp),
{
}

/// Where only newer readings are applied, time never goes back, and what was
/// known before stays known.
pub proof fn law_known_readings_stay_known<W: Copy, F: Fn(W, W) -> W>(
    before: AppState<W>,
    after: AppState<W>,
    reading: PowermetricsReading<W>,
    around: Surroundings<W>,
    higher: F,
    updates: SumUpdates<W>,
    timestamp: i128,
)
    requires
        before.is_new_spec(reading.timestamp),
        sample_applied(before, after, reading, around, higher, updates),
        !before.is_new_spec(timestamp),
    ensures
        !after.is_new_spec(timestamp),
{
}

/// Where the options give no number of samples, `powermetrics` is never
/// started anew.
pub proof fn law_zero_means_never_restarted<W: Copy>(state: AppState<W>)
    requires
        state.config.max_count == 0,
    ensures
        !state.restart_due_spec(),
{
}

/// A sample makes a restart due exactly when it completes the number that the
/// options give.
pub proof fn law_restart_is_due_after_that_many_samples<W: Copy, F: Fn(W, W) -> W>(
    before: AppState<W>,
    after: AppState<W>,
    reading: PowermetricsReading<W>,
    around: Surroundings<W>,
    higher: F,
    updates: SumUpdates<W>,
)
    requires
        !before.restart_due_spec(),
        sample_applied(before, after, reading, around, higher, updates),
    ensures
        after.restart_due_spec() == (after.samples_taken == before.config.max_count),
{
}

/// After a restart none is due until samples come in, and the first reading is
/// new whatever its moment.
pub proof fn law_restart_begins_afresh<W: Copy>(
    before: AppState<W>,
    after: AppState<W>,
    timestamp: i128,
)
    requires
        after == (AppState { samples_taken: 0, last_timestamp: None, ..before }),
    ensures
        !after.restart_due_spec(),
        after.is_new_spec(timestamp),
        before.wf() ==> after.wf(),
{
}

/// Peaks never fall and are never below a figure taken over, as long as
/// `higher` does what its name says; `rank` is how figures compare.
pub proof fn law_peaks_are_the_highest<W: Copy, F: Fn(W, W) -> W>(
    before: AppState<W>,
    after: AppState<W>,
    power: PowerFigures<W>,
    higher: F,
    updates: SumUpdates<W>,
    rank: spec_fn(W) -> int,
)
    requires
        power_updated(before, after, power, higher, updates),
        forall|a: W, b: W, c: W|
            #[trigger] call_ensures(higher, (a, b), c) ==> rank(c) == (if rank(a) >= rank(b) {
                rank(a)
            } else {
                rank(b)
            }),
    ensures
        rank(after.cpu_peak) >= rank(before.cpu_peak),
        rank(after.cpu_peak) >= rank(power.cpu),
        rank(after.cpu_peak) == rank(before.cpu_peak) || rank(after.cpu_peak) == rank(power.cpu),
        rank(after.gpu_peak) >= rank(before.gpu_peak),
        rank(after.gpu_peak) >= rank(power.gpu),
        rank(after.gpu_peak) == rank(before.gpu_peak) || rank(after.gpu_peak) == rank(power.gpu),
        rank(after.package_peak) >= rank(before.package_peak),
        rank(after.package_peak) >= rank(power.package),
        rank(after.package_peak) == rank(before.package_peak) || rank(after.package_peak) == rank(
            power.package,
        ),
{
}

/// Whether `shown` shows the sample of `reading` and `around` and no other.
pub open spec fn shows_sample<W: Copy>(
    shown: UiSnapshot<W>,
    reading: PowermetricsReading<W>,
    around: Surroundings<W>,
) -> bool {
    &&& *shown.cpu == reading.cpu
    &&& *shown.gpu == reading.gpu
    &&& shown.io == around.io
    &&& match around.thermal_level {
        Some(level) => shown.thermal_throttle == (level != ThermalLevel::Normal),
        None => shown.thermal_throttle == (crate::text::trimmed(reading.thermal_pressure@)
            != "Nominal"@),
    }
    &&& shown.cpu_power.current == around.power.cpu
    &&& shown.gpu_power.current == around.power.gpu
    &&& shown.package_power.current == around.power.package
    &&& shown.ane_power == around.power.ane
    &&& shown.ane_percent == around.power.ane_percent
    &&& shown.power_history@.len() > 0
    &&& shown.power_history@.last() == around.power.charted
}

/// What is shown after a sample was taken over is that sample, whatever the
/// state was before: its own processor and graphics figures, power, throughput
/// and thermal state; the chart ends with it. The memory use, the color and the
/// choice of cores are those of before, and each peak is the higher of what it
/// was and the sample's figure.
pub proof fn law_applied_reading_is_shown<W: Copy, F: Fn(W, W) -> W>(
    state: &mut AppState<W>,
    reading: PowermetricsReading<W>,
    around: Surroundings<W>,
    higher: F,
    updates: SumUpdates<W>,
    after: &AppState<W>,
    shown: UiSnapshot<W>,
)
    requires
        call_ensures(
            AppState::<W>::apply_reading::<F>,
            (state, reading, around, higher),
            updates,
        ),
        *after == *final(state),
        call_ensures(AppState::<W>::snapshot, (after,), shown),
    ensures
        shows_sample(shown, reading, around),
        *shown.memory == old(state).memory_stats,
        shown.color == old(state).color,
        shown.show_cores == old(state).config.show_cores,
        call_ensures(higher, (old(state).cpu_peak, around.power.cpu), shown.cpu_power.peak),
        call_ensures(higher, (old(state).gpu_peak, around.power.gpu), shown.gpu_power.peak),
        call_ensures(
            higher,
            (old(state).package_peak, around.power.package),
            shown.package_power.peak,
        ),
{
}

/// A newer reading is taken over and shown like any sample, together with the
/// memory use; one that is not newer than all before changes nothing at all.
pub proof fn law_newer_reading_is_shown_and_a_stale_one_is_not<W: Copy, F: Fn(W, W) -> W>(
    state: &mut AppState<W>,
    reading: PowermetricsReading<W>,
    memory_stats: MemoryStats,
    around: Surroundings<W>,
    higher: F,
    updates: Option<SumUpdates<W>>,
    after: &AppState<W>,
    shown: UiSnapshot<W>,
)
    requires
        call_ensures(
            AppState::<W>::update_if_new::<F>,
            (state, reading, memory_stats, around, higher),
            updates,
        ),
        *after == *final(state),
        call_ensures(AppState::<W>::snapshot, (after,), shown),
    ensures
        ({
            let newer = match old(state).last_timestamp {
                Some(last) => reading.timestamp > last,
                None => true,
            };
            &&& updates is Some <==> newer
            &&& newer ==> {
                &&& shows_sample(shown, reading, around)
                &&& *shown.memory == memory_stats
                &&& shown.color == old(state).color
                &&& shown.show_cores == old(state).config.show_cores
                &&& call_ensures(
                    higher,
                    (old(state).cpu_peak, around.power.cpu),
                    shown.cpu_power.peak,
                )
                &&& call_ensures(
                    higher,
                    (old(state).gpu_peak, around.power.gpu),
                    shown.gpu_power.peak,
                )
                &&& call_ensures(
                    higher,
                    (old(state).package_peak, around.power.package),
                    shown.package_power.peak,
                )
            }
            &&& !newer ==> *final(state) == *old(state)
        }),
{
}

/// Whether one more sample was counted, at the moment given, with the options
/// as they were.
pub open spec fn counted_one_more<W>(
    before: AppState<W>,
    after: AppState<W>,
    timestamp: i128,
) -> bool {
    &&& after.samples_taken == before.samples_taken + 1
    &&& after.last_timestamp == Some(timestamp)
    &&& after.config == before.config
    &&& after.color == before.color
}

/// Each sample taken over counts as one, and its moment is the latest known.
pub proof fn law_samples_are_counted<W: Copy, F: Fn(W, W) -> W>(
    first: &mut AppState<W>,
    later: &mut AppState<W>,
    reading: PowermetricsReading<W>,
    memory_stats: MemoryStats,
    around: Surroundings<W>,
    higher: F,
    updates: SumUpdates<W>,
    later_updates: Option<SumUpdates<W>>,
)
    requires
        call_ensures(
            AppState::<W>::apply_reading::<F>,
            (first, reading, around, higher),
            updates,
        ),
        call_ensures(
            AppState::<W>::update_if_new::<F>,
            (later, reading, memory_stats, around, higher),
            later_updates,
        ),
    ensures
        counted_one_more(*old(first), *final(first), reading.timestamp),
        later_updates is Some ==> counted_one_more(*old(later), *final(later), reading.timestamp),
        final(first).thermal_level == around.thermal_level,
        final(first).thermal_pressure@ == reading.thermal_pressure@,
{
}

/// A sample goes to the three averages and to the chart as one push each: the
/// processor's, the graphics' and the package's figure to the average of each,
/// and the sum of the chart to the chart. What is to be done to the running
/// sums is what each push says.
pub proof fn law_sample_is_pushed_once_to_each<W: Copy, F: Fn(W, W) -> W>(
    state: &mut AppState<W>,
    power: PowerFigures<W>,
    higher: F,
    updates: SumUpdates<W>,
    cpu_avg: &mut RollingAverage<W>,
    gpu_avg: &mut RollingAverage<W>,
    package_avg: &mut RollingAverage<W>,
    chart: &mut History<W>,
    cpu: SumUpdate<W>,
    gpu: SumUpdate<W>,
    package: SumUpdate<W>,
)
    requires
        call_ensures(AppState::<W>::update_power_stats::<F>, (state, power, higher), updates),
        *old(cpu_avg) == old(state).cpu_avg,
        *old(gpu_avg) == old(state).gpu_avg,
        *old(package_avg) == old(state).package_avg,
        *old(chart) == old(state).power_history,
        call_ensures(RollingAverage::<W>::push, (cpu_avg, power.cpu), cpu),
        call_ensures(RollingAverage::<W>::push, (gpu_avg, power.gpu), gpu),
        call_ensures(RollingAverage::<W>::push, (package_avg, power.package), package),
        call_ensures(History::<W>::push, (chart, power.charted), ()),
    ensures
        updates.cpu == cpu && updates.gpu == gpu && updates.package == package,
        final(state).cpu_avg@ == final(cpu_avg)@,
        final(state).gpu_avg@ == final(gpu_avg)@,
        final(state).package_avg@ == final(package_avg)@,
        final(state).power_history@ == final(chart)@,
        final(state).cpu_avg.limit() == old(state).cpu_avg.limit(),
        final(state).gpu_avg.limit() == old(state).gpu_avg.limit(),
        final(state).package_avg.limit() == old(state).package_avg.limit(),
        final(state).power_history.limit() == old(state).power_history.limit(),
        final(state).cpu_avg.pushes() == final(cpu_avg).pushes(),
        final(state).gpu_avg.pushes() == final(gpu_avg).pushes(),
        final(state).package_avg.pushes() == final(package_avg).pushes(),
{
}

/// Taking over a sample does to the power figures, the averages, the chart and
/// the peaks what taking over its power figures alone does.
pub proof fn law_sample_brings_its_power_figures<W: Copy, F: Fn(W, W) -> W>(
    state: &mut AppState<W>,
    alone: &mut AppState<W>,
    reading: PowermetricsReading<W>,
    around: Surroundings<W>,
    higher: F,
    updates: SumUpdates<W>,
    alone_updates: SumUpdates<W>,
)
    requires
        *old(alone) == *old(state),
        call_ensures(
            AppState::<W>::apply_reading::<F>,
            (state, reading, around, higher),
            updates,
        ),
        call_ensures(
            AppState::<W>::update_power_stats::<F>,
            (alone, around.power, higher),
            alone_updates,
        ),
    ensures
        updates == alone_updates,
        final(state).power == around.power,
        final(alone).power == around.power,
        final(state).cpu_avg@ == final(alone).cpu_avg@,
        final(state).gpu_avg@ == final(alone).gpu_avg@,
        final(state).package_avg@ == final(alone).package_avg@,
        final(state).power_history@ == final(alone).power_history@,
        final(alone).samples_taken == old(alone).samples_taken,
        final(alone).last_timestamp == old(alone).last_timestamp,
        final(alone).cpu_metrics == old(alone).cpu_metrics,
        final(alone).gpu_metrics == old(alone).gpu_metrics,
        final(alone).io_stats == old(alone).io_stats,
        final(alone).thermal_level == old(alone).thermal_level,
        final(alone).thermal_pressure == old(alone).thermal_pressure,
        final(alone).memory_stats == old(alone).memory_stats,
{
}

/// A newer reading does to a state what the same sample does that is taken over
/// whatever its moment, and the memory use is the one that comes with it.
pub proof fn law_newer_reading_is_taken_over_like_any<W: Copy, F: Fn(W, W) -> W>(
    state: &mut AppState<W>,
    other: &mut AppState<W>,
    reading: PowermetricsReading<W>,
    memory_stats: MemoryStats,
    around: Surroundings<W>,
    higher: F,
    updates: SumUpdates<W>,
    other_updates: SumUpdates<W>,
)
    requires
        *old(other) == *old(state),
        call_ensures(
            AppState::<W>::update_if_new::<F>,
            (state, reading, memory_stats, around, higher),
            Some(updates),
        ),
        call_ensures(
            AppState::<W>::apply_reading::<F>,
            (other, reading, around, higher),
            other_updates,
        ),
    ensures
        updates == other_updates,
        final(state).memory_stats == memory_stats,
        final(other).memory_stats == old(other).memory_stats,
        final(state).cpu_metrics == final(other).cpu_metrics,
        final(state).gpu_metrics == final(other).gpu_metrics,
        final(state).io_stats == final(other).io_stats,
        final(state).thermal_level == final(other).thermal_level,
        final(state).thermal_pressure == final(other).thermal_pressure,
        final(state).last_timestamp == final(other).last_timestamp,
        final(state).samples_taken == final(other).samples_taken,
        final(state).config == final(other).config,
        final(state).color == final(other).color,
        final(state).power == final(other).power,
        final(state).cpu_avg@ == final(other).cpu_avg@,
        final(state).gpu_avg@ == final(other).gpu_avg@,
        final(state).package_avg@ == final(other).package_avg@,
        final(state).power_history@ == final(other).power_history@,
{
}

/// What is drawn of a state is its own: the figures last taken over, the power
/// and its peaks, the memory, and the chart from the oldest value on; swap is
/// shown from a tenth of a gibibyte on.
pub proof fn law_snapshot_shows_the_state<W: Copy>(state: &AppState<W>, shown: UiSnapshot<W>)
    requires
        call_ensures(AppState::<W>::snapshot, (state,), shown),
    ensures
        *shown.cpu == state.cpu_metrics && *shown.gpu == state.gpu_metrics,
        *shown.memory == state.memory_stats,
        shown.io == state.io_stats,
        shown.color == state.color && shown.show_cores == state.config.show_cores,
        match state.thermal_level {
            Some(level) => shown.thermal_throttle == (level != ThermalLevel::Normal),
            None => shown.thermal_throttle == (crate::text::trimmed(state.thermal_pressure@)
                != "Nominal"@),
        },
        shown.ram_has_swap == (state.memory_stats.swap_total >= 107_374_181),
        shown.ane_percent == state.power.ane_percent && shown.ane_power == state.power.ane,
        shown.cpu_power.current == state.power.cpu && shown.cpu_power.peak == state.cpu_peak,
        shown.gpu_power.current == state.power.gpu && shown.gpu_power.peak == state.gpu_peak,
        shown.package_power.current == state.power.package,
        shown.package_power.peak == state.package_peak,
        shown.power_history@ == state.power_history@,
{
}

/// A state begins with nothing sampled: no power, peaks, throughput or chart,
/// averages over the window that the options give and a chart of 120 samples,
/// in the color that the options ask for; any reading is then new.
pub proof fn law_state_begins_empty<W: Copy>(
    config: Cli,
    memory_stats: MemoryStats,
    zero: W,
    state: AppState<W>,
    window: usize,
    color: Color,
    timestamp: i128,
    new: bool,
)
    requires
        call_ensures(AppState::<W>::new, (config, memory_stats, zero), state),
        call_ensures(Cli::avg_window, (&config,), window),
        call_ensures(color_from_arg, (config.color,), color),
        call_ensures(AppState::<W>::is_new, (&state, timestamp), new),
    ensures
        new,
        state.config == config && state.color == color,
        state.memory_stats == memory_stats,
        state.samples_taken == 0,
        state.thermal_level is None && state.thermal_pressure@.len() == 0,
        state.power.cpu == zero && state.power.gpu == zero && state.power.package == zero,
        state.power.ane == zero && state.power.ane_percent == 0,
        state.cpu_peak == zero && state.gpu_peak == zero && state.package_peak == zero,
        state.io_stats.net_in.bytes == 0 && state.io_stats.net_out.bytes == 0,
        state.io_stats.disk_read.bytes == 0 && state.io_stats.disk_write.bytes == 0,
        state.cpu_metrics.e_cores@.len() == 0 && state.cpu_metrics.p_cores@.len() == 0,
        state.cpu_metrics.e_cluster_active == 0 && state.cpu_metrics.p_cluster_active == 0,
        state.cpu_metrics.e_cluster_freq_mhz == 0 && state.cpu_metrics.p_cluster_freq_mhz == 0,
        state.cpu_metrics.cpu_w == zero && state.cpu_metrics.gpu_w == zero,
        state.cpu_metrics.ane_w == zero && state.cpu_metrics.package_w == zero,
        state.gpu_metrics.active_pct == 0 && state.gpu_metrics.freq_mhz == 0,
        state.power_history@.len() == 0 && state.power_history.limit() == 120,
        state.cpu_avg@.len() == 0 && state.cpu_avg.limit() == window,
        state.gpu_avg@.len() == 0 && state.gpu_avg.limit() == window,
        state.package_avg@.len() == 0 && state.package_avg.limit() == window,
{
}

/// A reading is new where none was taken over yet, or where it is later than
/// the last one that was.
pub proof fn law_later_readings_are_new<W: Copy>(state: &AppState<W>, timestamp: i128, new: bool)
    requires
        call_ensures(AppState::<W>::is_new, (state, timestamp), new),
    ensures
        match state.last_timestamp {
            Some(last) => new == (timestamp > last),
            None => new,
        },
{
}

/// A restart forgets how many samples were taken and when, and nothing else;
/// it is due where the options give a number of samples and that many were
/// taken.
pub proof fn law_restart_forgets_only_the_count<W: Copy>(
    state: &mut AppState<W>,
    before: &AppState<W>,
    due: bool,
)
    requires
        *before == *old(state),
        call_ensures(AppState::<W>::restart_due, (before,), due),
        call_ensures(AppState::<W>::restarted, (state,), ()),
    ensures
        due <==> before.config.max_count > 0 && before.samples_taken >= before.config.max_count,
        final(state).samples_taken == 0,
        final(state).last_timestamp is None,
        final(state).config == before.config,
        final(state).cpu_metrics == before.cpu_metrics,
        final(state).gpu_metrics == before.gpu_metrics,
        final(state).io_stats == before.io_stats,
        final(state).thermal_level == before.thermal_level,
        final(state).thermal_pressure == before.thermal_pressure,
        final(state).color == before.color,
        final(state).memory_stats == before.memory_stats,
        final(state).power == before.power,
        final(state).cpu_peak == before.cpu_peak,
        final(state).gpu_peak == before.gpu_peak,
        final(state).package_peak == before.package_peak,
        final(state).power_history@ == before.power_history@,
        final(state).cpu_avg@ == before.cpu_avg@,
        final(state).gpu_avg@ == before.gpu_avg@,
        final(state).package_avg@ == before.package_avg@,
{
}

} // verus!
