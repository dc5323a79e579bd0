//! Network and disk throughput, from the system's running byte counters.
//!
//! Moments are nanoseconds on a clock that never goes back; where it starts
//! does not matter.

use vstd::prelude::*;

verus! {

/// The least time between two samples, in nanoseconds.
pub const MIN_SAMPLE_INTERVAL: u128 = 500_000_000;

/// How many network interfaces are looked at.
pub const MAX_INTERFACES: usize = 1000;

/// A throughput: so many bytes in so many nanoseconds.
#[derive(Debug, Clone, Copy, PartialEq, Eq, Structural)]
pub struct Rate {
    pub bytes: u64,
    pub nanos: u128,
}

/// The throughput of network and disks.
#[derive(Debug, Clone, Copy, PartialEq, Eq, Structural)]
pub struct IoStats {
    pub net_in: Rate,
    pub net_out: Rate,
    pub disk_read: Rate,
    pub disk_write: Rate,
}

/// No throughput at all.
pub open spec fn idle_stats() -> IoStats {
    let idle = Rate { bytes: 0, nanos: 0 };
    IoStats { net_in: idle, net_out: idle, disk_read: idle, disk_write: idle }
}

impl Default for IoStats {
    fn default() -> (res: Self)
        ensures
            res == idle_stats(),
    {
        let idle = Rate { bytes: 0, nanos: 0 };
        IoStats { net_in: idle, net_out: idle, disk_read: idle, disk_write: idle }
    }
}

/// The throughput of a counter that went from `previous` to `current`. A
/// counter that fell back counts as one that stood still, and where no time
/// passed, no byte counts as moved.
pub open spec fn rate_between(current: u64, previous: u64, nanos: u128) -> Rate {
    Rate {
        bytes: if current <= previous || nanos == 0 {
            0
        } else {
            (current - previous) as u64
        },
        nanos,
    }
}

/// The throughput of a counter that went from `previous` to `current`.
pub fn rate_from_delta(current: u64, previous: u64, nanos: u128) -> (res: Rate)
    ensures
        res == rate_between(current, previous, nanos),
{
    let bytes: u64 = if nanos == 0 {
        0
    } else {
        current.saturating_sub(previous)
    };
    Rate { bytes, nanos }
}

/// The time from `last` to `now`; none where `now` is not later.
pub open spec fn elapsed(last: u128, now: u128) -> u128 {
    if now <= last {
        0
    } else {
        (now - last) as u128
    }
}

/// What a sampler remembers.
#[verifier::ext_equal]
pub struct SamplerView {
    /// The network counters (in, out) last seen.
    pub net: Option<(u64, u64)>,
    /// The disk counters (read, written) last seen.
    pub disk: Option<(u64, u64)>,
    /// When the last sample was taken.
    pub last: Option<u128>,
    /// The throughput found by it.
    pub stats: IoStats,
}

impl SamplerView {
    /// Whether a sample at `now` is far enough from the one before.
    pub open spec fn is_due(self, now: u128) -> bool {
        match self.last {
            Some(last) => elapsed(last, now) >= MIN_SAMPLE_INTERVAL,
            None => true,
        }
    }

    /// What is remembered after a sample at `now` that read these counters.
    ///
    /// A sample too early changes nothing. The first one only remembers the
    /// counters. Each later one finds the throughput of the counters that
    /// could be read both times; counters that could not be read this time
    /// keep what was known of them.
    pub open spec fn sampled(
        self,
        now: u128,
        net: Option<(u64, u64)>,
        disk: Option<(u64, u64)>,
    ) -> SamplerView {
        match self.last {
            None => SamplerView { net, disk, last: Some(now), stats: idle_stats() },
            Some(last) => if !self.is_due(now) {
                self
            } else {
                let nanos = elapsed(last, now);
                let (net_in, net_out) = match (net, self.net) {
                    (Some(current), Some(previous)) => (
                        rate_between(current.0, previous.0, nanos),
                        rate_between(current.1, previous.1, nanos),
                    ),
                    _ => (self.stats.net_in, self.stats.net_out),
                };
                let (disk_read, disk_write) = match (disk, self.disk) {
                    (Some(current), Some(previous)) => (
                        rate_between(current.0, previous.0, nanos),
                        rate_between(current.1, previous.1, nanos),
                    ),
                    _ => (self.stats.disk_read, self.stats.disk_write),
                };
                SamplerView {
                    net: if net is Some {
                        net
                    } else {
                        self.net
                    },
                    disk: if disk is Some {
                        disk
                    } else {
                        self.disk
                    },
                    last: Some(now),
                    stats: IoStats { net_in, net_out, disk_read, disk_write },
                }
            },
        }
    }

    /// Whether every throughput was measured over at least the least time
    /// between two samples, unless no byte moved.
    pub open spec fn is_measured(self) -> bool {
        &&& rate_is_measured(self.stats.net_in)
        &&& rate_is_measured(self.stats.net_out)
        &&& rate_is_measured(self.stats.disk_read)
        &&& rate_is_measured(self.stats.disk_write)
    }
}

/// Whether a throughput was measured over at least the least time between two
/// samples, unless no byte moved.
pub open spec fn rate_is_measured(rate: Rate) -> bool {
    rate.bytes > 0 ==> rate.nanos >= MIN_SAMPLE_INTERVAL
}

/// Turns running counters into throughput.
pub struct IoSampler {
    last_net: Option<(u64, u64)>,
    last_disk: Option<(u64, u64)>,
    last_instant: Option<u128>,
    current: IoStats,
}

impl View for IoSampler {
    type V = SamplerView;

    closed spec fn view(&self) -> SamplerView {
        SamplerView {
            net: self.last_net,
            disk: self.last_disk,
            last: self.last_instant,
            stats: self.current,
        }
    }
}

impl IoSampler {
    /// Makes a sampler that has seen no counters yet.
    pub fn new() -> (res: Self)
        ensures
            res@ == (SamplerView { net: None, disk: None, last: None, stats: idle_stats() }),
    {
        IoSampler {
            last_net: None,
            last_disk: None,
            last_instant: None,
            current: IoStats::default(),
        }
    }

    /// Tells whether the counters have to be read for a sample at `now`.
    pub fn is_due(&self, now: u128) -> (res: bool)
        ensures
            res == self@.is_due(now),
    {
        match self.last_instant {
            Some(last) => now.saturating_sub(last) >= MIN_SAMPLE_INTERVAL,
            None => true,
        }
    }

    /// Takes a sample at `now` with the counters that were read; what could
    /// not be read is missing. The counters of a sample too early are ignored.
    pub fn sample(
        &mut self,
        now: u128,
        net_totals: Option<(u64, u64)>,
        disk_totals: Option<(u64, u64)>,
    ) -> (res: IoStats)
        ensures
            final(self)@ == old(self)@.sampled(now, net_totals, disk_totals),
            res == final(self)@.stats,
    {
        let last: u128 = match self.last_instant {
            Some(last) => last,
            None => {
                self.last_instant = Some(now);
                self.last_net = net_totals;
                self.last_disk = disk_totals;
                self.current = IoStats::default();
                return self.current;
            },
        };
        if !self.is_due(now) {
            return self.current;
        }
        let nanos: u128 = now.saturating_sub(last);

        if let Some((in_bytes, out_bytes)) = net_totals {
            if let Some((prev_in, prev_out)) = self.last_net {
                self.current.net_in = rate_from_delta(in_bytes, prev_in, nanos);
                self.current.net_out = rate_from_delta(out_bytes, prev_out, nanos);
            }
            self.last_net = Some((in_bytes, out_bytes));
        }
        if let Some((read_bytes, write_bytes)) = disk_totals {
            if let Some((prev_read, prev_write)) = self.last_disk {
                self.current.disk_read = rate_from_delta(read_bytes, prev_read, nanos);
                self.current.disk_write = rate_from_delta(write_bytes, prev_write, nanos);
            }
            self.last_disk = Some((read_bytes, write_bytes));
        }
        self.last_instant = Some(now);
        self.current
    }
}

/// One network interface as the system lists it.
#[derive(Debug, Clone, Copy)]
pub struct Interface {
    /// The family of its address, if it has one.
    pub family: Option<i32>,
    pub flags: i32,
    /// Bytes received and sent, if the system counts them.
    pub traffic: Option<(u64, u64)>,
}

/// The system's numbers for link addresses and interface flags.
#[derive(Debug, Clone, Copy, PartialEq, Eq, Structural)]
pub struct LinkNumbers {
    pub af_link: i32,
    pub iff_up: i32,
    pub iff_loopback: i32,
}

/// Whether an interface counts: a link that is up and leads out of the
/// machine.
pub open spec fn is_outward_link(iface: Interface, numbers: LinkNumbers) -> bool {
    &&& iface.family == Some(numbers.af_link)
    &&& (iface.flags & numbers.iff_up) != 0
    &&& (iface.flags & numbers.iff_loopback) == 0
}

impl Interface {
    /// Tells whether the interface counts.
    pub fn is_valid_link_interface(&self, numbers: &LinkNumbers) -> (res: bool)
        ensures
            res == is_outward_link(*self, *numbers),
    {
        match self.family {
            None => false,
            Some(family) => family == numbers.af_link && (self.flags & numbers.iff_up) != 0 && (
            self.flags & numbers.iff_loopback) == 0,
        }
    }
}

/// `n`, or the largest counter where `n` is larger.
pub open spec fn saturated(n: nat) -> nat {
    if n > u64::MAX {
        u64::MAX as nat
    } else {
        n
    }
}

/// The bytes that the interfaces received (`.0`) and sent (`.1`).
pub open spec fn network_traffic(interfaces: Seq<Interface>, numbers: LinkNumbers) -> (nat, nat)
    decreases interfaces.len(),
{
    if interfaces.len() == 0 {
        (0, 0)
    } else {
        let before = network_traffic(interfaces.drop_last(), numbers);
        match interfaces.last().traffic {
            Some((rx, tx)) if is_outward_link(interfaces.last(), numbers) => (
                before.0 + rx as nat,
                before.1 + tx as nat,
            ),
            _ => before,
        }
    }
}

/// The interfaces that are looked at.
pub open spec fn looked_at(interfaces: Seq<Interface>) -> Seq<Interface> {
    if interfaces.len() <= MAX_INTERFACES {
        interfaces
    } else {
        interfaces.take(MAX_INTERFACES as int)
    }
}

/// The bytes received and sent over all interfaces that count, of the first
/// [`MAX_INTERFACES`]; nothing where the system could not list them.
pub fn read_network_counters(interfaces: Option<&[Interface]>, numbers: &LinkNumbers) -> (res:
    Option<(u64, u64)>)
    ensures
        match interfaces {
            Some(list) => {
                let total = network_traffic(looked_at(list@), *numbers);
                res matches Some((rx, tx)) && rx == saturated(total.0) && tx == saturated(total.1)
            },
            None => res is None,
        },
{
    let list = match interfaces {
        Some(list) => list,
        None => {
            return None;
        },
    };
    let mut total_in: u64 = 0;
    let mut total_out: u64 = 0;
    let mut i: usize = 0;
    while i < list.len() && i < MAX_INTERFACES
        invariant
            i <= list.len(),
            i <= MAX_INTERFACES,
            total_in == saturated(network_traffic(list@.take(i as int), *numbers).0),
            total_out == saturated(network_traffic(list@.take(i as int), *numbers).1),
        decreases list.len() - i,
    {
        assert(list@.take(i + 1).drop_last() =~= list@.take(i as int));
        if list[i].is_valid_link_interface(numbers) {
            if let Some((rx, tx)) = list[i].traffic {
                total_in = total_in.saturating_add(rx);
                total_out = total_out.saturating_add(tx);
            }
        }
        i += 1;
    }
    assert(list@.take(i as int) =~= looked_at(list@));
    Some((total_in, total_out))
}

/// A counter that the system keeps as a signed number; a negative one counts
/// as zero.
pub open spec fn counter_of(raw: i64) -> int {
    if raw < 0 {
        0
    } else {
        raw as int
    }
}

/// The value of a counter that the system keeps as a signed number.
pub fn counter_value(raw: i64) -> (res: u64)
    ensures
        res == counter_of(raw),
{
    if raw < 0 {
        0
    } else {
        raw as u64
    }
}

/// The bytes read from and written to one disk, where the system tells both.
pub fn read_entry_bytes(bytes_read: Option<i64>, bytes_write: Option<i64>) -> (res: Option<
    (u64, u64),
>)
    ensures
        match (bytes_read, bytes_write) {
            (Some(read), Some(write)) => res == Some(
                (counter_of(read) as u64, counter_of(write) as u64),
            ),
            _ => res is None,
        },
{
    match (bytes_read, bytes_write) {
        (Some(read), Some(write)) => Some((counter_value(read), counter_value(write))),
        _ => None,
    }
}

/// The bytes read from (`.0`) and written to (`.1`) the disks that tell.
pub open spec fn disk_traffic(entries: Seq<Option<(u64, u64)>>) -> (nat, nat)
    decreases entries.len(),
{
    if entries.len() == 0 {
        (0, 0)
    } else {
        let before = disk_traffic(entries.drop_last());
        match entries.last() {
            Some((read, write)) => (before.0 + read as nat, before.1 + write as nat),
            None => before,
        }
    }
}

/// The bytes read from and written to all disks; nothing where the system
/// could not list them.
pub fn read_disk_counters(entries: Option<&[Option<(u64, u64)>]>) -> (res: Option<(u64, u64)>)
    ensures
        match entries {
            Some(list) => {
                let total = disk_traffic(list@);
                res matches Some((read, write)) && read == saturated(total.0) && write == saturated(
                    total.1,
                )
            },
            None => res is None,
        },
{
    let list = match entries {
        Some(list) => list,
        None => {
            return None;
        },
    };
    let mut total_read: u64 = 0;
    let mut total_write: u64 = 0;
    let mut i: usize = 0;
    while i < list.len()
        invariant
            i <= list.len(),
            total_read == saturated(disk_traffic(list@.take(i as int)).0),
            total_write == saturated(disk_traffic(list@.take(i as int)).1),
        decreases list.len() - i,
    {
        assert(list@.take(i + 1).drop_last() =~= list@.take(i as int));
        if let Some((read, write)) = list[i] {
            total_read = total_read.saturating_add(read);
            total_write = total_write.saturating_add(write);
        }
        i += 1;
    }
    assert(list@.take(i as int) =~= list@);
    Some((total_read, total_write))
}

/// A sample that comes too early changes nothing, whatever counters it brings.
pub proof fn law_early_sample_changes_nothing(
    before: SamplerView,
    now: u128,
    net: Option<(u64, u64)>,
    disk: Option<(u64, u64)>,
)
    requires
        !before.is_due(now),
    ensures
        before.sampled(now, net, disk) == before,
{
}

/// Right after a sample, no other is due for the least time between two.
pub proof fn law_next_sample_waits(
    before: SamplerView,
    now: u128,
    net: Option<(u64, u64)>,
    disk: Option<(u64, u64)>,
    later: u128,
)
    requires
        before.is_due(now),
        later - now < MIN_SAMPLE_INTERVAL,
    ensures
        !before.sampled(now, net, disk).is_due(later),
{
}

/// Throughput is never measured over less than the least time between two
/// samples: true of a sampler that has seen nothing, and kept by each sample.
pub proof fn law_rates_are_measured(
    before: SamplerView,
    now: u128,
    net: Option<(u64, u64)>,
    disk: Option<(u64, u64)>,
)
    ensures
        (SamplerView { net: None, disk: None, last: None, stats: idle_stats() }).is_measured(),
        before.is_measured() ==> before.sampled(now, net, disk).is_measured(),
{
}

/// The throughput of a sample accounts for every byte that was counted since
/// the one before, as long as no counter fell back.
pub proof fn law_no_byte_is_lost(
    before: SamplerView,
    now: u128,
    old_net: (u64, u64),
    net: (u64, u64),
    old_disk: (u64, u64),
    disk: (u64, u64),
)
    requires
        before.last is Some,
        before.is_due(now),
        before.net == Some(old_net),
        old_net.0 <= net.0 && old_net.1 <= net.1,
        before.disk == Some(old_disk),
        old_disk.0 <= disk.0 && old_disk.1 <= disk.1,
    ensures
        ({
            let stats = before.sampled(now, Some(net), Some(disk)).stats;
            &&& old_net.0 + stats.net_in.bytes == net.0
            &&& old_net.1 + stats.net_out.bytes == net.1
            &&& old_disk.0 + stats.disk_read.bytes == disk.0
            &&& old_disk.1 + stats.disk_write.bytes == disk.1
        }),
{
}

/// A throughput is the rise of the counter over the whole time: the bytes are
/// what the counter rose by, unless it did not rise or no time passed, and then
/// there are none; the time is the time given.
pub proof fn law_rate_is_the_rise_over_the_time(current: u64, previous: u64, nanos: u128, rate: Rate)
    requires
        call_ensures(rate_from_delta, (current, previous, nanos), rate),
    ensures
        rate.nanos == nanos,
        current > previous && nanos > 0 ==> previous + rate.bytes == current,
        current <= previous || nanos == 0 ==> rate.bytes == 0,
{
}

/// A sample is due where none was taken, and half a second after the last.
pub proof fn law_sample_is_due_after_half_a_second(sampler: &IoSampler, now: u128, due: bool)
    requires
        call_ensures(IoSampler::is_due, (sampler, now), due),
    ensures
        match sampler@.last {
            Some(last) => due == (now - last >= 500_000_000),
            None => due,
        },
{
}

/// The first sample finds no throughput and remembers what it read.
pub proof fn law_first_sample_only_remembers(
    sampler: &mut IoSampler,
    now: u128,
    net: Option<(u64, u64)>,
    disk: Option<(u64, u64)>,
    stats: IoStats,
)
    requires
        call_ensures(IoSampler::sample, (sampler, now, net, disk), stats),
        old(sampler)@.last is None,
    ensures
        stats.net_in.bytes == 0 && stats.net_out.bytes == 0,
        stats.disk_read.bytes == 0 && stats.disk_write.bytes == 0,
        final(sampler)@.net == net,
        final(sampler)@.disk == disk,
        final(sampler)@.last == Some(now),
        final(sampler)@.stats == stats,
{
}

/// The throughput that a sample finds is over exactly the time since the
/// sample before it, and over what the counters rose by in that time. Counters
/// that were not read both times leave their throughput as it was; counters
/// that were read this time are remembered, and others stay as they were known.
pub proof fn law_sample_measures_since_the_one_before(
    sampler: &mut IoSampler,
    now: u128,
    net: Option<(u64, u64)>,
    disk: Option<(u64, u64)>,
    last: u128,
    stats: IoStats,
)
    requires
        call_ensures(IoSampler::sample, (sampler, now, net, disk), stats),
        old(sampler)@.last == Some(last),
        now - last >= 500_000_000,
    ensures
        match (net, old(sampler)@.net) {
            (Some(read), Some(known)) => {
                &&& stats.net_in.nanos == now - last && stats.net_out.nanos == now - last
                &&& read.0 > known.0 ==> known.0 + stats.net_in.bytes == read.0
                &&& read.0 <= known.0 ==> stats.net_in.bytes == 0
                &&& read.1 > known.1 ==> known.1 + stats.net_out.bytes == read.1
                &&& read.1 <= known.1 ==> stats.net_out.bytes == 0
            },
            _ => {
                &&& stats.net_in == old(sampler)@.stats.net_in
                &&& stats.net_out == old(sampler)@.stats.net_out
            },
        },
        match (disk, old(sampler)@.disk) {
            (Some(read), Some(known)) => {
                &&& stats.disk_read.nanos == now - last && stats.disk_write.nanos == now - last
                &&& read.0 > known.0 ==> known.0 + stats.disk_read.bytes == read.0
                &&& read.0 <= known.0 ==> stats.disk_read.bytes == 0
                &&& read.1 > known.1 ==> known.1 + stats.disk_write.bytes == read.1
                &&& read.1 <= known.1 ==> stats.disk_write.bytes == 0
            },
            _ => {
                &&& stats.disk_read == old(sampler)@.stats.disk_read
                &&& stats.disk_write == old(sampler)@.stats.disk_write
            },
        },
        net is Some ==> final(sampler)@.net == net,
        net is None ==> final(sampler)@.net == old(sampler)@.net,
        disk is Some ==> final(sampler)@.disk == disk,
        disk is None ==> final(sampler)@.disk == old(sampler)@.disk,
        final(sampler)@.last == Some(now),
        final(sampler)@.stats == stats,
{
}

/// A sample within half a second of the one before gives what that one gave and
/// leaves the sampler as it was.
pub proof fn law_sample_within_half_a_second_repeats(
    sampler: &mut IoSampler,
    now: u128,
    net: Option<(u64, u64)>,
    disk: Option<(u64, u64)>,
    last: u128,
    stats: IoStats,
)
    requires
        call_ensures(IoSampler::sample, (sampler, now, net, disk), stats),
        old(sampler)@.last == Some(last),
        now - last < 500_000_000,
    ensures
        stats == old(sampler)@.stats,
        final(sampler)@ == old(sampler)@,
{
}

/// Two samples in a row account for what lies between them: whatever a new
/// sampler reads first, the second sample, half a second later or more, finds
/// what the counters rose by in between, over the whole time between the two.
pub proof fn law_two_samples_measure_what_lies_between(
    new: IoSampler,
    first: &mut IoSampler,
    second: &mut IoSampler,
    then: u128,
    now: u128,
    net: (u64, u64),
    later_net: (u64, u64),
    disk: (u64, u64),
    later_disk: (u64, u64),
    none: IoStats,
    stats: IoStats,
)
    requires
        call_ensures(IoSampler::new, (), new),
        *old(first) == new,
        call_ensures(IoSampler::sample, (first, then, Some(net), Some(disk)), none),
        *old(second) == *final(first),
        call_ensures(IoSampler::sample, (second, now, Some(later_net), Some(later_disk)), stats),
        now - then >= 500_000_000,
        net.0 <= later_net.0 && net.1 <= later_net.1,
        disk.0 <= later_disk.0 && disk.1 <= later_disk.1,
    ensures
        stats.net_in.bytes == later_net.0 - net.0,
        stats.net_out.bytes == later_net.1 - net.1,
        stats.disk_read.bytes == later_disk.0 - disk.0,
        stats.disk_write.bytes == later_disk.1 - disk.1,
        stats.net_in.nanos == now - then && stats.net_out.nanos == now - then,
        stats.disk_read.nanos == now - then && stats.disk_write.nanos == now - then,
{
}

/// An interface counts if it has a link address, is up and does not lead back
/// to the machine itself.
pub proof fn law_what_counts_as_a_link(iface: &Interface, numbers: &LinkNumbers, counts: bool)
    requires
        call_ensures(Interface::is_valid_link_interface, (iface, numbers), counts),
    ensures
        counts <==> iface.family == Some(numbers.af_link) && (iface.flags & numbers.iff_up) != 0 && (
        iface.flags & numbers.iff_loopback) == 0,
{
}

proof fn lemma_network_traffic_adds_up(
    first: Seq<Interface>,
    second: Seq<Interface>,
    numbers: LinkNumbers,
)
    ensures
        network_traffic(first + second, numbers).0 == network_traffic(first, numbers).0
            + network_traffic(second, numbers).0,
        network_traffic(first + second, numbers).1 == network_traffic(first, numbers).1
            + network_traffic(second, numbers).1,
    decreases second.len(),
{
    if second.len() == 0 {
        assert(first + second =~= first);
    } else {
        lemma_network_traffic_adds_up(first, second.drop_last(), numbers);
        assert((first + second).drop_last() =~= first + second.drop_last());
        assert((first + second).last() == second.last());
    }
}

/// The sum of two counters, which stops at the largest counter.
pub open spec fn is_capped_sum(sum: u64, a: u64, b: u64) -> bool {
    &&& a + b <= u64::MAX ==> sum == a + b
    &&& a + b > u64::MAX ==> sum == u64::MAX
}

/// The traffic of two lists of interfaces, one after the other and a thousand
/// interfaces at most, is that of the one and that of the other together, up to
/// the largest counter.
pub proof fn law_network_traffic_adds_up(
    first: &[Interface],
    second: &[Interface],
    both: &[Interface],
    numbers: &LinkNumbers,
    of_first: (u64, u64),
    of_second: (u64, u64),
    of_both: (u64, u64),
)
    requires
        both@ == first@ + second@,
        both@.len() <= 1000,
        call_ensures(read_network_counters, (Some(first), numbers), Some(of_first)),
        call_ensures(read_network_counters, (Some(second), numbers), Some(of_second)),
        call_ensures(read_network_counters, (Some(both), numbers), Some(of_both)),
    ensures
        is_capped_sum(of_both.0, of_first.0, of_second.0),
        is_capped_sum(of_both.1, of_first.1, of_second.1),
{
    lemma_network_traffic_adds_up(first@, second@, *numbers);
}

/// The traffic of a single interface is what it reports, if it counts and
/// reports any.
pub proof fn law_traffic_of_one_interface(
    list: &[Interface],
    numbers: &LinkNumbers,
    counts: bool,
    total: Option<(u64, u64)>,
)
    requires
        list@.len() == 1,
        call_ensures(Interface::is_valid_link_interface, (&list@[0], numbers), counts),
        call_ensures(read_network_counters, (Some(list), numbers), total),
    ensures
        counts && list@[0].traffic is Some ==> total == list@[0].traffic,
        !counts || list@[0].traffic is None ==> total == Some((0u64, 0u64)),
{
    let before = list@.drop_last();
    assert(before =~= seq![]);
    assert(network_traffic(before, *numbers) == (0nat, 0nat));
    assert(list@.last() == list@[0]);
}

/// No traffic is read where the system could not list the interfaces, and some
/// is wherever it could; without interfaces it is none.
pub proof fn law_traffic_is_read_where_interfaces_are_listed(
    interfaces: Option<&[Interface]>,
    numbers: &LinkNumbers,
    total: Option<(u64, u64)>,
)
    requires
        call_ensures(read_network_counters, (interfaces, numbers), total),
    ensures
        total is Some == interfaces is Some,
        interfaces matches Some(list) && list@.len() == 0 ==> total == Some((0u64, 0u64)),
{
}

/// Interfaces after the first thousand change nothing.
pub proof fn law_later_interfaces_change_nothing(
    list: &[Interface],
    longer: &[Interface],
    numbers: &LinkNumbers,
    total: Option<(u64, u64)>,
    longer_total: Option<(u64, u64)>,
)
    requires
        list@.len() == 1000,
        longer@.len() >= 1000,
        longer@.take(1000) == list@,
        call_ensures(read_network_counters, (Some(list), numbers), total),
        call_ensures(read_network_counters, (Some(longer), numbers), longer_total),
    ensures
        longer_total == total,
{
    assert(looked_at(longer@) =~= list@);
}

/// The system's signed counters count from zero: a negative one is zero, and
/// every other is what it is.
pub proof fn law_negative_counters_are_zero(raw: i64, value: u64)
    requires
        call_ensures(counter_value, (raw,), value),
    ensures
        raw >= 0 ==> value == raw,
        raw < 0 ==> value == 0,
{
}

/// A disk counts if the system tells both what was read from it and what was
/// written to it.
pub proof fn law_disk_tells_both_or_nothing(
    bytes_read: Option<i64>,
    bytes_write: Option<i64>,
    entry: Option<(u64, u64)>,
)
    requires
        call_ensures(read_entry_bytes, (bytes_read, bytes_write), entry),
    ensures
        entry is Some == (bytes_read is Some && bytes_write is Some),
        entry matches Some((read, write)) ==> {
            &&& bytes_read matches Some(r) && (r >= 0 ==> read == r) && (r < 0 ==> read == 0)
            &&& bytes_write matches Some(w) && (w >= 0 ==> write == w) && (w < 0 ==> write == 0)
        },
{
}

proof fn lemma_disk_traffic_adds_up(
    first: Seq<Option<(u64, u64)>>,
    second: Seq<Option<(u64, u64)>>,
)
    ensures
        disk_traffic(first + second).0 == disk_traffic(first).0 + disk_traffic(second).0,
        disk_traffic(first + second).1 == disk_traffic(first).1 + disk_traffic(second).1,
    decreases second.len(),
{
    if second.len() == 0 {
        assert(first + second =~= first);
    } else {
        lemma_disk_traffic_adds_up(first, second.drop_last());
        assert((first + second).drop_last() =~= first + second.drop_last());
        assert((first + second).last() == second.last());
    }
}

/// The traffic of two lists of disks, one after the other, is that of the one
/// and that of the other together, up to the largest counter.
pub proof fn law_disk_traffic_adds_up(
    first: &[Option<(u64, u64)>],
    second: &[Option<(u64, u64)>],
    both: &[Option<(u64, u64)>],
    of_first: (u64, u64),
    of_second: (u64, u64),
    of_both: (u64, u64),
)
    requires
        both@ == first@ + second@,
        call_ensures(read_disk_counters, (Some(first),), Some(of_first)),
        call_ensures(read_disk_counters, (Some(second),), Some(of_second)),
        call_ensures(read_disk_counters, (Some(both),), Some(of_both)),
    ensures
        is_capped_sum(of_both.0, of_first.0, of_second.0),
        is_capped_sum(of_both.1, of_first.1, of_second.1),
{
    lemma_disk_traffic_adds_up(first@, second@);
}

/// The traffic of a single disk is what it tells, and none where it does not;
/// of no disks it is none; and nothing is read where the system could not list
/// the disks.
pub proof fn law_traffic_of_one_disk(
    entries: Option<&[Option<(u64, u64)>]>,
    total: Option<(u64, u64)>,
)
    requires
        call_ensures(read_disk_counters, (entries,), total),
        entries matches Some(list) ==> list@.len() <= 1,
    ensures
        match entries {
            Some(list) => if list@.len() == 1 && list@[0] is Some {
                total == list@[0]
            } else {
                total == Some((0u64, 0u64))
            },
            None => total is None,
        },
{
    if let Some(list) = entries {
        if list@.len() == 1 {
            let before = list@.drop_last();
            assert(before =~= seq![]);
            assert(disk_traffic(before) == (0nat, 0nat));
            assert(list@.last() == list@[0]);
        }
    }
}

} // verus!
