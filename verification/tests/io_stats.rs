use asitop::io_stats::{
    counter_value, rate_from_delta, read_disk_counters, read_entry_bytes, read_network_counters,
    Interface, IoSampler, IoStats, LinkNumbers, Rate, MAX_INTERFACES,
};

const MS: u128 = 1_000_000;

const NUMBERS: LinkNumbers = LinkNumbers { af_link: 18, iff_up: 1, iff_loopback: 8 };

fn link(flags: i32, rx: u64, tx: u64) -> Interface {
    Interface { family: Some(18), flags, traffic: Some((rx, tx)) }
}

#[test]
fn first_sample_only_remembers() {
    let mut sampler = IoSampler::new();
    assert!(sampler.is_due(0));
    assert_eq!(sampler.sample(0, Some((100, 200)), Some((300, 400))), IoStats::default());
}

#[test]
fn second_sample_finds_rates() {
    let mut sampler = IoSampler::new();
    sampler.sample(10 * MS, Some((100, 200)), Some((300, 400)));
    let stats = sampler.sample(1010 * MS, Some((150, 260)), Some((370, 480)));
    assert_eq!(stats.net_in, Rate { bytes: 50, nanos: 1000 * MS });
    assert_eq!(stats.net_out, Rate { bytes: 60, nanos: 1000 * MS });
    assert_eq!(stats.disk_read, Rate { bytes: 70, nanos: 1000 * MS });
    assert_eq!(stats.disk_write, Rate { bytes: 80, nanos: 1000 * MS });
}

#[test]
fn early_sample_is_ignored() {
    let mut sampler = IoSampler::new();
    sampler.sample(0, Some((100, 200)), None);
    let stats = sampler.sample(600 * MS, Some((200, 300)), None);
    assert!(!sampler.is_due(1099 * MS));
    assert_eq!(sampler.sample(1099 * MS, Some((999, 999)), Some((1, 1))), stats);
    assert!(sampler.is_due(1100 * MS));
    let stats = sampler.sample(1100 * MS, Some((260, 300)), None);
    assert_eq!(stats.net_in, Rate { bytes: 60, nanos: 500 * MS });
    assert_eq!(stats.net_out.bytes, 0);
}

#[test]
fn clock_that_stands_before_the_last_sample() {
    let mut sampler = IoSampler::new();
    sampler.sample(1000 * MS, Some((1, 1)), Some((1, 1)));
    assert!(!sampler.is_due(0));
    assert_eq!(sampler.sample(0, Some((9, 9)), Some((9, 9))), IoStats::default());
}

#[test]
fn unreadable_counters_keep_what_was_known() {
    let mut sampler = IoSampler::new();
    sampler.sample(0, Some((0, 0)), None);
    let first = sampler.sample(500 * MS, Some((10, 20)), Some((5, 6)));
    assert_eq!(first.net_in.bytes, 10);
    assert_eq!(first.disk_read, Rate { bytes: 0, nanos: 0 });
    let second = sampler.sample(1000 * MS, None, Some((7, 9)));
    assert_eq!(second.net_in, first.net_in);
    assert_eq!(second.disk_read, Rate { bytes: 2, nanos: 500 * MS });
    assert_eq!(second.disk_write, Rate { bytes: 3, nanos: 500 * MS });
    let third = sampler.sample(1500 * MS, Some((40, 20)), None);
    assert_eq!(third.net_in, Rate { bytes: 30, nanos: 500 * MS });
    assert_eq!(third.disk_read, second.disk_read);
}

#[test]
fn fallen_counter_counts_as_still() {
    assert_eq!(rate_from_delta(5, 9, 3), Rate { bytes: 0, nanos: 3 });
    assert_eq!(rate_from_delta(9, 9, 3), Rate { bytes: 0, nanos: 3 });
    assert_eq!(rate_from_delta(u64::MAX, 0, 3), Rate { bytes: u64::MAX, nanos: 3 });
}

#[test]
fn nothing_moves_in_no_time() {
    assert_eq!(rate_from_delta(1_048_576, 0, 0), Rate { bytes: 0, nanos: 0 });
    assert_eq!(rate_from_delta(0, 1_048_576, 0), Rate { bytes: 0, nanos: 0 });
    assert_eq!(rate_from_delta(1_048_576, 0, 1), Rate { bytes: 1_048_576, nanos: 1 });
    assert_eq!(
        rate_from_delta(3_145_728, 1_048_576, 500 * MS),
        Rate { bytes: 2_097_152, nanos: 500 * MS }
    );
}

#[test]
fn every_byte_is_accounted_for() {
    let mut sampler = IoSampler::new();
    let mut seen = 1000u64;
    sampler.sample(0, Some((seen, 0)), None);
    for round in 1..20u64 {
        let now = seen + round * 13;
        let stats = sampler.sample(round as u128 * 700 * MS, Some((now, 0)), None);
        assert_eq!(seen + stats.net_in.bytes, now);
        assert!(stats.net_in.nanos >= 500 * MS);
        seen = now;
    }
}

#[test]
fn only_outward_links_that_are_up_count() {
    assert!(link(1, 0, 0).is_valid_link_interface(&NUMBERS));
    assert!(link(0x8863, 0, 0).is_valid_link_interface(&NUMBERS));
    assert!(!link(0, 0, 0).is_valid_link_interface(&NUMBERS));
    assert!(!link(9, 0, 0).is_valid_link_interface(&NUMBERS));
    let inet = Interface { family: Some(2), flags: 1, traffic: Some((1, 1)) };
    assert!(!inet.is_valid_link_interface(&NUMBERS));
    let bare = Interface { family: None, flags: 1, traffic: Some((1, 1)) };
    assert!(!bare.is_valid_link_interface(&NUMBERS));
}

#[test]
fn network_counters_add_up() {
    let list = vec![
        link(1, 10, 20),
        link(9, 1000, 1000),
        Interface { family: Some(18), flags: 1, traffic: None },
        link(1, 5, 6),
    ];
    assert_eq!(read_network_counters(Some(&list), &NUMBERS), Some((15, 26)));
    assert_eq!(read_network_counters(Some(&[]), &NUMBERS), Some((0, 0)));
    assert_eq!(read_network_counters(None, &NUMBERS), None);
}

#[test]
fn network_counters_saturate() {
    let list = vec![link(1, u64::MAX, 1), link(1, 5, u64::MAX - 1), link(1, 1, 7)];
    assert_eq!(read_network_counters(Some(&list), &NUMBERS), Some((u64::MAX, u64::MAX)));
}

#[test]
fn interfaces_past_the_limit_are_not_looked_at() {
    let list = vec![link(1, 1, 2); MAX_INTERFACES + 5];
    assert_eq!(read_network_counters(Some(&list), &NUMBERS), Some((1000, 2000)));
}

#[test]
fn disk_counters_add_up() {
    let list = [Some((1, 2)), None, Some((10, 20))];
    assert_eq!(read_disk_counters(Some(&list)), Some((11, 22)));
    assert_eq!(read_disk_counters(Some(&[])), Some((0, 0)));
    assert_eq!(read_disk_counters(None), None);
    let full = [Some((u64::MAX, 0)), Some((1, 1))];
    assert_eq!(read_disk_counters(Some(&full)), Some((u64::MAX, 1)));
}

#[test]
fn disk_entries_need_both_figures() {
    assert_eq!(read_entry_bytes(Some(5), Some(-3)), Some((5, 0)));
    assert_eq!(read_entry_bytes(Some(5), None), None);
    assert_eq!(read_entry_bytes(None, Some(5)), None);
    assert_eq!(counter_value(i64::MIN), 0);
    assert_eq!(counter_value(i64::MAX), i64::MAX as u64);
}
