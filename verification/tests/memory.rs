use asitop::memory::{MemoryReader, MemoryStats, PageCounts, SWAP_SHOWN_FROM};

const SECOND: u128 = 1_000_000_000;

fn pages() -> PageCounts {
    PageCounts { active: 100, wired: 50, compressed: 25, inactive: 30, free: 20, speculative: 5 }
}

#[test]
fn use_of_a_known_memory() {
    let mut reader = MemoryReader::new(16384, Some(300 * 16384));
    assert!(!reader.needs_total());
    let stats = reader.read(Some(pages()), Some(1), 0, Some((4096, 1024)));
    assert_eq!(
        stats,
        MemoryStats { total: 300 * 16384, used: 255 * 16384, swap_total: 4096, swap_used: 1024 }
    );
}

#[test]
fn use_of_an_unknown_memory() {
    let mut reader = MemoryReader::new(4096, None);
    assert!(reader.needs_total());
    let stats = reader.read(Some(pages()), None, 0, None);
    assert_eq!(
        stats,
        MemoryStats { total: 220 * 4096, used: 175 * 4096, swap_total: 0, swap_used: 0 }
    );
    assert!(reader.needs_total());
}

#[test]
fn size_is_taken_over_once_told() {
    let mut reader = MemoryReader::new(4096, None);
    assert_eq!(reader.read(Some(pages()), Some(1 << 30), 0, None).total, 1 << 30);
    assert!(!reader.needs_total());
    assert_eq!(reader.read(Some(pages()), Some(7), 1, None).total, 1 << 30);
}

#[test]
fn small_or_missing_page_sizes_are_not_believed() {
    for told in [-1, 0, 1, 4095, 4096] {
        let mut reader = MemoryReader::new(told, None);
        assert_eq!(reader.read(Some(pages()), None, 0, None).total, 220 * 4096);
    }
}

#[test]
fn more_speculative_than_free_pages() {
    let mut reader = MemoryReader::new(4096, Some(100 * 4096));
    let counts = PageCounts { free: 3, speculative: 9, ..pages() };
    assert_eq!(reader.read(Some(counts), None, 0, None).used, 70 * 4096);
}

#[test]
fn more_available_than_there_is() {
    let mut reader = MemoryReader::new(4096, Some(10 * 4096));
    let stats = reader.read(Some(pages()), None, 0, None);
    assert_eq!(stats.used, 0);
    assert_eq!(stats.total, 10 * 4096);
}

#[test]
fn without_page_counts_only_the_size_is_known() {
    let mut reader = MemoryReader::new(4096, Some(1 << 30));
    let stats = reader.read(None, None, 0, Some((5, 5)));
    assert_eq!(stats, MemoryStats { total: 1 << 30, used: 0, swap_total: 0, swap_used: 0 });
    assert!(reader.swap_is_due(0));
}

#[test]
fn swap_use_is_asked_for_once_a_second() {
    let mut reader = MemoryReader::new(4096, Some(1 << 30));
    assert!(reader.swap_is_due(0));
    assert_eq!(reader.read(Some(pages()), None, 0, Some((8, 3))).swap_used, 3);
    assert!(!reader.swap_is_due(SECOND - 1));
    assert_eq!(reader.read(Some(pages()), None, SECOND - 1, Some((8, 9))).swap_used, 3);
    assert!(reader.swap_is_due(SECOND));
    let stats = reader.read(Some(pages()), None, SECOND, Some((16, 9)));
    assert_eq!((stats.swap_total, stats.swap_used), (16, 9));
    let stats = reader.read(Some(pages()), None, 2 * SECOND, None);
    assert_eq!((stats.swap_total, stats.swap_used), (0, 0));
}

#[test]
fn counts_that_do_not_fit() {
    let reader = MemoryReader::new(i64::MAX, None);
    let one = PageCounts {
        active: 1,
        wired: 0,
        compressed: 0,
        inactive: 0,
        free: 0,
        speculative: 0,
    };
    assert!(reader.fits(&PageCounts { active: 2, ..one }));
    assert!(!reader.fits(&PageCounts { active: 3, ..one }));
    assert!(!reader.fits(&PageCounts { speculative: 3, ..one }));
    let usual = MemoryReader::new(16384, None);
    assert!(usual.fits(&PageCounts { free: u32::MAX, ..one }));
}

#[test]
fn totals_saturate() {
    let mut reader = MemoryReader::new(1 << 32, None);
    let all = PageCounts {
        active: u32::MAX,
        wired: 1,
        compressed: 0,
        inactive: u32::MAX,
        free: 0,
        speculative: 0,
    };
    let stats = reader.read(Some(all), None, 0, None);
    assert_eq!(stats.total, u64::MAX);
    assert_eq!(stats.used, (1 << 32) - 1);
}

#[test]
fn used_never_exceeds_total() {
    for known in [0u64, 1, 1000, 1 << 40] {
        for free in [0u32, 7, 100_000] {
            let mut reader = MemoryReader::new(4096, Some(known));
            let stats = reader.read(Some(PageCounts { free, ..pages() }), None, 0, None);
            assert!(stats.used <= stats.total);
        }
    }
}

#[test]
fn swap_is_shown_from_a_tenth_of_a_gibibyte() {
    let in_gib = |bytes: u64| (bytes as f32) / (1024.0 * 1024.0 * 1024.0);
    for bytes in SWAP_SHOWN_FROM - 50..SWAP_SHOWN_FROM + 50 {
        let stats = MemoryStats { total: 0, used: 0, swap_total: bytes, swap_used: 0 };
        assert_eq!(stats.has_swap(), in_gib(bytes) >= 0.1);
    }
    for bytes in [0, 1 << 20, 100 << 20, 103 << 20, 1 << 30, u64::MAX] {
        let stats = MemoryStats { total: 0, used: 0, swap_total: bytes, swap_used: 0 };
        assert_eq!(stats.has_swap(), in_gib(bytes) >= 0.1);
    }
}

#[test]
fn no_memory_by_default() {
    let none = MemoryStats { total: 0, used: 0, swap_total: 0, swap_used: 0 };
    assert_eq!(MemoryStats::default(), none);
}
