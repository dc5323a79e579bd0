//! Memory and swap use, from the system's page counts.

use vstd::prelude::*;

verus! {

/// How old the known swap use may get, in nanoseconds.
pub const SWAP_UPDATE_INTERVAL: u128 = 1_000_000_000;

/// The least page size that is believed.
pub const MIN_PAGE_SIZE: u64 = 4096;

/// The least swap space, in bytes, that is worth showing: what reads as a
/// tenth of a gibibyte in single precision.
pub const SWAP_SHOWN_FROM: u64 = 107_374_181;

/// Memory and swap use, in bytes.
#[derive(Debug, Clone, Copy, PartialEq, Eq, Structural)]
pub struct MemoryStats {
    pub total: u64,
    pub used: u64,
    pub swap_total: u64,
    pub swap_used: u64,
}

/// No memory at all.
pub open spec fn no_memory() -> MemoryStats {
    MemoryStats { total: 0, used: 0, swap_total: 0, swap_used: 0 }
}

impl Default for MemoryStats {
    fn default() -> (res: Self)
        ensures
            res == no_memory(),
    {
        MemoryStats { total: 0, used: 0, swap_total: 0, swap_used: 0 }
    }
}

impl MemoryStats {
    /// Tells whether there is swap space worth showing.
    pub fn has_swap(&self) -> (res: bool)
        ensures
            res == (self.swap_total >= SWAP_SHOWN_FROM),
    {
        self.swap_total >= SWAP_SHOWN_FROM
    }
}

/// The system's page counts.
#[derive(Debug, Clone, Copy, PartialEq, Eq, Structural)]
pub struct PageCounts {
    pub active: u32,
    pub wired: u32,
    pub compressed: u32,
    pub inactive: u32,
    pub free: u32,
    pub speculative: u32,
}

/// `n`, or the largest byte count where `n` is larger.
pub open spec fn capped(n: int) -> int {
    if n > u64::MAX {
        u64::MAX as int
    } else {
        n
    }
}

/// `n`, or zero where `n` is negative.
pub open spec fn floored(n: int) -> int {
    if n < 0 {
        0
    } else {
        n
    }
}

/// The bytes that could be handed out: inactive pages and free pages, the
/// latter without the speculative ones.
pub open spec fn available_bytes(pages: PageCounts, page_size: int) -> int {
    capped(
        pages.inactive * page_size + floored(
            pages.free * page_size - pages.speculative * page_size,
        ),
    )
}

/// The size of the memory: what the system says, or else the sum of what its
/// pages account for.
pub open spec fn memory_size(known: u64, pages: PageCounts, page_size: int) -> int {
    if known > 0 {
        known as int
    } else {
        capped(
            available_bytes(pages, page_size) + pages.active * page_size + pages.wired * page_size
                + pages.compressed * page_size,
        )
    }
}

/// What a reader remembers.
#[verifier::ext_equal]
pub struct ReaderView {
    /// The size of a page as the system told it.
    pub page_size: u64,
    /// The size of the memory; zero as long as the system has not told it.
    pub total: u64,
    /// The swap space and how much of it is used, when last asked for.
    pub swap: (u64, u64),
    /// When that was.
    pub swap_read: Option<u128>,
}

impl ReaderView {
    /// The page size that is reckoned with.
    pub open spec fn believed_page_size(self) -> int {
        if self.page_size > MIN_PAGE_SIZE {
            self.page_size as int
        } else {
            MIN_PAGE_SIZE as int
        }
    }

    /// Whether every page count, in bytes, fits its type.
    pub open spec fn counts_fit(self, pages: PageCounts) -> bool {
        let size = self.believed_page_size();
        &&& pages.active * size <= u64::MAX
        &&& pages.wired * size <= u64::MAX
        &&& pages.compressed * size <= u64::MAX
        &&& pages.inactive * size <= u64::MAX
        &&& pages.free * size <= u64::MAX
        &&& pages.speculative * size <= u64::MAX
    }

    /// Whether the swap use has to be asked for at `now`.
    pub open spec fn swap_is_due(self, now: u128) -> bool {
        match self.swap_read {
            Some(last) => now - last >= SWAP_UPDATE_INTERVAL,
            None => true,
        }
    }

    /// What is remembered after a reading at `now` that got page counts. The
    /// size of the memory is taken over while it is unknown, and the swap use
    /// while it is due.
    pub open spec fn after_reading(
        self,
        total: Option<u64>,
        now: u128,
        swap: Option<(u64, u64)>,
    ) -> ReaderView {
        ReaderView {
            page_size: self.page_size,
            total: if self.total == 0 {
                total.unwrap_or(0)
            } else {
                self.total
            },
            swap: if self.swap_is_due(now) {
                swap.unwrap_or((0, 0))
            } else {
                self.swap
            },
            swap_read: if self.swap_is_due(now) {
                Some(now)
            } else {
                self.swap_read
            },
        }
    }

    /// The memory and swap use that the page counts and what is remembered
    /// amount to.
    pub open spec fn usage(self, pages: PageCounts) -> MemoryStats {
        let size = self.believed_page_size();
        let total = memory_size(self.total, pages, size);
        MemoryStats {
            total: total as u64,
            used: floored(total - available_bytes(pages, size)) as u64,
            swap_total: self.swap.0,
            swap_used: self.swap.1,
        }
    }
}

/// Reckons memory use and keeps what need not be asked for each time.
pub struct MemoryReader {
    page_size: u64,
    total_bytes: u64,
    cached_swap: (u64, u64),
    last_swap_update: Option<u128>,
}

impl View for MemoryReader {
    type V = ReaderView;

    closed spec fn view(&self) -> ReaderView {
        ReaderView {
            page_size: self.page_size,
            total: self.total_bytes,
            swap: self.cached_swap,
            swap_read: self.last_swap_update,
        }
    }
}

impl MemoryReader {
    /// Makes a reader from the page size and the size of the memory as the
    /// system told them. A page size that is not positive is taken as
    /// [`MIN_PAGE_SIZE`].
    pub fn new(page_size: i64, total: Option<u64>) -> (res: Self)
        ensures
            res@.page_size == (if page_size > 0 {
                page_size as int
            } else {
                MIN_PAGE_SIZE as int
            }),
            res@.total == total.unwrap_or(0),
            res@.swap == (0u64, 0u64),
            res@.swap_read is None,
    {
        MemoryReader {
            page_size: if page_size > 0 {
                page_size as u64
            } else {
                MIN_PAGE_SIZE
            },
            total_bytes: total.unwrap_or(0),
            cached_swap: (0, 0),
            last_swap_update: None,
        }
    }

    /// The page size that is reckoned with.
    fn believed(&self) -> (res: u64)
        ensures
            res == self@.believed_page_size(),
    {
        if self.page_size > MIN_PAGE_SIZE {
            self.page_size
        } else {
            MIN_PAGE_SIZE
        }
    }

    /// Tells whether every page count, in bytes, fits its type.
    pub fn fits(&self, pages: &PageCounts) -> (res: bool)
        ensures
            res == self@.counts_fit(*pages),
    {
        let size: u64 = self.believed();
        (pages.active as u64).checked_mul(size).is_some() && (pages.wired as u64).checked_mul(
            size,
        ).is_some() && (pages.compressed as u64).checked_mul(size).is_some() && (
        pages.inactive as u64).checked_mul(size).is_some() && (pages.free as u64).checked_mul(
            size,
        ).is_some() && (pages.speculative as u64).checked_mul(size).is_some()
    }

    /// Tells whether the size of the memory has yet to be asked for.
    pub fn needs_total(&self) -> (res: bool)
        ensures
            res == (self@.total == 0),
    {
        self.total_bytes == 0
    }

    /// Tells whether the swap use has to be asked for at `now`.
    pub fn swap_is_due(&self, now: u128) -> (res: bool)
        ensures
            res == self@.swap_is_due(now),
    {
        match self.last_swap_update {
            Some(last) => now.saturating_sub(last) >= SWAP_UPDATE_INTERVAL,
            None => true,
        }
    }

    /// Takes a reading at `now`: the page counts; the size of the memory,
    /// which is ignored unless it was needed; and the swap space and its use,
    /// which are ignored unless they were due. What the system would not tell
    /// is missing. Without page counts only the size of the memory is known,
    /// and nothing is remembered.
    pub fn read(
        &mut self,
        pages: Option<PageCounts>,
        total: Option<u64>,
        now: u128,
        swap: Option<(u64, u64)>,
    ) -> (res: MemoryStats)
        requires
            pages matches Some(counts) ==> old(self)@.counts_fit(counts),
        ensures
            match pages {
                None => {
                    &&& final(self)@ == old(self)@
                    &&& res == (MemoryStats {
                        total: old(self)@.total,
                        used: 0,
                        swap_total: 0,
                        swap_used: 0,
                    })
                },
                Some(counts) => {
                    &&& final(self)@ == old(self)@.after_reading(total, now, swap)
                    &&& res == final(self)@.usage(counts)
                },
            },
    {
        let counts = match pages {
            None => {
                return MemoryStats {
                    total: self.total_bytes,
                    used: 0,
                    swap_total: 0,
                    swap_used: 0,
                };
            },
            Some(counts) => counts,
        };
        let size: u64 = self.believed();
        if self.total_bytes == 0 {
            self.total_bytes = total.unwrap_or(0);
        }
        let active: u64 = counts.active as u64 * size;
        let wired: u64 = counts.wired as u64 * size;
        let compressed: u64 = counts.compressed as u64 * size;
        let inactive: u64 = counts.inactive as u64 * size;
        let speculative: u64 = counts.speculative as u64 * size;
        let free: u64 = (counts.free as u64 * size).saturating_sub(speculative);
        let available: u64 = inactive.saturating_add(free);
        let total_bytes: u64 = if self.total_bytes > 0 {
            self.total_bytes
        } else {
            available.saturating_add(active).saturating_add(wired).saturating_add(compressed)
        };
        let used: u64 = total_bytes.saturating_sub(available);
        if self.swap_is_due(now) {
            self.cached_swap = swap.unwrap_or((0, 0));
            self.last_swap_update = Some(now);
        }
        MemoryStats {
            total: total_bytes,
            used,
            swap_total: self.cached_swap.0,
            swap_used: self.cached_swap.1,
        }
    }
}

/// No more memory is in use than there is.
pub proof fn law_used_is_at_most_total(reader: ReaderView, pages: PageCounts)
    requires
        reader.counts_fit(pages),
    ensures
        reader.usage(pages).used <= reader.usage(pages).total,
{
    let size = reader.believed_page_size();
    lemma_sizes_are_natural(pages, size);
}

proof fn lemma_size_is_natural(count: u32, size: int)
    by (nonlinear_arith)
    requires
        size >= 0,
    ensures
        count * size >= 0,
{
}

proof fn lemma_sizes_are_natural(pages: PageCounts, size: int)
    requires
        size >= 0,
    ensures
        pages.active * size >= 0,
        pages.wired * size >= 0,
        pages.compressed * size >= 0,
        pages.inactive * size >= 0,
        pages.free * size >= 0,
        pages.speculative * size >= 0,
{
    lemma_size_is_natural(pages.active, size);
    lemma_size_is_natural(pages.wired, size);
    lemma_size_is_natural(pages.compressed, size);
    lemma_size_is_natural(pages.inactive, size);
    lemma_size_is_natural(pages.free, size);
    lemma_size_is_natural(pages.speculative, size);
}

/// Where the system does not tell the size of the memory, what counts as used
/// is the active, wired and compressed memory, as long as all of it fits one
/// counter.
pub proof fn law_used_without_known_total(reader: ReaderView, pages: PageCounts)
    requires
        reader.counts_fit(pages),
        reader.total == 0,
        ({
            let size = reader.believed_page_size();
            available_bytes(pages, size) + pages.active * size + pages.wired * size
                + pages.compressed * size <= u64::MAX
        }),
    ensures
        ({
            let size = reader.believed_page_size();
            reader.usage(pages).used == pages.active * size + pages.wired * size
                + pages.compressed * size
        }),
{
    lemma_sizes_are_natural(pages, reader.believed_page_size());
}

/// The swap use is asked for at most once per [`SWAP_UPDATE_INTERVAL`]: right
/// after it was, it is not due, and readings until then keep it.
pub proof fn law_swap_use_is_kept(
    before: ReaderView,
    total: Option<u64>,
    now: u128,
    swap: Option<(u64, u64)>,
    later: u128,
    later_swap: Option<(u64, u64)>,
)
    requires
        before.swap_is_due(now),
        later - now < SWAP_UPDATE_INTERVAL,
    ensures
        ({
            let read = before.after_reading(total, now, swap);
            &&& !read.swap_is_due(later)
            &&& read.after_reading(total, later, later_swap).swap == swap.unwrap_or((0, 0))
        }),
{
}

/// Once the system has told the size of the memory, no reading changes it.
pub proof fn law_known_total_is_kept(
    before: ReaderView,
    total: Option<u64>,
    now: u128,
    swap: Option<(u64, u64)>,
)
    requires
        before.total > 0,
    ensures
        before.after_reading(total, now, swap).total == before.total,
{
}

proof fn lemma_sizes_add_up(a: int, b: int, size: int)
    by (nonlinear_arith)
    ensures
        (a + b) * size == a * size + b * size,
        (a - b) * size == a * size - b * size,
{
}

proof fn lemma_sizes_keep_the_order(a: int, b: int, size: int)
    by (nonlinear_arith)
    requires
        a <= b,
        size >= 0,
    ensures
        a * size <= b * size,
{
}

/// How many pages could be handed out: the inactive ones, and the free ones
/// that are not speculative.
pub open spec fn available_pages(pages: PageCounts) -> int {
    pages.inactive + (if pages.free >= pages.speculative {
        pages.free - pages.speculative
    } else {
        0
    })
}

proof fn lemma_available(pages: PageCounts, size: int)
    requires
        size >= 0,
    ensures
        available_pages(pages) * size >= 0,
        available_bytes(pages, size) == (if available_pages(pages) * size <= u64::MAX {
            available_pages(pages) * size
        } else {
            u64::MAX as int
        }),
{
    lemma_sizes_are_natural(pages, size);
    let free = pages.free as int;
    let speculative = pages.speculative as int;
    lemma_sizes_add_up(free, speculative, size);
    if free >= speculative {
        lemma_sizes_keep_the_order(speculative, free, size);
        lemma_sizes_add_up(pages.inactive as int, free - speculative, size);
    } else {
        lemma_sizes_keep_the_order(free, speculative, size);
    }
}

/// The page size that is reckoned with: what the system told, and at least four
/// kibibytes.
pub open spec fn reckoned_page(page_size: u64) -> int {
    if page_size >= 4096 {
        page_size as int
    } else {
        4096
    }
}

/// All memory is either in use or available: where the size of the memory is
/// known, what is not in use is the inactive pages and the free ones that are
/// not speculative, as far as the memory reaches.
pub proof fn law_what_is_not_used_is_available(
    reader: &mut MemoryReader,
    pages: PageCounts,
    total: Option<u64>,
    now: u128,
    swap: Option<(u64, u64)>,
    stats: MemoryStats,
)
    requires
        call_ensures(MemoryReader::read, (reader, Some(pages), total, now, swap), stats),
    ensures
        final(reader)@.total > 0 ==> {
            let page = reckoned_page(old(reader)@.page_size);
            let available = (pages.inactive + (if pages.free >= pages.speculative {
                pages.free - pages.speculative
            } else {
                0
            })) * page;
            &&& stats.total == final(reader)@.total
            &&& available <= stats.total ==> stats.total - stats.used == available
            &&& available > stats.total ==> stats.used == 0
        },
{
    lemma_available(pages, old(reader)@.believed_page_size());
}

/// Each further free page, and each further inactive page, lowers what is in
/// use by one page, as long as that much is in use.
pub proof fn law_each_available_page_lowers_the_use(
    reader: &mut MemoryReader,
    other: &mut MemoryReader,
    pages: PageCounts,
    more: PageCounts,
    total: Option<u64>,
    now: u128,
    swap: Option<(u64, u64)>,
    stats: MemoryStats,
    more_stats: MemoryStats,
)
    requires
        *old(reader) == *old(other),
        call_ensures(MemoryReader::read, (reader, Some(pages), total, now, swap), stats),
        call_ensures(MemoryReader::read, (other, Some(more), total, now, swap), more_stats),
        old(reader)@.total > 0,
        pages.free >= pages.speculative,
        more.free + more.inactive == pages.free + pages.inactive + 1,
        more.free >= pages.free && more.inactive >= pages.inactive,
        more.speculative == pages.speculative,
        stats.used >= reckoned_page(old(reader)@.page_size),
    ensures
        more_stats.used == stats.used - reckoned_page(old(reader)@.page_size),
{
    let size = old(reader)@.believed_page_size();
    lemma_available(pages, size);
    lemma_available(more, size);
    lemma_sizes_add_up(available_pages(pages), 1, size);
}

/// Where the system does not tell the size of the memory, its pages do: the
/// active, wired, compressed and available ones together are all of it, as far
/// as a counter reaches, and what is not available is in use.
pub proof fn law_pages_account_for_an_unknown_size(
    reader: &mut MemoryReader,
    pages: PageCounts,
    total: Option<u64>,
    now: u128,
    swap: Option<(u64, u64)>,
    stats: MemoryStats,
)
    requires
        call_ensures(MemoryReader::read, (reader, Some(pages), total, now, swap), stats),
    ensures
        final(reader)@.total == 0 ==> {
            let page = reckoned_page(old(reader)@.page_size);
            let available = (pages.inactive + (if pages.free >= pages.speculative {
                pages.free - pages.speculative
            } else {
                0
            })) * page;
            let in_use = (pages.active + pages.wired + pages.compressed) * page;
            &&& available + in_use <= u64::MAX ==> stats.total == available + in_use && stats.used
                == in_use
            &&& available + in_use > u64::MAX ==> stats.total == u64::MAX
            &&& available <= u64::MAX < available + in_use ==> stats.used == u64::MAX - available
            &&& available > u64::MAX ==> stats.used == 0
        },
{
    let size = old(reader)@.believed_page_size();
    lemma_available(pages, size);
    lemma_sizes_are_natural(pages, size);
    lemma_sizes_add_up(pages.active as int, pages.wired as int, size);
    lemma_sizes_add_up(pages.active + pages.wired, pages.compressed as int, size);
}

/// The size of the memory is taken over when it is first told, and kept.
pub proof fn law_size_is_learnt_once(
    reader: &mut MemoryReader,
    pages: PageCounts,
    total: Option<u64>,
    now: u128,
    swap: Option<(u64, u64)>,
    stats: MemoryStats,
)
    requires
        call_ensures(MemoryReader::read, (reader, Some(pages), total, now, swap), stats),
    ensures
        old(reader)@.total > 0 ==> final(reader)@.total == old(reader)@.total,
        old(reader)@.total == 0 ==> final(reader)@.total == (match total {
            Some(told) => told,
            None => 0,
        }),
        final(reader)@.total > 0 ==> stats.total == final(reader)@.total,
        final(reader)@.page_size == old(reader)@.page_size,
{
}

/// The swap use shown is at most a second old: where it was never asked for, or
/// a second ago or more, it is what the system tells now, or none; and else it
/// is what was shown before.
pub proof fn law_swap_use_is_at_most_a_second_old(
    reader: &mut MemoryReader,
    pages: PageCounts,
    total: Option<u64>,
    now: u128,
    swap: Option<(u64, u64)>,
    stats: MemoryStats,
)
    requires
        call_ensures(MemoryReader::read, (reader, Some(pages), total, now, swap), stats),
    ensures
        match old(reader)@.swap_read {
            Some(last) if now - last < 1_000_000_000 => {
                &&& stats.swap_total == old(reader)@.swap.0
                &&& stats.swap_used == old(reader)@.swap.1
                &&& final(reader)@.swap_read == Some(last)
            },
            _ => {
                &&& swap matches Some((all, used)) ==> stats.swap_total == all && stats.swap_used
                    == used
                &&& swap is None ==> stats.swap_total == 0 && stats.swap_used == 0
                &&& final(reader)@.swap_read == Some(now)
            },
        },
        final(reader)@.swap == (stats.swap_total, stats.swap_used),
{
}

/// A reading asks the system for what it then uses, and for nothing else: the
/// size of the memory while it is unknown, and the swap use once a second.
pub proof fn law_system_is_asked_for_what_is_used(
    reader: &MemoryReader,
    now: u128,
    needs_total: bool,
    swap_is_due: bool,
)
    requires
        call_ensures(MemoryReader::needs_total, (reader,), needs_total),
        call_ensures(MemoryReader::swap_is_due, (reader, now), swap_is_due),
    ensures
        needs_total == (reader@.total == 0),
        match reader@.swap_read {
            Some(last) => swap_is_due == (now - last >= 1_000_000_000),
            None => swap_is_due,
        },
{
}

/// Without page counts a reading tells the size of the memory alone, and leaves
/// the reader as it was.
pub proof fn law_no_pages_tell_the_size_alone(
    reader: &mut MemoryReader,
    total: Option<u64>,
    now: u128,
    swap: Option<(u64, u64)>,
    stats: MemoryStats,
)
    requires
        call_ensures(MemoryReader::read, (reader, None, total, now, swap), stats),
    ensures
        stats.total == old(reader)@.total,
        stats.used == 0 && stats.swap_total == 0 && stats.swap_used == 0,
        final(reader)@ == old(reader)@,
{
}

/// A new reader holds what the system told, four kibibytes to a page where it
/// told no page size, and has yet to ask for the swap use.
pub proof fn law_new_reader_holds_what_was_told(
    page_size: i64,
    total: Option<u64>,
    reader: MemoryReader,
)
    requires
        call_ensures(MemoryReader::new, (page_size, total), reader),
    ensures
        page_size > 0 ==> reader@.page_size == page_size,
        page_size <= 0 ==> reader@.page_size == 4096,
        total matches Some(told) ==> reader@.total == told,
        total is None ==> reader@.total == 0,
        reader@.swap_read is None,
{
}

/// Page counts fit where four billion pages of the reckoned size would.
pub proof fn law_counts_of_ordinary_pages_fit(reader: &MemoryReader, pages: &PageCounts, fits: bool)
    requires
        call_ensures(MemoryReader::fits, (reader, pages), fits),
        reader@.page_size <= 0x1_0000_0000,
    ensures
        fits,
{
    let size = reader@.believed_page_size();
    lemma_product_fits(pages.active, size);
    lemma_product_fits(pages.wired, size);
    lemma_product_fits(pages.compressed, size);
    lemma_product_fits(pages.inactive, size);
    lemma_product_fits(pages.free, size);
    lemma_product_fits(pages.speculative, size);
}

proof fn lemma_product_fits(count: u32, size: int)
    by (nonlinear_arith)
    requires
        0 <= size <= 0x1_0000_0000,
    ensures
        count * size <= u64::MAX,
{
}

/// Swap space is worth showing from a tenth of a gibibyte on, to the nearest
/// step of single precision below it.
pub proof fn law_swap_is_shown_from_a_tenth_of_a_gibibyte(memory: &MemoryStats, shown: bool)
    requires
        call_ensures(MemoryStats::has_swap, (memory,), shown),
    ensures
        shown == (memory.swap_total >= 107_374_181),
        memory.swap_total * 10 >= 1_073_741_824 ==> shown,
{
}

} // verus!
