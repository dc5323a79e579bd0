//! Reading the file that `powermetrics` appends its snapshots to: when to
//! read, from where, and which snapshot of what was read counts.

use crate::files::{path_of, powermetrics_path};
use crate::powermetrics::{convert_snapshot, reading_of, PowermetricsReading, RawSnapshot};
use vstd::prelude::*;
use vstd::slice::slice_subrange;

verus! {

/// How many bytes before the end of the file are looked at.
pub const MAX_READ_BYTES: u64 = 1_048_576;

/// What to do with the file.
#[derive(Debug, Clone, Copy, PartialEq, Eq, Structural)]
pub enum ReadPlan {
    /// There is nothing new to read.
    Skip,
    /// Read from this offset to the end.
    From(u64),
}

/// Why no reading could be taken.
#[derive(Debug, Clone, Copy, PartialEq, Eq, Structural)]
pub enum ReadError {
    /// The file could not be read, and not a byte of it arrived.
    Unreadable,
}

/// The offset from which a file of `len` bytes is read.
pub open spec fn read_start(len: u64) -> u64 {
    if len <= MAX_READ_BYTES {
        0
    } else {
        (len - MAX_READ_BYTES) as u64
    }
}

/// What to read of a file that is `len` bytes long, or of one that could not
/// be opened, where `seen` was its length at the last read; and the length to
/// remember.
pub open spec fn read_plan(seen: u64, len: Option<u64>) -> (ReadPlan, u64) {
    match len {
        Some(n) => if n == 0 || n == seen {
            (ReadPlan::Skip, seen)
        } else {
            (ReadPlan::From(read_start(n)), n)
        },
        None => (ReadPlan::Skip, seen),
    }
}

/// The stretches of `bytes` between its zero bytes, in order; one more than
/// there are zero bytes.
pub open spec fn chunks(bytes: Seq<u8>) -> Seq<Seq<u8>>
    decreases bytes.len(),
{
    if bytes.len() == 0 {
        seq![seq![]]
    } else {
        let before = chunks(bytes.drop_last());
        if bytes.last() == 0 {
            before.push(seq![])
        } else {
            before.drop_last().push(before.last().push(bytes.last()))
        }
    }
}

/// The stretches that are not empty, last one first.
pub open spec fn nonempty_reversed(list: Seq<Seq<u8>>) -> Seq<Seq<u8>>
    decreases list.len(),
{
    if list.len() == 0 {
        seq![]
    } else if list.last().len() > 0 {
        seq![list.last()] + nonempty_reversed(list.drop_last())
    } else {
        nonempty_reversed(list.drop_last())
    }
}

/// The stretches that may hold a snapshot, newest first.
pub open spec fn candidates(bytes: Seq<u8>) -> Seq<Seq<u8>> {
    nonempty_reversed(chunks(bytes))
}

/// Whether `decode` may give `outcome` for a stretch of these bytes.
pub open spec fn decodes<W, F: Fn(&[u8]) -> Option<RawSnapshot<W>>>(
    decode: F,
    bytes: Seq<u8>,
    outcome: Option<RawSnapshot<W>>,
) -> bool {
    exists|chunk: &[u8]| chunk@ == bytes && #[trigger] call_ensures(decode, (chunk,), outcome)
}

/// Whether `found` is the newest snapshot of `bytes`: the one of the newest
/// stretch that decodes, or none where none decodes.
pub open spec fn is_newest<W, F: Fn(&[u8]) -> Option<RawSnapshot<W>>>(
    decode: F,
    bytes: Seq<u8>,
    found: Option<RawSnapshot<W>>,
) -> bool {
    let tried = candidates(bytes);
    match found {
        Some(raw) => exists|i: int|
            0 <= i < tried.len() && #[trigger] decodes(decode, tried[i], Some(raw)) && (forall|
                j: int,
            |
                0 <= j < i ==> #[trigger] decodes(decode, tried[j], None)),
        None => forall|j: int| 0 <= j < tried.len() ==> #[trigger] decodes(decode, tried[j], None),
    }
}

/// Whether `outcome` is the reading of the newest snapshot of `bytes`.
pub open spec fn is_newest_reading<W, F: Fn(&[u8]) -> Option<RawSnapshot<W>>>(
    decode: F,
    bytes: Seq<u8>,
    outcome: Option<PowermetricsReading<W>>,
) -> bool {
    match outcome {
        Some(reading) => exists|raw: RawSnapshot<W>|
            #[trigger] is_newest(decode, bytes, Some(raw)) && reading_of(raw, reading),
        None => is_newest(decode, bytes, None),
    }
}

proof fn lemma_chunks_nonempty(bytes: Seq<u8>)
    ensures
        chunks(bytes).len() > 0,
    decreases bytes.len(),
{
    if bytes.len() > 0 {
        lemma_chunks_nonempty(bytes.drop_last());
    }
}

proof fn lemma_chunks_last_empty(bytes: Seq<u8>)
    requires
        bytes.len() == 0 || bytes.last() == 0,
    ensures
        chunks(bytes).last() == Seq::<u8>::empty(),
{
}

/// A run of bytes without a zero extends the last stretch.
proof fn lemma_chunks_extend(head: Seq<u8>, run: Seq<u8>)
    requires
        forall|i: int| 0 <= i < run.len() ==> #[trigger] run[i] != 0,
    ensures
        chunks(head + run) == chunks(head).drop_last().push(chunks(head).last() + run),
    decreases run.len(),
{
    lemma_chunks_nonempty(head);
    if run.len() == 0 {
        assert(head + run =~= head);
        assert(chunks(head).last() + run =~= chunks(head).last());
        assert(chunks(head) =~= chunks(head).drop_last().push(chunks(head).last()));
    } else {
        lemma_chunks_extend(head, run.drop_last());
        assert((head + run).drop_last() =~= head + run.drop_last());
        assert((head + run).last() == run.last());
        let before = chunks(head + run.drop_last());
        assert(before.drop_last() =~= chunks(head).drop_last());
        assert(before.last().push(run.last()) =~= chunks(head).last() + run);
    }
}

/// Taking one run off the end of the bytes takes one candidate off the front.
proof fn lemma_candidates_step(bytes: Seq<u8>, start: int)
    requires
        0 <= start < bytes.len(),
        forall|i: int| start <= i < bytes.len() ==> #[trigger] bytes[i] != 0,
        start == 0 || bytes[start - 1] == 0,
    ensures
        candidates(bytes) == seq![bytes.skip(start)] + candidates(bytes.take(start)),
{
    let head = bytes.take(start);
    let run = bytes.skip(start);
    assert(bytes =~= head + run);
    lemma_chunks_nonempty(head);
    lemma_chunks_extend(head, run);
    lemma_chunks_last_empty(head);
    assert(chunks(head).last() + run =~= run);
    assert(chunks(bytes).drop_last() =~= chunks(head).drop_last());
    assert(chunks(bytes).last() == run);
}

/// The newest snapshot among `bytes`, newest stretch first.
pub fn newest_snapshot<W, F: Fn(&[u8]) -> Option<RawSnapshot<W>>>(bytes: &[u8], decode: F) -> (res:
    Option<RawSnapshot<W>>)
    requires
        forall|chunk: &[u8]| call_requires(decode, (chunk,)),
    ensures
        is_newest(decode, bytes@, res),
{
    let mut end: usize = bytes.len();
    let ghost all = candidates(bytes@);
    let ghost mut tried: int = 0;
    assert(bytes@.take(end as int) =~= bytes@);
    assert(all.skip(0) =~= all);
    while end > 0
        invariant
            end <= bytes.len(),
            all == candidates(bytes@),
            0 <= tried <= all.len(),
            all.skip(tried) == candidates(bytes@.take(end as int)),
            forall|j: int| 0 <= j < tried ==> #[trigger] decodes(decode, all[j], None),
            forall|chunk: &[u8]| call_requires(decode, (chunk,)),
        decreases end,
    {
        let ghost head = bytes@.take(end as int);
        if bytes[end - 1] == 0 {
            proof {
                assert(head.drop_last() =~= bytes@.take(end - 1));
                let before = chunks(head.drop_last());
                assert(chunks(head) == before.push(seq![]));
                assert(chunks(head).drop_last() =~= before);
            }
            end -= 1;
        } else {
            let mut start: usize = end;
            while start > 0 && bytes[start - 1] != 0
                invariant
                    start <= end <= bytes.len(),
                    forall|i: int| start <= i < end ==> #[trigger] bytes@[i] != 0,
                decreases start,
            {
                start -= 1;
            }
            let chunk = slice_subrange(bytes, start, end);
            proof {
                assert(start < end);
                lemma_candidates_step(head, start as int);
                assert(head.skip(start as int) =~= chunk@);
                assert(head.take(start as int) =~= bytes@.take(start as int));
                assert(all.skip(tried).len() > 0);
                assert(all.skip(tried)[0] == chunk@);
                assert(all[tried] == chunk@);
                assert(all.skip(tried + 1) =~= all.skip(tried).drop_first());
                assert(all.skip(tried).drop_first() =~= candidates(bytes@.take(start as int)));
            }
            let outcome = decode(chunk);
            assert(decodes(decode, all[tried], outcome));
            if let Some(raw) = outcome {
                assert(decodes(decode, all[tried], Some(raw)));
                return Some(raw);
            }
            proof {
                tried = tried + 1;
            }
            end = start;
        }
    }
    proof {
        assert(bytes@.take(0) =~= seq![]);
        assert(chunks(bytes@.take(0)).drop_last() =~= seq![]);
        assert(nonempty_reversed(Seq::<Seq<u8>>::empty()) =~= seq![]);
        assert(candidates(bytes@.take(0)) =~= seq![]);
        assert(tried == all.len());
    }
    None
}

/// Cached reader for the powermetrics file to reduce unnecessary I/O.
pub struct PowermetricsReader {
    path: String,
    last_len: u64,
    buffer: Vec<u8>,
}

impl PowermetricsReader {
    /// The path of the file.
    pub closed spec fn file(&self) -> Seq<char> {
        self.path@
    }

    /// The length of the file when it was last read.
    pub closed spec fn seen(&self) -> u64 {
        self.last_len
    }

    /// What was read last.
    pub closed spec fn bytes(&self) -> Seq<u8> {
        self.buffer@
    }

    /// Makes a reader for the file of `timecode`, of which nothing was read.
    pub fn new(timecode: &str) -> (res: Self)
        ensures
            res.file() == path_of(timecode@),
            res.seen() == 0,
            res.bytes() == Seq::<u8>::empty(),
    {
        PowermetricsReader {
            path: powermetrics_path(timecode),
            last_len: 0,
            buffer: Vec::with_capacity(MAX_READ_BYTES as usize),
        }
    }

    /// Turns to the file of another `timecode`, of which nothing was read.
    pub fn set_timecode(&mut self, timecode: &str)
        ensures
            final(self).file() == path_of(timecode@),
            final(self).seen() == 0,
            final(self).bytes() == old(self).bytes(),
    {
        self.path = powermetrics_path(timecode);
        self.last_len = 0;
    }

    /// The path of the file.
    pub fn path(&self) -> (res: &str)
        ensures
            res@ == self.file(),
    {
        self.path.as_str()
    }

    /// Decides what to read of a file that is `len` bytes long, or of one that
    /// could not be opened. An empty file, and one that has kept its length
    /// since it was last read, are left alone.
    pub fn plan_read(&mut self, len: Option<u64>) -> (res: ReadPlan)
        ensures
            final(self).file() == old(self).file(),
            final(self).bytes() == old(self).bytes(),
            (res, final(self).seen()) == read_plan(old(self).seen(), len),
    {
        match len {
            None => ReadPlan::Skip,
            Some(n) => {
                if n == 0 || n == self.last_len {
                    return ReadPlan::Skip;
                }
                self.last_len = n;
                ReadPlan::From(n.saturating_sub(MAX_READ_BYTES))
            },
        }
    }

    /// Hands out the buffer of the last read, emptied, to be filled again.
    pub fn take_buffer(&mut self) -> (res: Vec<u8>)
        ensures
            res@ == Seq::<u8>::empty(),
            final(self).bytes() == Seq::<u8>::empty(),
            final(self).file() == old(self).file(),
            final(self).seen() == old(self).seen(),
    {
        let mut buffer: Vec<u8> = Vec::new();
        std::mem::swap(&mut buffer, &mut self.buffer);
        buffer.clear();
        buffer
    }

    /// Takes what was read of the file and finds the newest reading in it.
    /// `failed` tells that the read broke off with an error; bytes that
    /// arrived before it did still count.
    pub fn parse<W, F: Fn(&[u8]) -> Option<RawSnapshot<W>>>(
        &mut self,
        bytes: Vec<u8>,
        failed: bool,
        decode: F,
    ) -> (res: Result<Option<PowermetricsReading<W>>, ReadError>)
        requires
            forall|chunk: &[u8]| call_requires(decode, (chunk,)),
            forall|chunk: &[u8], raw: RawSnapshot<W>|
                call_ensures(decode, (chunk,), Some(raw)) ==> raw.fits_spec(),
        ensures
            final(self).file() == old(self).file(),
            final(self).seen() == old(self).seen(),
            final(self).bytes() == bytes@,
            res is Err <==> failed && bytes@.len() == 0,
            res matches Ok(outcome) ==> is_newest_reading(decode, bytes@, outcome),
    {
        self.buffer = bytes;
        if failed && self.buffer.len() == 0 {
            return Err(ReadError::Unreadable);
        }
        match newest_snapshot(self.buffer.as_slice(), decode) {
            Some(raw) => {
                assert(is_newest(decode, bytes@, Some(raw)));
                Ok(Some(convert_snapshot(raw)))
            },
            None => Ok(None),
        }
    }
}

/// A file is read once per length: as long as it does not grow or shrink, it
/// is not read again.
pub proof fn law_same_length_is_read_once(seen: u64, len: Option<u64>)
    ensures
        read_plan(read_plan(seen, len).1, len).0 == ReadPlan::Skip,
{
}

/// No read takes more than the limit, and a read that starts past the
/// beginning takes all of it.
pub proof fn law_reads_are_bounded(len: u64)
    ensures
        read_start(len) <= len,
        len - read_start(len) <= MAX_READ_BYTES,
        read_start(len) > 0 ==> len - read_start(len) == MAX_READ_BYTES,
{
}

/// The stretches put together again, a zero byte between each two.
pub open spec fn joined(list: Seq<Seq<u8>>) -> Seq<u8>
    decreases list.len(),
{
    if list.len() == 0 {
        seq![]
    } else if list.len() == 1 {
        list[0]
    } else {
        joined(list.drop_last()).push(0) + list.last()
    }
}

/// Splitting loses nothing: the stretches, joined by zero bytes, are the bytes
/// that were split.
pub proof fn law_chunks_join_back(bytes: Seq<u8>)
    ensures
        joined(chunks(bytes)) == bytes,
    decreases bytes.len(),
{
    if bytes.len() > 0 {
        let before = chunks(bytes.drop_last());
        law_chunks_join_back(bytes.drop_last());
        lemma_chunks_nonempty(bytes.drop_last());
        if bytes.last() == 0 {
            assert(before.push(seq![]).drop_last() =~= before);
            assert(joined(chunks(bytes)) =~= bytes);
        } else {
            let grown = before.drop_last().push(before.last().push(bytes.last()));
            assert(grown.drop_last() =~= before.drop_last());
            if before.len() > 1 {
                let head = joined(before.drop_last()).push(0);
                assert(head + grown.last() =~= (head + before.last()).push(bytes.last()));
            }
            assert(joined(grown) =~= joined(before).push(bytes.last()));
            assert(joined(grown) =~= bytes);
        }
    } else {
        assert(joined(chunks(bytes)) =~= bytes);
    }
}

/// Every stretch is free of zero bytes.
pub proof fn law_chunks_hold_no_zero(bytes: Seq<u8>)
    ensures
        forall|i: int, k: int|
            0 <= i < chunks(bytes).len() && 0 <= k < chunks(bytes)[i].len()
                ==> #[trigger] chunks(bytes)[i][k] != 0,
    decreases bytes.len(),
{
    if bytes.len() > 0 {
        let before = chunks(bytes.drop_last());
        law_chunks_hold_no_zero(bytes.drop_last());
        lemma_chunks_nonempty(bytes.drop_last());
        assert forall|i: int, k: int|
            0 <= i < chunks(bytes).len() && 0 <= k < chunks(bytes)[i].len() implies
        #[trigger] chunks(bytes)[i][k] != 0 by {
            if i < before.len() && k < before[i].len() {
                assert(chunks(bytes)[i][k] == before[i][k]);
            }
        }
    }
}

proof fn lemma_chunks_concatenate(older: Seq<u8>, newer: Seq<u8>)
    ensures
        chunks(older.push(0) + newer) == chunks(older) + chunks(newer),
    decreases newer.len(),
{
    let all = older.push(0) + newer;
    lemma_chunks_nonempty(newer.drop_last());
    if newer.len() == 0 {
        assert(all =~= older.push(0));
        assert(all.drop_last() =~= older);
        assert(chunks(all) =~= chunks(older) + chunks(newer));
    } else {
        lemma_chunks_concatenate(older, newer.drop_last());
        assert(all.drop_last() =~= older.push(0) + newer.drop_last());
        assert(all.last() == newer.last());
        assert(chunks(all) =~= chunks(older) + chunks(newer));
    }
}

proof fn lemma_nonempty_reversed_concatenate(first: Seq<Seq<u8>>, second: Seq<Seq<u8>>)
    ensures
        nonempty_reversed(first + second) == nonempty_reversed(second) + nonempty_reversed(first),
    decreases second.len(),
{
    if second.len() == 0 {
        assert(first + second =~= first);
        assert(nonempty_reversed(second) + nonempty_reversed(first) =~= nonempty_reversed(first));
    } else {
        lemma_nonempty_reversed_concatenate(first, second.drop_last());
        assert((first + second).drop_last() =~= first + second.drop_last());
        assert((first + second).last() == second.last());
        assert(nonempty_reversed(first + second) =~= nonempty_reversed(second)
            + nonempty_reversed(first));
    }
}

/// What was appended after a zero byte is tried before everything older, and
/// what is older is tried as if nothing had been appended.
pub proof fn law_appended_bytes_come_first(older: Seq<u8>, newer: Seq<u8>)
    ensures
        candidates(older.push(0) + newer) == candidates(newer) + candidates(older),
{
    lemma_chunks_concatenate(older, newer);
    lemma_nonempty_reversed_concatenate(chunks(older), chunks(newer));
}

/// A run of bytes without a zero is tried as a whole.
pub proof fn law_run_is_tried_whole(run: Seq<u8>)
    requires
        run.len() > 0,
        forall|i: int| 0 <= i < run.len() ==> #[trigger] run[i] != 0,
    ensures
        candidates(run) == seq![run],
{
    lemma_candidates_step(run, 0);
    assert(run.skip(0) =~= run);
    assert(run.take(0) =~= seq![]);
    assert(chunks(run.take(0)).drop_last() =~= seq![]);
    assert(nonempty_reversed(Seq::<Seq<u8>>::empty()) =~= seq![]);
    assert(candidates(run.take(0)) =~= seq![]);
    assert(candidates(run) =~= seq![run]);
}

/// The end of the file is enough: a snapshot that is the newest of what
/// follows some zero byte is the newest of the whole.
pub proof fn law_end_of_the_file_is_enough<W, F: Fn(&[u8]) -> Option<RawSnapshot<W>>>(
    decode: F,
    older: Seq<u8>,
    newer: Seq<u8>,
    raw: RawSnapshot<W>,
)
    requires
        is_newest(decode, newer, Some(raw)),
    ensures
        is_newest(decode, older.push(0) + newer, Some(raw)),
{
    law_appended_bytes_come_first(older, newer);
    let part = candidates(newer);
    let whole = candidates(older.push(0) + newer);
    let i = choose|i: int|
        0 <= i < part.len() && #[trigger] decodes(decode, part[i], Some(raw)) && (forall|j: int|
            0 <= j < i ==> #[trigger] decodes(decode, part[j], None));
    assert(whole[i] == part[i]);
    assert forall|j: int| 0 <= j < i implies #[trigger] decodes(decode, whole[j], None) by {
        assert(decodes(decode, part[j], None));
    }
    assert(decodes(decode, whole[i], Some(raw)));
}

/// Whether `decode` gives one outcome for equal bytes.
pub open spec fn is_consistent<W, F: Fn(&[u8]) -> Option<RawSnapshot<W>>>(decode: F) -> bool {
    forall|bytes: Seq<u8>, x: Option<RawSnapshot<W>>, y: Option<RawSnapshot<W>>|
        #[trigger] decodes(decode, bytes, x) && #[trigger] decodes(decode, bytes, y) ==> x == y
}

/// Where equal bytes decode to one outcome, there is one newest snapshot.
pub proof fn law_newest_snapshot_is_unique<W, F: Fn(&[u8]) -> Option<RawSnapshot<W>>>(
    decode: F,
    bytes: Seq<u8>,
    x: Option<RawSnapshot<W>>,
    y: Option<RawSnapshot<W>>,
)
    requires
        is_consistent(decode),
        is_newest(decode, bytes, x),
        is_newest(decode, bytes, y),
    ensures
        x == y,
{
    let tried = candidates(bytes);
    match (x, y) {
        (Some(a), Some(b)) => {
            let i = choose|i: int|
                0 <= i < tried.len() && #[trigger] decodes(decode, tried[i], Some(a)) && (forall|
                    j: int,
                |
                    0 <= j < i ==> #[trigger] decodes(decode, tried[j], None));
            let k = choose|k: int|
                0 <= k < tried.len() && #[trigger] decodes(decode, tried[k], Some(b)) && (forall|
                    j: int,
                |
                    0 <= j < k ==> #[trigger] decodes(decode, tried[j], None));
            if i < k {
                assert(decodes(decode, tried[i], None));
            } else if k < i {
                assert(decodes(decode, tried[k], None));
            }
        },
        (Some(a), None) => {
            let i = choose|i: int|
                0 <= i < tried.len() && #[trigger] decodes(decode, tried[i], Some(a));
            assert(decodes(decode, tried[i], None));
        },
        (None, Some(b)) => {
            let k = choose|k: int|
                0 <= k < tried.len() && #[trigger] decodes(decode, tried[k], Some(b));
            assert(decodes(decode, tried[k], None));
        },
        (None, None) => {},
    }
}

/// Whether two readings hold the same figures, cores and text.
pub open spec fn same_reading<W>(x: PowermetricsReading<W>, y: PowermetricsReading<W>) -> bool {
    &&& x.timestamp == y.timestamp
    &&& x.thermal_pressure@ == y.thermal_pressure@
    &&& x.gpu == y.gpu
    &&& x.cpu.e_cluster_active == y.cpu.e_cluster_active
    &&& x.cpu.e_cluster_freq_mhz == y.cpu.e_cluster_freq_mhz
    &&& x.cpu.p_cluster_active == y.cpu.p_cluster_active
    &&& x.cpu.p_cluster_freq_mhz == y.cpu.p_cluster_freq_mhz
    &&& x.cpu.e_cores@ == y.cpu.e_cores@
    &&& x.cpu.p_cores@ == y.cpu.p_cores@
    &&& x.cpu.cpu_w == y.cpu.cpu_w
    &&& x.cpu.gpu_w == y.cpu.gpu_w
    &&& x.cpu.ane_w == y.cpu.ane_w
    &&& x.cpu.package_w == y.cpu.package_w
}

/// Whether two outcomes are the same: one reading, or both none.
pub open spec fn same_outcome<W>(
    x: Option<PowermetricsReading<W>>,
    y: Option<PowermetricsReading<W>>,
) -> bool {
    match (x, y) {
        (Some(a), Some(b)) => same_reading(a, b),
        (None, None) => true,
        _ => false,
    }
}

/// The bytes of a file that are looked at.
pub open spec fn looked_at(file: Seq<u8>) -> Seq<u8> {
    file.skip(read_start(file.len() as u64) as int)
}

/// Bytes more than [`MAX_READ_BYTES`] before the end of the file have no
/// effect: two files of one length that agree from there on are read from the
/// same offset, and whatever reading may come of one may come of the other. So
/// where equal bytes decode to one outcome, both lead to the same reading, or
/// both to none.
pub proof fn law_older_bytes_have_no_effect<W, F: Fn(&[u8]) -> Option<RawSnapshot<W>>>(
    decode: F,
    seen: u64,
    f: Seq<u8>,
    g: Seq<u8>,
    x: Option<PowermetricsReading<W>>,
    y: Option<PowermetricsReading<W>>,
)
    requires
        f.len() == g.len() <= u64::MAX,
        forall|i: int|
            0 <= i < f.len() && f.len() - i <= MAX_READ_BYTES ==> #[trigger] f[i] == g[i],
    ensures
        read_plan(seen, Some(f.len() as u64)) == read_plan(seen, Some(g.len() as u64)),
        is_newest_reading(decode, looked_at(f), x) == is_newest_reading(decode, looked_at(g), x),
        is_consistent(decode) && is_newest_reading(decode, looked_at(f), x) && is_newest_reading(
            decode,
            looked_at(g),
            y,
        ) ==> same_outcome(x, y),
{
    assert(looked_at(f) =~= looked_at(g));
    if is_consistent(decode) && is_newest_reading(decode, looked_at(f), x) && is_newest_reading(
        decode,
        looked_at(g),
        y,
    ) {
        lemma_newest_reading_is_unique(decode, looked_at(f), x, y);
    }
}

/// Where equal bytes decode to one outcome, there is one newest reading.
proof fn lemma_newest_reading_is_unique<W, F: Fn(&[u8]) -> Option<RawSnapshot<W>>>(
    decode: F,
    bytes: Seq<u8>,
    x: Option<PowermetricsReading<W>>,
    y: Option<PowermetricsReading<W>>,
)
    requires
        is_consistent(decode),
        is_newest_reading(decode, bytes, x),
        is_newest_reading(decode, bytes, y),
    ensures
        same_outcome(x, y),
{
    let raw_x: Option<RawSnapshot<W>> = match x {
        Some(a) => Some(
            choose|raw: RawSnapshot<W>|
                #[trigger] is_newest(decode, bytes, Some(raw)) && reading_of(raw, a),
        ),
        None => None,
    };
    let raw_y: Option<RawSnapshot<W>> = match y {
        Some(b) => Some(
            choose|raw: RawSnapshot<W>|
                #[trigger] is_newest(decode, bytes, Some(raw)) && reading_of(raw, b),
        ),
        None => None,
    };
    law_newest_snapshot_is_unique(decode, bytes, raw_x, raw_y);
}

/// A file that grew or shrank is read: one that can be opened, is not empty
/// and has another length than at the last read is read up to its end, from
/// its beginning or from 1 MiB before its end, whichever is nearer to the end,
/// and its length is remembered.
pub proof fn law_changed_file_is_read(reader: &mut PowermetricsReader, n: u64, plan: ReadPlan)
    requires
        call_ensures(PowermetricsReader::plan_read, (reader, Some(n)), plan),
        n > 0,
        n != old(reader).seen(),
    ensures
        match plan {
            ReadPlan::From(start) => (n <= 1_048_576 ==> start == 0) && (n > 1_048_576 ==> start
                + 1_048_576 == n),
            ReadPlan::Skip => false,
        },
        final(reader).seen() == n,
        final(reader).file() == old(reader).file(),
{
}

/// A file is left alone, and nothing is remembered, where it cannot be opened,
/// is empty, or has kept its length.
pub proof fn law_unchanged_file_is_left_alone(
    reader: &mut PowermetricsReader,
    len: Option<u64>,
    plan: ReadPlan,
)
    requires
        call_ensures(PowermetricsReader::plan_read, (reader, len), plan),
        len is None || len == Some(0u64) || len == Some(old(reader).seen()),
    ensures
        plan == ReadPlan::Skip,
        final(reader).seen() == old(reader).seen(),
        final(reader).file() == old(reader).file(),
{
}

/// A reader that was turned to a timecode, like one that was made for it, reads
/// whatever its file holds, from there.
pub proof fn law_new_timecode_is_read_afresh(
    timecode: &str,
    fresh: PowermetricsReader,
    turned: &mut PowermetricsReader,
)
    requires
        call_ensures(PowermetricsReader::new, (timecode,), fresh),
        call_ensures(PowermetricsReader::set_timecode, (turned, timecode), ()),
    ensures
        fresh.seen() == 0,
        final(turned).seen() == 0,
        fresh.file() == "/tmp/asitop_powermetrics"@ + timecode@,
        final(turned).file() == "/tmp/asitop_powermetrics"@ + timecode@,
{
}

/// There is nothing to try in no bytes.
pub proof fn law_nothing_is_tried_of_nothing()
    ensures
        candidates(seq![]) == Seq::<Seq<u8>>::empty(),
{
    assert(chunks(seq![]).drop_last() =~= seq![]);
    assert(nonempty_reversed(Seq::<Seq<u8>>::empty()) =~= seq![]);
}

/// What decodes is what the decoder gives for a slice of those bytes.
pub proof fn law_decoder_decides<W, F: Fn(&[u8]) -> Option<RawSnapshot<W>>>(
    decode: F,
    chunk: &[u8],
    outcome: Option<RawSnapshot<W>>,
)
    ensures
        call_ensures(decode, (chunk,), outcome) ==> decodes(decode, chunk@, outcome),
        decodes(decode, chunk@, outcome) ==> exists|same: &[u8]|
            same@ == chunk@ && #[trigger] call_ensures(decode, (same,), outcome),
{
}

/// The newest run decides: where bytes without a zero come last, after a zero
/// byte, the newest snapshot of all is theirs if they decode, and else the
/// newest snapshot of what is before them.
pub proof fn law_newest_run_decides<W, F: Fn(&[u8]) -> Option<RawSnapshot<W>>>(
    decode: F,
    bytes: &[u8],
    older: Seq<u8>,
    run: Seq<u8>,
    found: Option<RawSnapshot<W>>,
)
    requires
        call_ensures(newest_snapshot::<W, F>, (bytes, decode), found),
        bytes@ == older.push(0) + run,
        run.len() > 0,
        forall|i: int| 0 <= i < run.len() ==> #[trigger] run[i] != 0,
    ensures
        found is Some && decodes(decode, run, found) || decodes(decode, run, None) && is_newest(
            decode,
            older,
            found,
        ),
{
    law_appended_bytes_come_first(older, run);
    law_run_is_tried_whole(run);
    let whole = candidates(bytes@);
    let rest = candidates(older);
    assert(whole =~= seq![run] + rest);
    assert(whole[0] == run);
    assert forall|j: int| 0 <= j < rest.len() implies whole[j + 1] == #[trigger] rest[j] by {}
    match found {
        Some(raw) => {
            let i = choose|i: int|
                0 <= i < whole.len() && #[trigger] decodes(decode, whole[i], Some(raw)) && (forall|
                    j: int,
                |
                    0 <= j < i ==> #[trigger] decodes(decode, whole[j], None));
            if i > 0 {
                assert(decodes(decode, whole[0], None));
                assert(rest[i - 1] == whole[i]);
                assert(decodes(decode, rest[i - 1], Some(raw)));
                assert forall|j: int| 0 <= j < i - 1 implies #[trigger] decodes(
                    decode,
                    rest[j],
                    None,
                ) by {
                    assert(decodes(decode, whole[j + 1], None));
                }
            }
        },
        None => {
            assert(decodes(decode, whole[0], None));
            assert forall|j: int| 0 <= j < rest.len() implies #[trigger] decodes(
                decode,
                rest[j],
                None,
            ) by {
                assert(decodes(decode, whole[j + 1], None));
            }
        },
    }
}

/// Bytes without a zero are decoded as they are.
pub proof fn law_single_run_is_decoded<W, F: Fn(&[u8]) -> Option<RawSnapshot<W>>>(
    decode: F,
    bytes: &[u8],
    found: Option<RawSnapshot<W>>,
)
    requires
        call_ensures(newest_snapshot::<W, F>, (bytes, decode), found),
        bytes@.len() > 0,
        forall|i: int| 0 <= i < bytes@.len() ==> #[trigger] bytes@[i] != 0,
    ensures
        decodes(decode, bytes@, found),
{
    law_run_is_tried_whole(bytes@);
    assert(candidates(bytes@)[0] == bytes@);
    if found is None {
        assert(decodes(decode, candidates(bytes@)[0], None));
    }
}

/// A zero byte at the end changes nothing, and nothing is found in no bytes.
pub proof fn law_zero_at_the_end_changes_nothing<W, F: Fn(&[u8]) -> Option<RawSnapshot<W>>>(
    decode: F,
    older: Seq<u8>,
    found: Option<RawSnapshot<W>>,
)
    ensures
        is_newest(decode, older.push(0), found) == is_newest(decode, older, found),
        is_newest(decode, seq![], found) == (found is None),
{
    law_nothing_is_tried_of_nothing();
    law_appended_bytes_come_first(older, seq![]);
    assert(older.push(0) + Seq::<u8>::empty() =~= older.push(0));
    assert(Seq::<Seq<u8>>::empty() + candidates(older) =~= candidates(older));
}

/// What is read of the file leads to the reading of its newest snapshot, and to
/// none where nothing decodes; only a read that broke off before the first
/// byte is an error.
pub proof fn law_reading_is_that_of_the_newest_snapshot<W, F: Fn(&[u8]) -> Option<RawSnapshot<W>>>(
    reader: &mut PowermetricsReader,
    bytes: Vec<u8>,
    failed: bool,
    decode: F,
    outcome: Result<Option<PowermetricsReading<W>>, ReadError>,
)
    requires
        call_ensures(PowermetricsReader::parse::<W, F>, (reader, bytes, failed, decode), outcome),
    ensures
        match outcome {
            Ok(Some(reading)) => exists|raw: RawSnapshot<W>|
                #[trigger] is_newest(decode, bytes@, Some(raw)) && reading_of(raw, reading),
            Ok(None) => is_newest(decode, bytes@, None),
            Err(_) => failed && bytes@.len() == 0,
        },
        failed && bytes@.len() == 0 ==> outcome is Err,
        final(reader).file() == old(reader).file(),
        final(reader).seen() == old(reader).seen(),
{
}

} // verus!
