//! Bounded windows over a stream of values: a plain history for charts, and
//! the window of a rolling average.

use std::collections::VecDeque;
use vstd::prelude::*;

verus! {

/// A history of `max_len` values after one more is pushed: a full one first
/// forgets its oldest value.
///
/// A history of length zero is full only while it is empty, so that it never
/// forgets anything.
pub open spec fn history_pushed<T>(data: Seq<T>, max_len: nat, value: T) -> Seq<T> {
    if data.len() == max_len && data.len() > 0 {
        data.drop_first().push(value)
    } else {
        data.push(value)
    }
}

/// The latest values of a stream, oldest first.
pub struct History<T> {
    data: VecDeque<T>,
    max_len: usize,
}

impl<T> View for History<T> {
    type V = Seq<T>;

    closed spec fn view(&self) -> Seq<T> {
        self.data@
    }
}

impl<T: Copy> History<T> {
    /// How many values the history was made to hold.
    pub closed spec fn limit(&self) -> nat {
        self.max_len as nat
    }

    /// Makes an empty history of `max_len` values.
    pub fn new(max_len: usize) -> (res: Self)
        ensures
            res@ == Seq::<T>::empty(),
            res.limit() == max_len,
    {
        History { data: VecDeque::new(), max_len }
    }

    /// Appends `value`; a full history first forgets its oldest value.
    pub fn push(&mut self, value: T)
        ensures
            final(self)@ == history_pushed(old(self)@, old(self).limit(), value),
            final(self).limit() == old(self).limit(),
    {
        if self.data.len() == self.max_len {
            let _ = self.data.pop_front();
        }
        self.data.push_back(value);
        assert(self.data@ =~= history_pushed(old(self)@, old(self).limit(), value));
    }

    /// The values, oldest first.
    pub fn values(&self) -> (res: Vec<T>)
        ensures
            res@ == self@,
    {
        collect(&self.data)
    }
}

impl<T: Copy> Default for History<T> {
    fn default() -> (res: Self)
        ensures
            res@ == Seq::<T>::empty(),
            res.limit() == 0,
    {
        History::new(0)
    }
}

/// Copies the values of a queue, front first.
fn collect<T: Copy>(data: &VecDeque<T>) -> (res: Vec<T>)
    ensures
        res@ == data@,
{
    let mut out: Vec<T> = Vec::new();
    let mut i: usize = 0;
    while i < data.len()
        invariant
            i <= data.len(),
            out@ =~= data@.take(i as int),
        decreases data.len() - i,
    {
        out.push(data[i]);
        i += 1;
    }
    assert(data@.take(i as int) =~= data@);
    out
}

/// After how many pushes the sum of a window is taken afresh.
pub const RESUM_EVERY: u32 = 1000;

/// What one push does to the running sum of a window.
#[derive(Debug, Clone, Copy)]
pub enum SumUpdate<T> {
    /// Nothing was kept, so the sum stays as it is.
    Unchanged,
    /// The sum loses `removed`, if a value left, and then gains `added`.
    Shift { removed: Option<T>, added: T },
    /// The sum is taken afresh over the window's values.
    Resum,
}

/// A window of `max_len` values after one more is pushed.
pub open spec fn window_pushed<T>(data: Seq<T>, max_len: nat, value: T) -> Seq<T> {
    if max_len == 0 {
        data
    } else if data.len() == max_len {
        data.drop_first().push(value)
    } else {
        data.push(value)
    }
}

/// What a push does to the sum of a window that has seen `pushes` of them
/// since the sum was last taken afresh.
pub open spec fn sum_update<T>(data: Seq<T>, max_len: nat, pushes: nat, value: T) -> SumUpdate<T> {
    if max_len == 0 {
        SumUpdate::Unchanged
    } else if pushes + 1 >= RESUM_EVERY {
        SumUpdate::Resum
    } else {
        SumUpdate::Shift {
            removed: if data.len() == max_len {
                Some(data[0])
            } else {
                None
            },
            added: value,
        }
    }
}

/// The window of a rolling average.
pub struct RollingAverage<T> {
    data: VecDeque<T>,
    max_len: usize,
    push_count: u32,
}

impl<T> View for RollingAverage<T> {
    type V = Seq<T>;

    closed spec fn view(&self) -> Seq<T> {
        self.data@
    }
}

impl<T: Copy> RollingAverage<T> {
    /// How many values the window holds at most.
    pub closed spec fn limit(&self) -> nat {
        self.max_len as nat
    }

    /// How many values were pushed since the sum was last taken afresh.
    pub closed spec fn pushes(&self) -> nat {
        self.push_count as nat
    }

    /// Whether the window is within its limit and its next fresh sum is ahead.
    pub open spec fn wf(&self) -> bool {
        &&& self@.len() <= self.limit()
        &&& self.pushes() < RESUM_EVERY
    }

    /// Makes an empty window of `max_len` values.
    pub fn new(max_len: usize) -> (res: Self)
        ensures
            res.wf(),
            res@ == Seq::<T>::empty(),
            res.limit() == max_len,
            res.pushes() == 0,
    {
        RollingAverage { data: VecDeque::new(), max_len, push_count: 0 }
    }

    /// Appends `value`, drops the oldest value of a full window, and tells
    /// what to do with the running sum. A window of length zero keeps nothing.
    pub fn push(&mut self, value: T) -> (res: SumUpdate<T>)
        requires
            old(self).wf(),
        ensures
            final(self).wf(),
            final(self)@ == window_pushed(old(self)@, old(self).limit(), value),
            final(self).limit() == old(self).limit(),
            res == sum_update(old(self)@, old(self).limit(), old(self).pushes(), value),
            final(self).pushes() == (match res {
                SumUpdate::Unchanged => old(self).pushes(),
                SumUpdate::Shift { .. } => old(self).pushes() + 1,
                SumUpdate::Resum => 0,
            }),
    {
        if self.max_len == 0 {
            return SumUpdate::Unchanged;
        }
        let mut removed: Option<T> = None;
        if self.data.len() == self.max_len {
            removed = self.data.pop_front();
        }
        self.data.push_back(value);
        assert(self.data@ =~= window_pushed(old(self)@, old(self).limit(), value));
        self.push_count += 1;
        if self.push_count >= RESUM_EVERY {
            self.push_count = 0;
            SumUpdate::Resum
        } else {
            SumUpdate::Shift { removed, added: value }
        }
    }

    /// How many values the window holds.
    pub fn len(&self) -> (res: usize)
        ensures
            res == self@.len(),
    {
        self.data.len()
    }

    /// The values, oldest first.
    pub fn values(&self) -> (res: Vec<T>)
        ensures
            res@ == self@,
    {
        collect(&self.data)
    }
}

impl<T: Copy> Default for RollingAverage<T> {
    fn default() -> (res: Self)
        ensures
            res.wf(),
            res@ == Seq::<T>::empty(),
            res.limit() == 0,
            res.pushes() == 0,
    {
        RollingAverage::new(0)
    }
}

/// The history of `max_len` values after all of `values` were pushed in order.
pub open spec fn history_after<T>(values: Seq<T>, max_len: nat) -> Seq<T>
    decreases values.len(),
{
    if values.len() == 0 {
        seq![]
    } else {
        history_pushed(history_after(values.drop_last(), max_len), max_len, values.last())
    }
}

/// The window of `max_len` values after all of `values` were pushed in order.
pub open spec fn window_after<T>(values: Seq<T>, max_len: nat) -> Seq<T>
    decreases values.len(),
{
    if values.len() == 0 {
        seq![]
    } else {
        window_pushed(window_after(values.drop_last(), max_len), max_len, values.last())
    }
}

/// The last `n` values, or all of them where there are fewer.
pub open spec fn latest<T>(values: Seq<T>, n: nat) -> Seq<T> {
    if values.len() <= n {
        values
    } else {
        values.skip(values.len() - n)
    }
}

/// A history holds exactly the latest values, in the order of their arrival;
/// one of length zero holds all of them.
pub proof fn law_history_holds_the_latest<T>(values: Seq<T>, max_len: nat)
    ensures
        history_after(values, max_len) == (if max_len == 0 {
            values
        } else {
            latest(values, max_len)
        }),
    decreases values.len(),
{
    if values.len() > 0 {
        law_history_holds_the_latest(values.drop_last(), max_len);
        assert(values =~= values.drop_last().push(values.last()));
        if max_len > 0 {
            assert(history_after(values, max_len) =~= latest(values, max_len));
        }
    }
}

/// The window of a rolling average holds exactly the latest values, in the
/// order of their arrival.
pub proof fn law_window_holds_the_latest<T>(values: Seq<T>, max_len: nat)
    ensures
        window_after(values, max_len) == latest(values, max_len),
    decreases values.len(),
{
    if values.len() > 0 {
        law_window_holds_the_latest(values.drop_last(), max_len);
        assert(values =~= values.drop_last().push(values.last()));
        assert(window_after(values, max_len) =~= latest(values, max_len));
    } else {
        assert(window_after(values, max_len) =~= latest(values, max_len));
    }
}

/// The exact sum of a window, each value weighed by `weight`.
pub open spec fn exact_sum<T>(data: Seq<T>, weight: spec_fn(T) -> int) -> int
    decreases data.len(),
{
    if data.len() == 0 {
        0
    } else {
        exact_sum(data.drop_last(), weight) + weight(data.last())
    }
}

/// A running sum after an update, in exact arithmetic; `data` is the window
/// after the push.
pub open spec fn sum_after<T>(
    update: SumUpdate<T>,
    sum: int,
    data: Seq<T>,
    weight: spec_fn(T) -> int,
) -> int {
    match update {
        SumUpdate::Unchanged => sum,
        SumUpdate::Shift { removed, added } => match removed {
            Some(gone) => sum - weight(gone) + weight(added),
            None => sum + weight(added),
        },
        SumUpdate::Resum => exact_sum(data, weight),
    }
}

proof fn lemma_sum_drop_first<T>(data: Seq<T>, weight: spec_fn(T) -> int)
    requires
        data.len() > 0,
    ensures
        exact_sum(data.drop_first(), weight) == exact_sum(data, weight) - weight(data[0]),
    decreases data.len(),
{
    if data.len() == 1 {
        assert(data.drop_first() =~= seq![]);
        assert(data.drop_last() =~= seq![]);
    } else {
        lemma_sum_drop_first(data.drop_last(), weight);
        assert(data.drop_first().drop_last() =~= data.drop_last().drop_first());
    }
}

/// Followed exactly, the updates keep the running sum equal to the sum of the
/// window's values.
pub proof fn law_updates_keep_the_sum<T>(
    data: Seq<T>,
    max_len: nat,
    pushes: nat,
    value: T,
    weight: spec_fn(T) -> int,
)
    requires
        data.len() <= max_len,
    ensures
        ({
            let after = window_pushed(data, max_len, value);
            let update = sum_update(data, max_len, pushes, value);
            sum_after(update, exact_sum(data, weight), after, weight) == exact_sum(after, weight)
        }),
{
    if max_len > 0 {
        if data.len() == max_len {
            lemma_sum_drop_first(data, weight);
            assert(data.drop_first().push(value).drop_last() =~= data.drop_first());
        } else {
            assert(data.push(value).drop_last() =~= data);
        }
    }
}

/// How many pushes were counted after `n` of them, from none.
pub open spec fn pushes_after(n: nat) -> nat
    decreases n,
{
    if n == 0 {
        0
    } else if pushes_after((n - 1) as nat) + 1 >= RESUM_EVERY {
        0
    } else {
        pushes_after((n - 1) as nat) + 1
    }
}

/// A window that keeps values takes its sum afresh at every push whose number
/// is a multiple of [`RESUM_EVERY`], and at no other.
pub proof fn law_sum_is_refreshed_periodically<T>(data: Seq<T>, max_len: nat, n: nat, value: T)
    requires
        max_len > 0,
    ensures
        pushes_after(n) == n % (RESUM_EVERY as nat),
        sum_update(data, max_len, pushes_after(n), value) is Resum == ((n + 1) % (
        RESUM_EVERY as nat) == 0),
    decreases n,
{
    if n > 0 {
        law_sum_is_refreshed_periodically(data, max_len, (n - 1) as nat, value);
    }
}

/// A push appends the value and forgets no more than it must: of a history
/// that is made to hold any values, what is beyond its limit at the front; of
/// one that is made to hold none, nothing.
pub proof fn law_history_push_forgets_only_the_oldest<T: Copy>(history: &mut History<T>, value: T)
    requires
        call_ensures(History::<T>::push, (history, value), ()),
        old(history).limit() == 0 || old(history)@.len() <= old(history).limit(),
    ensures
        old(history).limit() == 0 || old(history)@.len() < old(history).limit() ==> final(history)@
            == old(history)@.push(value),
        old(history).limit() > 0 && old(history)@.len() == old(history).limit() ==> final(history)@
            == old(history)@.push(value).skip(1),
        final(history).limit() == old(history).limit(),
{
    let data = old(history)@;
    if data.len() > 0 {
        assert(data.drop_first().push(value) =~= data.push(value).skip(1));
    }
}

/// The values of a history are what was pushed last, oldest first: the last is
/// the last one pushed, and each value before it was the last one before.
pub proof fn law_history_values_end_with_the_last_push<T: Copy>(
    history: &mut History<T>,
    value: T,
    before: &History<T>,
    after: &History<T>,
    old_values: Vec<T>,
    new_values: Vec<T>,
)
    requires
        *before == *old(history),
        *after == *final(history),
        call_ensures(History::<T>::push, (history, value), ()),
        call_ensures(History::<T>::values, (before,), old_values),
        call_ensures(History::<T>::values, (after,), new_values),
    ensures
        new_values@.len() > 0,
        new_values@.last() == value,
        forall|k: int|
            1 <= k < new_values@.len() ==> k <= old_values@.len()
                && #[trigger] new_values@[new_values@.len() - 1 - k] == old_values@[old_values@.len()
                - k],
{
}

/// A new history is empty and keeps the limit that it was made with.
pub proof fn law_new_history_is_empty<T: Copy>(max_len: usize, history: History<T>)
    requires
        call_ensures(History::<T>::new, (max_len,), history),
    ensures
        history@.len() == 0,
        history.limit() == max_len,
{
}

/// A push to a rolling average slides its window: the value is appended, and of
/// a full window the oldest value is dropped; one of length zero keeps nothing.
pub proof fn law_average_push_slides_the_window<T: Copy>(
    average: &mut RollingAverage<T>,
    value: T,
    update: SumUpdate<T>,
)
    requires
        old(average).wf(),
        call_ensures(RollingAverage::<T>::push, (average, value), update),
    ensures
        old(average).limit() == 0 ==> final(average)@.len() == 0,
        old(average).limit() > 0 && old(average)@.len() < old(average).limit() ==> final(average)@
            == old(average)@.push(value),
        old(average).limit() > 0 && old(average)@.len() == old(average).limit() ==> final(average)@
            == old(average)@.push(value).skip(1),
        final(average).limit() == old(average).limit(),
        final(average)@.len() <= final(average).limit(),
{
    let data = old(average)@;
    if data.len() > 0 {
        assert(data.drop_first().push(value) =~= data.push(value).skip(1));
    }
}

/// The sum of a rolling average is taken afresh every thousandth push; every
/// other push adds the value to it and takes off the value that left, if one
/// did. A window of length zero leaves the sum alone.
pub proof fn law_sum_follows_the_window<T: Copy>(
    average: &mut RollingAverage<T>,
    value: T,
    update: SumUpdate<T>,
)
    requires
        old(average).wf(),
        call_ensures(RollingAverage::<T>::push, (average, value), update),
    ensures
        old(average).limit() == 0 ==> update is Unchanged && final(average).pushes()
            == old(average).pushes(),
        old(average).limit() > 0 ==> final(average).pushes() == (old(average).pushes() + 1) % 1000,
        old(average).limit() > 0 ==> (update is Resum <==> final(average).pushes() == 0),
        old(average).limit() > 0 && update !is Resum ==> (match update {
            SumUpdate::Shift { removed: Some(gone), added } => added == value && old(average)@.len()
                == old(average).limit() && gone == old(average)@[0],
            SumUpdate::Shift { removed: None, added } => added == value && old(average)@.len()
                < old(average).limit(),
            _ => false,
        }),
{
}

/// The length and the values of a rolling average are those of its window.
pub proof fn law_average_tells_its_window<T: Copy>(
    average: &RollingAverage<T>,
    len: usize,
    values: Vec<T>,
)
    requires
        call_ensures(RollingAverage::<T>::len, (average,), len),
        call_ensures(RollingAverage::<T>::values, (average,), values),
    ensures
        values@ == average@,
        len == values@.len(),
{
}

/// A new rolling average has an empty window of the length asked for, and its
/// thousandth push from there takes the sum afresh.
pub proof fn law_new_average_is_empty<T: Copy>(max_len: usize, average: RollingAverage<T>)
    requires
        call_ensures(RollingAverage::<T>::new, (max_len,), average),
    ensures
        average.wf(),
        average@.len() == 0,
        average.limit() == max_len,
        average.pushes() == 0,
{
}

} // verus!
