use vstd::prelude::*;

use crate::aggregation::SumAccumulator;
use crate::value::Value;

verus! {

/// Start of the tumbling window of length `len` that holds time `ts`.
pub open spec fn window_start(ts: u64, len: u64) -> u64
    recommends
        len > 0,
{
    (ts - ts % len) as u64
}

/// One open window and its running sum.
#[derive(Debug, Clone, Copy, PartialEq, Eq, Structural)]
pub struct WindowSum {
    pub start: u64,
    pub acc: SumAccumulator,
}

/// One closed window: `[start, end)` and its aggregate.
#[derive(Debug)]
pub struct WindowOutput {
    pub start: u64,
    pub end: u64,
    pub value: Value,
}

/// The running sum of the window starting at `s`, if it is open.
pub open spec fn find_window(open: Seq<WindowSum>, s: u64) -> Option<SumAccumulator>
    decreases open.len(),
{
    if open.len() == 0 {
        None
    } else if open[0].start == s {
        Some(open[0].acc)
    } else {
        find_window(open.drop_first(), s)
    }
}

/// `open` with `w` put in its place by start, replacing a window of that start.
pub open spec fn insert_window(open: Seq<WindowSum>, w: WindowSum) -> Seq<WindowSum>
    decreases open.len(),
{
    if open.len() == 0 {
        seq![w]
    } else if open[0].start == w.start {
        seq![w] + open.drop_first()
    } else if open[0].start > w.start {
        seq![w] + open
    } else {
        seq![open[0]] + insert_window(open.drop_first(), w)
    }
}

pub open spec fn starts_ascending(open: Seq<WindowSum>) -> bool {
    forall|i: int, j: int| 0 <= i < j < open.len() ==> open[i].start < open[j].start
}

/// Tumbling windows of one length, summing one signed integer column, with
/// the open windows kept in ascending order of start.
#[derive(Debug)]
pub struct TumblingSum {
    pub length: u64,
    pub open: Vec<WindowSum>,
}

proof fn lemma_insert_prefix(open: Seq<WindowSum>, w: WindowSum, i: int)
    requires
        0 <= i <= open.len(),
        forall|k: int| 0 <= k < i ==> (#[trigger] open[k]).start < w.start,
    ensures
        insert_window(open, w) == open.subrange(0, i) + insert_window(open.subrange(i, open.len() as int), w),
        find_window(open, w.start) == find_window(open.subrange(i, open.len() as int), w.start),
    decreases i,
{
    if i > 0 {
        let rest = open.drop_first();
        assert forall|k: int| 0 <= k < i - 1 implies (#[trigger] rest[k]).start < w.start by {
            assert(rest[k] == open[k + 1]);
        }
        lemma_insert_prefix(rest, w, i - 1);
        assert(rest.subrange(i - 1, rest.len() as int) =~= open.subrange(i, open.len() as int));
        assert(open.subrange(0, i) =~= seq![open[0]] + rest.subrange(0, i - 1));
        assert(seq![open[0]] + (rest.subrange(0, i - 1) + insert_window(open.subrange(i, open.len() as int), w))
            =~= (seq![open[0]] + rest.subrange(0, i - 1)) + insert_window(open.subrange(i, open.len() as int), w));
    } else {
        assert(open.subrange(0, 0) + insert_window(open.subrange(0, open.len() as int), w)
            =~= insert_window(open, w)) by {
            assert(open.subrange(0, open.len() as int) =~= open);
        }
        assert(open.subrange(0, open.len() as int) =~= open);
    }
}

proof fn lemma_find_none(tail: Seq<WindowSum>, s: u64)
    requires
        starts_ascending(tail),
        tail.len() == 0 || tail[0].start > s,
    ensures
        find_window(tail, s) is None,
    decreases tail.len(),
{
    if tail.len() > 0 {
        let rest = tail.drop_first();
        if rest.len() > 0 {
            assert(rest[0] == tail[1]);
        }
        assert(starts_ascending(rest)) by {
            assert forall|i: int, j: int| 0 <= i < j < rest.len() implies rest[i].start < rest[j].start by {
                assert(rest[i] == tail[i + 1]);
                assert(rest[j] == tail[j + 1]);
            }
        }
        lemma_find_none(rest, s);
    }
}

impl TumblingSum {
    pub open spec fn wf(&self) -> bool {
        self.length > 0 && starts_ascending(self.open@)
    }

    pub fn new(length: u64) -> (r: TumblingSum)
        requires
            length > 0,
        ensures
            r.wf(),
            r.length == length,
            r.open@.len() == 0,
    {
        TumblingSum { length, open: Vec::new() }
    }

    #[verifier::rlimit(60)]
    /// Adds `v`, observed at time `ts`, to the sum of its window, opening the
    /// window if needed. Values the sum refuses leave the state unchanged.
    pub fn add(&mut self, ts: u64, v: &Value) -> (r: Result<(), String>)
        requires
            old(self).wf(),
        ensures
            final(self).wf(),
            final(self).length == old(self).length,
            r is Ok <==> (*v is Null || crate::aggregation::as_wide_int(*v) is Some),
            r is Err ==> final(self).open@ == old(self).open@,
            r is Ok ==> exists|acc: SumAccumulator|
                final(self).open@ == insert_window(
                    old(self).open@,
                    WindowSum { start: window_start(ts, old(self).length), acc },
                ) && acc == {
                    let base = match find_window(old(self).open@, window_start(ts, old(self).length)) {
                        Some(a) => a,
                        None => SumAccumulator { sum: 0, seen: false },
                    };
                    if v is Null {
                        base
                    } else {
                        SumAccumulator {
                            sum: crate::aggregation::saturating_sum(
                                base.sum,
                                crate::aggregation::as_wide_int(*v)->Some_0,
                            ),
                            seen: true,
                        }
                    }
                },
    {
        proof {
            assert(ts % self.length <= ts) by (nonlinear_arith)
                requires self.length > 0;
        }
        let start = ts - ts % self.length;
        let ghost old_open = self.open@;
        let mut i: usize = 0;
        while i < self.open.len() && self.open[i].start < start
            invariant
                self.open@ == old_open,
                0 <= i <= old_open.len(),
                forall|k: int| 0 <= k < i ==> (#[trigger] old_open[k]).start < start,
            decreases old_open.len() - i,
        {
            i += 1;
        }
        let found = i < self.open.len() && self.open[i].start == start;
        let mut acc = if found {
            self.open[i].acc
        } else {
            SumAccumulator::new()
        };
        let ghost base = acc;
        let mut single: Vec<Value> = Vec::new();
        single.push(crate::value::copy_value(v));
        proof {
            assert(single@[0] is Null <==> *v is Null);
            assert(crate::aggregation::as_wide_int(single@[0]) == crate::aggregation::as_wide_int(*v));
        }
        let res = acc.update(single.as_slice());
        if res.is_err() {
            return Err("window sum expects a signed integer".to_string());
        }
        let w = WindowSum { start, acc };
        let mut out: Vec<WindowSum> = Vec::new();
        let mut k: usize = 0;
        while k < i
            invariant
                self.open@ == old_open,
                0 <= k <= i <= old_open.len(),
                out@ == old_open.subrange(0, k as int),
            decreases i - k,
        {
            out.push(self.open[k]);
            proof {
                assert(out@ =~= old_open.subrange(0, k + 1));
            }
            k += 1;
        }
        out.push(w);
        let mut k: usize = if found {
            i + 1
        } else {
            i
        };
        let ghost mid = out@;
        while k < self.open.len()
            invariant
                self.open@ == old_open,
                i <= k <= old_open.len(),
                found ==> i < old_open.len(),
                (if found { i + 1 } else { i as int }) <= k,
                out@ == mid + old_open.subrange(if found { i + 1 } else { i as int }, k as int),
            decreases old_open.len() - k,
        {
            out.push(self.open[k]);
            proof {
                assert(out@ =~= mid + old_open.subrange(if found { i + 1 } else { i as int }, k + 1));
            }
            k += 1;
        }
        proof {
            lemma_insert_prefix(old_open, w, i as int);
            let tail = old_open.subrange(i as int, old_open.len() as int);
            if i < old_open.len() {
                assert(tail[0] == old_open[i as int]);
                assert(tail.drop_first() =~= old_open.subrange(i + 1, old_open.len() as int));
            }
            let s0 = if found { i + 1 } else { i as int };
            let pre = old_open.subrange(0, i as int);
            let suf = old_open.subrange(s0, old_open.len() as int);
            assert(out@ =~= pre + seq![w] + suf);
            if found {
                assert(tail[0].start == start);
                assert(insert_window(tail, w) =~= seq![w] + tail.drop_first());
            } else if i < old_open.len() {
                assert(tail[0].start > start);
                assert(insert_window(tail, w) =~= seq![w] + tail);
            } else {
                assert(tail.len() == 0);
            }
            assert(out@ =~= insert_window(old_open, w));
            assert forall|k: int| 0 <= k < suf.len() implies (#[trigger] suf[k]).start > start by {
                assert(suf[k] == old_open[s0 + k]);
                if !found {
                    assert(old_open[i as int].start >= start);
                }
            }
            assert(starts_ascending(tail)) by {
                assert forall|a: int, b: int| 0 <= a < b < tail.len() implies tail[a].start < tail[b].start by {
                    assert(tail[a] == old_open[i + a]);
                    assert(tail[b] == old_open[i + b]);
                }
            }
            if !found {
                lemma_find_none(tail, start);
            }
            assert(starts_ascending(out@)) by {
                assert forall|a: int, b: int| 0 <= a < b < out@.len() implies out@[a].start < out@[b].start by {
                    if b < i {
                        assert(out@[a] == old_open[a]);
                        assert(out@[b] == old_open[b]);
                    } else if b == i {
                        assert(out@[a] == old_open[a]);
                    } else if a < i {
                        assert(out@[a] == old_open[a]);
                        assert(out@[b] == suf[b - i - 1]);
                    } else if a == i {
                        assert(out@[b] == suf[b - i - 1]);
                    } else {
                        assert(out@[a] == suf[a - i - 1]);
                        assert(out@[b] == suf[b - i - 1]);
                        assert(suf[a - i - 1] == old_open[s0 + a - i - 1]);
                        assert(suf[b - i - 1] == old_open[s0 + b - i - 1]);
                    }
                }
            }
        }
        self.open = out;
        proof {
            let b = match find_window(old_open, window_start(ts, self.length)) {
                Some(a) => a,
                None => SumAccumulator { sum: 0, seen: false },
            };
            assert(b == base);
            assert(acc == (if *v is Null {
                b
            } else {
                SumAccumulator {
                    sum: crate::aggregation::saturating_sum(b.sum, crate::aggregation::as_wide_int(*v)->Some_0),
                    seen: true,
                }
            }));
        }
        Ok(())
    }

    /// Closes, in ascending order of start, every open window whose end is at
    /// or before `watermark`, and emits its aggregate; later windows stay open.
    pub fn close_until(&mut self, watermark: u64) -> (out: Vec<WindowOutput>)
        requires
            old(self).wf(),
        ensures
            final(self).wf(),
            final(self).length == old(self).length,
            closed_prefix(old(self).open@, old(self).length, watermark, out@.len() as int),
            final(self).open@ == old(self).open@.subrange(out@.len() as int, old(self).open@.len() as int),
            forall|k: int| 0 <= k < out@.len() ==> emits(#[trigger] out@[k], old(self).open@[k], old(self).length),
    {
        let mut k: usize = 0;
        while k < self.open.len() && self.open[k].start as u128 + self.length as u128 <= watermark as u128
            invariant
                self.wf(),
                0 <= k <= self.open@.len(),
                forall|j: int| 0 <= j < k ==> (#[trigger] self.open@[j]).start + self.length <= watermark,
            decreases self.open@.len() - k,
        {
            k += 1;
        }
        let mut out: Vec<WindowOutput> = Vec::new();
        let mut rest: Vec<WindowSum> = Vec::new();
        let mut j: usize = 0;
        while j < self.open.len()
            invariant
                self.wf(),
                0 <= k <= self.open@.len(),
                0 <= j <= self.open@.len(),
                j <= k ==> out@.len() == j && rest@.len() == 0,
                j > k ==> out@.len() == k && rest@ == self.open@.subrange(k as int, j as int),
                forall|i: int| 0 <= i < out@.len() && i < j ==> emits(#[trigger] out@[i], self.open@[i], self.length),
            decreases self.open@.len() - j,
        {
            let w = self.open[j];
            if j < k {
                let end: u64 = if w.start as u128 + self.length as u128 <= u64::MAX as u128 {
                    w.start + self.length
                } else {
                    u64::MAX
                };
                out.push(WindowOutput { start: w.start, end, value: w.acc.finalize() });
            } else {
                rest.push(w);
                proof {
                    assert(rest@ =~= self.open@.subrange(k as int, j + 1));
                }
            }
            j += 1;
        }
        proof {
            if self.open@.len() <= k {
                assert(rest@ =~= self.open@.subrange(k as int, self.open@.len() as int));
            }
            assert(starts_ascending(rest@)) by {
                assert forall|a: int, b: int| 0 <= a < b < rest@.len() implies rest@[a].start < rest@[b].start by {
                    assert(rest@[a] == self.open@[k + a]);
                    assert(rest@[b] == self.open@[k + b]);
                }
            }
        }
        self.open = rest;
        out
    }
}

/// The first `k` windows of `open` close at `watermark` and the next, if
/// any, does not.
pub open spec fn closed_prefix(open: Seq<WindowSum>, length: u64, watermark: u64, k: int) -> bool {
    &&& 0 <= k <= open.len()
    &&& forall|j: int| 0 <= j < k ==> (#[trigger] open[j]).start + length <= watermark
    &&& k < open.len() ==> open[k].start + length > watermark
}

/// `o` is what closing `w` emits.
pub open spec fn emits(o: WindowOutput, w: WindowSum, length: u64) -> bool {
    &&& o.start == w.start
    &&& o.end == if w.start + length <= u64::MAX {
        (w.start + length) as u64
    } else {
        u64::MAX
    }
    &&& o.value == if w.acc.seen {
        Value::Int64(w.acc.sum)
    } else {
        Value::Null
    }
}

/// Event-time watermark: trails the largest timestamp seen by the allowed
/// lateness and never moves back.
#[derive(Debug, Clone, Copy, PartialEq, Eq, Structural)]
pub struct EventTimeWatermark {
    pub watermark: u64,
    pub allowed_lateness: u64,
}

pub open spec fn trailing(ts: u64, lateness: u64) -> u64 {
    if ts >= lateness {
        (ts - lateness) as u64
    } else {
        0
    }
}

/// The watermark after observing a row at time `ts`: unchanged for a late
/// row, else the higher of the old one and `ts` minus the allowed lateness.
pub open spec fn next_watermark(w: EventTimeWatermark, ts: u64) -> u64 {
    if ts < w.watermark || trailing(ts, w.allowed_lateness) <= w.watermark {
        w.watermark
    } else {
        trailing(ts, w.allowed_lateness)
    }
}

impl EventTimeWatermark {
    pub fn new(allowed_lateness: u64) -> (r: EventTimeWatermark)
        ensures
            r.watermark == 0,
            r.allowed_lateness == allowed_lateness,
    {
        EventTimeWatermark { watermark: 0, allowed_lateness }
    }

    /// Observes a row at time `ts`. A row earlier than the watermark is late
    /// and changes nothing; otherwise the watermark moves up to `ts` minus
    /// the allowed lateness, if that is higher.
    pub fn observe(&mut self, ts: u64) -> (late: bool)
        ensures
            late == (ts < old(self).watermark),
            final(self).allowed_lateness == old(self).allowed_lateness,
            final(self).watermark >= old(self).watermark,
            final(self).watermark == next_watermark(*old(self), ts),
    {
        if ts < self.watermark {
            return true;
        }
        let candidate = if ts >= self.allowed_lateness {
            ts - self.allowed_lateness
        } else {
            0
        };
        if candidate > self.watermark {
            self.watermark = candidate;
        }
        false
    }
}

/// Processing-time watermark: follows a monotonic clock, never moves back,
/// and drops no rows.
#[derive(Debug, Clone, Copy, PartialEq, Eq, Structural)]
pub struct ProcessTimeWatermark {
    pub watermark: u64,
    pub interval: u64,
}

impl ProcessTimeWatermark {
    pub fn new(interval: u64) -> (r: ProcessTimeWatermark)
        ensures
            r.watermark == 0,
            r.interval == interval,
    {
        ProcessTimeWatermark { watermark: 0, interval }
    }

    /// Moves the watermark to the clock reading `now`, unless that is lower.
    pub fn tick(&mut self, now: u64) -> (r: u64)
        ensures
            final(self).interval == old(self).interval,
            final(self).watermark == if now > old(self).watermark {
                now
            } else {
                old(self).watermark
            },
            r == final(self).watermark,
    {
        if now > self.watermark {
            self.watermark = now;
        }
        self.watermark
    }
}

/// Watermarks emitted one after another by an event-time watermark never
/// decrease, whatever the timestamps observed.
pub proof fn lemma_watermark_monotonic(w: EventTimeWatermark, ts: Seq<u64>, i: int, j: int)
    requires
        0 <= i <= j <= ts.len(),
    ensures
        watermark_after(w, ts, i) <= watermark_after(w, ts, j),
    decreases j - i,
{
    if i < j {
        lemma_watermark_monotonic(w, ts, i, j - 1);
    }
}

/// The watermark after observing the first `n` timestamps of `ts`.
pub open spec fn watermark_after(w: EventTimeWatermark, ts: Seq<u64>, n: int) -> u64
    decreases n,
{
    if n <= 0 {
        w.watermark
    } else {
        next_watermark(
            EventTimeWatermark { watermark: watermark_after(w, ts, n - 1), allowed_lateness: w.allowed_lateness },
            ts[n - 1],
        )
    }
}

} // verus!
