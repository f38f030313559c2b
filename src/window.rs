//! Per-sensor sliding window with time-based eviction.
use vstd::prelude::*;

use crate::rules::{reading_in_range, MAX_READING};

verus! {

/// One sample of a sensor: when it was taken (ms since the Unix epoch) and
/// its reading (thousandths of the sensor's unit).
#[derive(Debug, Clone, Copy, PartialEq, Eq, Structural)]
pub struct Sample {
    pub timestamp: u64,
    pub reading: i64,
}

/// The average of a window: the mean reading rounded down, the number of
/// samples, and the timestamp of the youngest sample.
#[derive(Debug, Clone, Copy, PartialEq, Eq, Structural)]
pub struct Average {
    pub value: i64,
    pub number_of_values: u64,
    pub timestamp: u64,
}

pub open spec fn readings_in_range(s: Seq<Sample>) -> bool {
    forall|i: int| 0 <= i < s.len() ==> reading_in_range(#[trigger] s[i].reading as int)
}

pub open spec fn sum_of(s: Seq<Sample>) -> int
    decreases s.len(),
{
    if s.len() == 0 {
        0
    } else {
        sum_of(s.drop_last()) + s.last().reading
    }
}

pub open spec fn latest_of(s: Seq<Sample>) -> int
    decreases s.len(),
{
    if s.len() == 0 {
        0
    } else {
        let rest = latest_of(s.drop_last());
        if s.last().timestamp > rest { s.last().timestamp as int } else { rest }
    }
}

/// Whether a sample taken at `timestamp` is still inside a window of
/// `size` milliseconds at instant `now`: `now - timestamp <= size`.
pub open spec fn is_live(timestamp: int, size: int, now: int) -> bool {
    timestamp + size >= now
}

/// The samples of `s` that are still live at `now`, in their order.
pub open spec fn live_of(s: Seq<Sample>, size: int, now: int) -> Seq<Sample>
    decreases s.len(),
{
    if s.len() == 0 {
        s
    } else {
        let rest = live_of(s.drop_last(), size, now);
        if is_live(s.last().timestamp as int, size, now) { rest.push(s.last()) } else { rest }
    }
}

/// The average of a sequence of samples, or none for an empty one.
pub open spec fn average_of(s: Seq<Sample>) -> Option<Average> {
    if s.len() == 0 {
        None
    } else {
        Some(Average {
            value: (sum_of(s) / (s.len() as int)) as i64,
            number_of_values: s.len() as u64,
            timestamp: latest_of(s) as u64,
        })
    }
}

pub proof fn lemma_sum_bounds(s: Seq<Sample>)
    requires
        readings_in_range(s),
    ensures
        -MAX_READING * s.len() <= sum_of(s) <= MAX_READING * s.len(),
    decreases s.len(),
{
    if s.len() > 0 {
        assert(readings_in_range(s.drop_last()));
        lemma_sum_bounds(s.drop_last());
        assert(reading_in_range(s[s.len() - 1].reading as int));
    }
}

pub proof fn lemma_mean_in_range(s: Seq<Sample>)
    requires
        readings_in_range(s),
        s.len() > 0,
    ensures
        reading_in_range(sum_of(s) / (s.len() as int)),
{
    lemma_sum_bounds(s);
    let n = s.len() as int;
    let t = sum_of(s);
    assert(-MAX_READING <= t / n <= MAX_READING) by (nonlinear_arith)
        requires -MAX_READING * n <= t <= MAX_READING * n, n > 0;
}

pub proof fn lemma_latest_bounds(s: Seq<Sample>)
    ensures
        0 <= latest_of(s) <= u64::MAX,
        forall|i: int| 0 <= i < s.len() ==> s[i].timestamp <= latest_of(s),
        s.len() > 0 ==> exists|i: int| 0 <= i < s.len() && s[i].timestamp == latest_of(s),
    decreases s.len(),
{
    if s.len() > 0 {
        lemma_latest_bounds(s.drop_last());
        let d = s.drop_last();
        assert forall|i: int| 0 <= i < s.len() implies s[i].timestamp <= latest_of(s) by {
            if i < s.len() - 1 {
                assert(s[i] == d[i]);
            }
        }
        if s.last().timestamp <= latest_of(d) && d.len() > 0 {
            let j = choose|j: int| 0 <= j < d.len() && d[j].timestamp == latest_of(d);
            assert(s[j] == d[j]);
        } else {
            assert(s[s.len() - 1].timestamp == latest_of(s));
        }
    }
}

pub proof fn lemma_live_sub(s: Seq<Sample>, size: int, now: int)
    ensures
        live_of(s, size, now).len() <= s.len(),
        readings_in_range(s) ==> readings_in_range(live_of(s, size, now)),
        forall|i: int|
            0 <= i < live_of(s, size, now).len() ==> is_live(
                #[trigger] live_of(s, size, now)[i].timestamp as int,
                size,
                now,
            ),
    decreases s.len(),
{
    if s.len() > 0 {
        let d = s.drop_last();
        lemma_live_sub(d, size, now);
        if readings_in_range(s) {
            assert(readings_in_range(d));
            assert(reading_in_range(s[s.len() - 1].reading as int));
        }
    }
}

/// A sliding window over one sensor's samples, `window_size` milliseconds
/// long.
pub struct SlidingWindow {
    window_size: u64,
    elements: Vec<Sample>,
}

impl SlidingWindow {
    pub closed spec fn size(&self) -> int {
        self.window_size as int
    }

    /// The samples held, oldest first.
    pub closed spec fn view(&self) -> Seq<Sample> {
        self.elements@
    }

    pub open spec fn wf(&self) -> bool {
        readings_in_range(self@)
    }

    /// An empty window of `window_size` milliseconds.
    pub fn new(window_size: u64) -> (r: SlidingWindow)
        ensures
            r.wf(),
            r@ == Seq::<Sample>::empty(),
            r.size() == window_size,
    {
        SlidingWindow { window_size, elements: Vec::new() }
    }

    pub fn window_size(&self) -> (r: u64)
        ensures
            r == self.size(),
    {
        self.window_size
    }

    /// Appends a sample.
    pub fn add(&mut self, element: Sample)
        requires
            old(self).wf(),
            reading_in_range(element.reading as int),
        ensures
            final(self).wf(),
            final(self)@ == old(self)@.push(element),
            final(self).size() == old(self).size(),
    {
        self.elements.push(element);
    }

    /// Evicts every sample older than `now - window_size`.
    pub fn refresh_cache(&mut self, now: u64)
        requires
            old(self).wf(),
        ensures
            final(self).wf(),
            final(self)@ == live_of(old(self)@, old(self).size(), now as int),
            final(self).size() == old(self).size(),
            forall|i: int|
                0 <= i < final(self)@.len() ==> is_live(
                    #[trigger] final(self)@[i].timestamp as int,
                    final(self).size(),
                    now as int,
                ),
    {
        let ghost old_elements = self.elements@;
        let ghost size = self.window_size as int;
        let mut kept: Vec<Sample> = Vec::new();
        let n = self.elements.len();
        let mut i: usize = 0;
        while i < n
            invariant
                n == old_elements.len(),
                self.elements@ == old_elements,
                self.window_size == size,
                0 <= i <= n,
                kept@ == live_of(old_elements.take(i as int), size, now as int),
            decreases n - i,
        {
            let e = self.elements[i];
            let live = e.timestamp as u128 + self.window_size as u128 >= now as u128;
            if live {
                kept.push(e);
            }
            proof {
                assert(old_elements.take(i + 1).drop_last() =~= old_elements.take(i as int));
            }
            i += 1;
        }
        proof {
            assert(old_elements.take(n as int) =~= old_elements);
            lemma_live_sub(old_elements, size, now as int);
        }
        self.elements = kept;
    }

    /// The average of the samples held, or none when the window is empty.
    pub fn get_window_average(&self) -> (r: Option<Average>)
        requires
            self.wf(),
        ensures
            r == average_of(self@),
            r.is_some() ==> reading_in_range(r.unwrap().value as int),
    {
        let n = self.elements.len();
        if n == 0 {
            return None;
        }
        let mut sum: i128 = 0;
        let mut latest: u64 = 0;
        let mut i: usize = 0;
        while i < n
            invariant
                n == self.elements@.len(),
                self.wf(),
                0 <= i <= n,
                sum == sum_of(self.elements@.take(i as int)),
                latest == latest_of(self.elements@.take(i as int)),
            decreases n - i,
        {
            let e = self.elements[i];
            proof {
                let t = self.elements@.take(i as int);
                assert(self.elements@.take(i + 1).drop_last() =~= t);
                assert(readings_in_range(t));
                lemma_sum_bounds(t);
                assert(reading_in_range(self.elements@[i as int].reading as int));
                assert(t.len() <= u64::MAX);
                assert(-MAX_READING * t.len() >= -MAX_READING * 0x1_0000_0000_0000_0000) by (nonlinear_arith)
                    requires t.len() <= 0x1_0000_0000_0000_0000;
                assert(MAX_READING * t.len() <= MAX_READING * 0x1_0000_0000_0000_0000) by (nonlinear_arith)
                    requires t.len() <= 0x1_0000_0000_0000_0000;
            }
            sum = sum + e.reading as i128;
            if e.timestamp > latest {
                latest = e.timestamp;
            }
            i += 1;
        }
        proof {
            assert(self.elements@.take(n as int) =~= self.elements@);
            lemma_mean_in_range(self@);
        }
        let value = crate::rules::floor_div(sum, n as i128);
        Some(Average { value: value as i64, number_of_values: n as u64, timestamp: latest })
    }

    /// Evicts the samples that are too old at `now`, then averages the rest.
    pub fn average_at(&mut self, now: u64) -> (r: Option<Average>)
        requires
            old(self).wf(),
        ensures
            final(self).wf(),
            final(self)@ == live_of(old(self)@, old(self).size(), now as int),
            final(self).size() == old(self).size(),
            r == average_of(final(self)@),
            forall|i: int|
                0 <= i < final(self)@.len() ==> is_live(
                    #[trigger] final(self)@[i].timestamp as int,
                    final(self).size(),
                    now as int,
                ),
    {
        self.refresh_cache(now);
        self.get_window_average()
    }

    /// Empties the window.
    pub fn reset(&mut self)
        ensures
            final(self).wf(),
            final(self)@ == Seq::<Sample>::empty(),
            final(self).size() == old(self).size(),
    {
        self.elements = Vec::new();
    }

    pub fn len(&self) -> (r: usize)
        ensures
            r == self@.len(),
    {
        self.elements.len()
    }

    /// A copy of the samples held, oldest first.
    pub fn samples(&self) -> (r: Vec<Sample>)
        ensures
            r@ == self@,
    {
        self.elements.clone()
    }
}

} // verus!
