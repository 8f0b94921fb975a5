//! Windows over a slice that keep the final, possibly short, window.
//!
//! `std::slice::Windows` drops a trailing window that is shorter than the
//! requested size; statistics over the tail of a sequence would be lost.

use vstd::prelude::*;
use vstd::slice::slice_subrange;

verus! {

/// The half-open ranges `[start, end)` of the windows of a sequence of
/// length `len` that begin at offset `start` or later.
///
/// A window is `size` long unless it reaches the end of the sequence; the
/// first window that reaches the end is the last one.
pub open spec fn window_ranges(len: nat, size: nat, step: nat, start: nat) -> Seq<(nat, nat)>
    decreases len - start,
{
    if start >= len || step == 0 {
        Seq::empty()
    } else if start + size >= len {
        seq![(start, len)]
    } else if start + step >= len {
        seq![(start, (start + size) as nat)]
    } else {
        seq![(start, (start + size) as nat)] + window_ranges(len, size, step, start + step)
    }
}

/// The windows from `start` on: the `i`-th begins `i * step` after `start`,
/// ends `size` later or at the end of the sequence, whichever comes first,
/// and holds at least one element.
pub proof fn lemma_window_offsets(len: nat, size: nat, step: nat, start: nat)
    requires
        size > 0,
        step > 0,
    ensures
        start < len <==> window_ranges(len, size, step, start).len() > 0,
        forall|i: int|
            #![trigger window_ranges(len, size, step, start)[i]]
            0 <= i < window_ranges(len, size, step, start).len() ==> {
                let r = window_ranges(len, size, step, start)[i];
                &&& r.0 == start + i * step
                &&& r.0 < r.1 <= len
                &&& r.1 == (if r.0 + size >= len { len } else { (r.0 + size) as nat })
            },
    decreases len - start,
{
    let rs = window_ranges(len, size, step, start);
    if start < len && start + size < len && start + step < len {
        lemma_window_offsets(len, size, step, start + step);
        let rest = window_ranges(len, size, step, start + step);
        assert forall|i: int| 0 <= i < rs.len() implies {
            let r = #[trigger] rs[i];
            &&& r.0 == start + i * step
            &&& r.0 < r.1 <= len
            &&& r.1 == (if r.0 + size >= len { len } else { (r.0 + size) as nat })
        } by {
            if i > 0 {
                assert(rs[i] == rest[i - 1]);
                assert(start + step + (i - 1) * step == start + i * step) by (nonlinear_arith);
            } else {
                assert(i * step == 0) by (nonlinear_arith) requires i == 0;
            }
        }
    } else if start < len {
        assert(0 * step == 0) by (nonlinear_arith);
        assert(rs.len() == 1);
    }
}

/// For `0 < step <= size` the windows cover the whole sequence: the first
/// starts at offset 0, each next one starts `step` after the one before and
/// no later than its end, every window is at most `size` long and all but
/// the last exactly `size` long, and the last one ends at the end of the
/// sequence, so that no tail is dropped.
pub proof fn lemma_windows_cover(len: nat, size: nat, step: nat)
    requires
        0 < step <= size,
    ensures
        ({
            let r = window_ranges(len, size, step, 0);
            &&& (len == 0 <==> r.len() == 0)
            &&& len > 0 ==> r[0].0 == 0 && r.last().1 == len
            &&& forall|i: int| 0 <= i < r.len() ==> #[trigger] r[i].0 < r[i].1 && r[i].1 - r[i].0 <= size
            &&& forall|i: int|
                0 <= i < r.len() - 1 ==> {
                    &&& #[trigger] r[i].1 - r[i].0 == size
                    &&& r[i + 1].0 == r[i].0 + step
                    &&& r[i + 1].0 <= r[i].1
                }
        }),
{
    lemma_ranges_cover_from(len, size, step, 0);
    lemma_window_offsets(len, size, step, 0);
}

proof fn lemma_ranges_cover_from(len: nat, size: nat, step: nat, start: nat)
    requires
        0 < step <= size,
    ensures
        ({
            let r = window_ranges(len, size, step, start);
            &&& start < len ==> r.last().1 == len
            &&& forall|i: int|
                0 <= i < r.len() - 1 ==> {
                    &&& #[trigger] r[i].1 == r[i].0 + size
                    &&& r[i + 1].0 == r[i].0 + step
                }
        }),
    decreases len - start,
{
    if start < len && start + size < len && start + step < len {
        lemma_ranges_cover_from(len, size, step, start + step);
        let r = window_ranges(len, size, step, start);
        let rest = window_ranges(len, size, step, start + step);
        lemma_window_offsets(len, size, step, start + step);
        assert forall|i: int| 0 <= i < r.len() - 1 implies {
            &&& #[trigger] r[i].1 == r[i].0 + size
            &&& r[i + 1].0 == r[i].0 + step
        } by {
            if i > 0 {
                assert(r[i] == rest[i - 1]);
                assert(r[i + 1] == rest[i]);
            }
        }
    }
}

/// One window: its offsets into the sequence and the elements between them.
pub struct Window<'a, T> {
    pub start: usize,
    pub end: usize,
    pub value: &'a [T],
}

/// An iterator over the windows of a slice.
pub struct Windows<'a, T> {
    elements: &'a [T],
    size: usize,
    step: usize,
    start: usize,
    done: bool,
}

impl<'a, T> Windows<'a, T> {
    /// The sequence that is cut into windows.
    pub closed spec fn source(&self) -> Seq<T> {
        self.elements@
    }

    /// The windows that are still to come, as ranges into `source()`.
    pub closed spec fn remaining(&self) -> Seq<(nat, nat)> {
        if self.done {
            Seq::empty()
        } else {
            window_ranges(self.elements@.len(), self.size as nat, self.step as nat, self.start as nat)
        }
    }

    pub closed spec fn wf(&self) -> bool {
        &&& self.size > 0
        &&& self.step > 0
    }

    /// Windows of `size` elements whose starts are `step` apart.
    pub fn new(elements: &'a [T], size: usize, step: usize) -> (w: Self)
        requires
            size > 0,
            step > 0,
        ensures
            w.wf(),
            w.source() == elements@,
            w.remaining() == window_ranges(elements@.len(), size as nat, step as nat, 0),
    {
        Windows { elements, size, step, start: 0, done: false }
    }

    /// The next window with its offsets, or `None` once the end was reached.
    pub fn next_window(&mut self) -> (r: Option<Window<'a, T>>)
        requires
            old(self).wf(),
        ensures
            final(self).wf(),
            final(self).source() == old(self).source(),
            match r {
                None => old(self).remaining().len() == 0 && final(self).remaining().len() == 0,
                Some(w) => {
                    &&& old(self).remaining().len() > 0
                    &&& w.start == old(self).remaining()[0].0
                    &&& w.end == old(self).remaining()[0].1
                    &&& w.value@ == old(self).source().subrange(w.start as int, w.end as int)
                    &&& final(self).remaining() == old(self).remaining().drop_first()
                },
            },
    {
        let len = self.elements.len();
        if self.done || self.start >= len {
            self.done = true;
            return None;
        }
        let start = self.start;
        let end = if self.size >= len - start {
            len
        } else {
            start + self.size
        };
        let value = slice_subrange(self.elements, start, end);
        proof {
            let r = window_ranges(len as nat, self.size as nat, self.step as nat, start as nat);
            assert(r[0] == (start as nat, end as nat));
        }
        if end == len || self.step >= len - start {
            self.done = true;
        } else {
            self.start = start + self.step;
        }
        proof {
            let r = window_ranges(len as nat, self.size as nat, self.step as nat, start as nat);
            assert(r.drop_first() =~= self.remaining());
        }
        Some(Window { start, end, value })
    }

    /// The elements of the next window, or `None` once the end was reached.
    pub fn next(&mut self) -> (r: Option<&'a [T]>)
        requires
            old(self).wf(),
        ensures
            final(self).wf(),
            final(self).source() == old(self).source(),
            match r {
                None => old(self).remaining().len() == 0 && final(self).remaining().len() == 0,
                Some(v) => {
                    &&& old(self).remaining().len() > 0
                    &&& v@ == old(self).source().subrange(
                        old(self).remaining()[0].0 as int,
                        old(self).remaining()[0].1 as int,
                    )
                    &&& final(self).remaining() == old(self).remaining().drop_first()
                },
            },
    {
        match self.next_window() {
            Some(w) => Some(w.value),
            None => None,
        }
    }
}

} // verus!
