//! Composition statistics over a window of a sequence.

pub mod counter;

use crate::bedgraph::BGBlock;
use crate::freqs::{count_total, Counter, Token};
use crate::sequence::SequenceRecord;
use crate::windows::{lemma_window_offsets, window_ranges, Windows};
use counter::{dinucleotide_counts, dinucleotides, margolin1_spec, margolin2_spec, CompositeRipIndex};
use vstd::prelude::*;

verus! {

/// The byte of base `A`.
pub const BASE_A: u8 = 65;

/// The byte of base `C`.
pub const BASE_C: u8 = 67;

/// The byte of base `G`.
pub const BASE_G: u8 = 71;

/// The byte of base `T`.
pub const BASE_T: u8 = 84;

/// A quotient `num / den` of two counts, kept exact.
#[derive(Clone, Copy, Debug, PartialEq, Eq, Structural)]
pub struct Ratio {
    pub num: u64,
    pub den: u64,
}

/// The share of `bases` among the tokens of `seq`: each token of `seq`
/// that equals one of `bases` counts once per time it is listed, over the
/// length of `seq`; `0 / 1` for an empty `seq`.
pub open spec fn base_content_spec<T>(seq: Seq<T>, bases: Seq<T>) -> (nat, nat) {
    if seq.len() == 0 {
        (0nat, 1nat)
    } else {
        (count_total(seq.to_multiset(), bases), seq.len())
    }
}

/// The share of `bases` in `seq`, such as its GC content.
pub fn base_content<T: Token>(seq: &[T], bases: &[T]) -> (r: Ratio)
    requires
        bases@.len() * seq@.len() <= u64::MAX,
    ensures
        (r.num as nat, r.den as nat) == base_content_spec(seq@, bases@),
{
    broadcast use vstd::seq_lib::group_to_multiset_ensures;

    let counter = Counter::from_iter(vstd::slice::slice_to_vec(seq));
    counter.prop_sum(bases)
}

/// The composite RIP index of `seq`, as its two Margolin indices over
/// the overlapping dinucleotides of `seq`.
pub fn cri(seq: &[u8]) -> (r: CompositeRipIndex)
    ensures
        (r.margolin1.num as nat, r.margolin1.den as nat) == margolin1_spec(
            dinucleotides(seq@).to_multiset(),
        ),
        (r.margolin2.num as nat, r.margolin2.den as nat) == margolin2_spec(
            dinucleotides(seq@).to_multiset(),
        ),
{
    let freq = dinucleotide_counts(seq);
    counter::cri(&freq)
}

/// Applies `f` to each window of `record`, in order.
///
/// The `i`-th row starts at `i * step` and ends `size` later, also where
/// the window itself is cut short by the end of the sequence.
pub fn sliding_windows<S, F: Fn(&[u8]) -> S>(
    record: &SequenceRecord,
    size: usize,
    step: usize,
    f: F,
) -> (r: Vec<BGBlock<S>>)
    requires
        size > 0,
        step > 0,
        record.seq@.len() + size <= usize::MAX,
        forall|w: &[u8]| f.requires((w,)),
    ensures
        r@.len() == window_ranges(record.seq@.len(), size as nat, step as nat, 0).len(),
        forall|i: int|
            0 <= i < r@.len() ==> {
                let range = window_ranges(record.seq@.len(), size as nat, step as nat, 0)[i];
                &&& (#[trigger] r@[i]).seqid@ == record.id@
                &&& r@[i].start == i * step
                &&& r@[i].start == range.0
                &&& r@[i].end == range.0 + size
                &&& exists|w: &[u8]|
                    w@ == record.seq@.subrange(range.0 as int, range.1 as int) && f.ensures(
                        (w,),
                        r@[i].score,
                    )
            },
{
    let seq = record.seq.as_slice();
    let id = record.id.as_str();
    let ghost ranges = window_ranges(seq@.len(), size as nat, step as nat, 0);
    proof {
        lemma_window_offsets(seq@.len(), size as nat, step as nat, 0);
    }
    let mut wins = Windows::new(seq, size, step);
    let mut out: Vec<BGBlock<S>> = Vec::new();
    loop
        invariant
            wins.wf(),
            wins.source() == seq@,
            seq@ == record.seq@,
            id@ == record.id@,
            out@.len() <= ranges.len(),
            wins.remaining() == ranges.subrange(out@.len() as int, ranges.len() as int),
            ranges == window_ranges(record.seq@.len(), size as nat, step as nat, 0),
            record.seq@.len() + size <= usize::MAX,
            forall|w: &[u8]| f.requires((w,)),
            forall|i: int|
                #![trigger ranges[i]]
                0 <= i < ranges.len() ==> ranges[i].0 == i * step && ranges[i].0 < ranges[i].1
                    <= seq@.len(),
            forall|i: int|
                0 <= i < out@.len() ==> {
                    let range = ranges[i];
                    &&& (#[trigger] out@[i]).seqid@ == record.id@
                    &&& out@[i].start == i * step
                    &&& out@[i].start == range.0
                    &&& out@[i].end == range.0 + size
                    &&& exists|w: &[u8]|
                        w@ == record.seq@.subrange(range.0 as int, range.1 as int) && f.ensures(
                            (w,),
                            out@[i].score,
                        )
                },
        ensures
            out@.len() == ranges.len(),
            forall|i: int|
                0 <= i < out@.len() ==> {
                    let range = ranges[i];
                    &&& (#[trigger] out@[i]).seqid@ == record.id@
                    &&& out@[i].start == i * step
                    &&& out@[i].start == range.0
                    &&& out@[i].end == range.0 + size
                    &&& exists|w: &[u8]|
                        w@ == record.seq@.subrange(range.0 as int, range.1 as int) && f.ensures(
                            (w,),
                            out@[i].score,
                        )
                },
        decreases wins.remaining().len(),
    {
        match wins.next_window() {
            None => {
                break;
            },
            Some(w) => {
                let score = f(w.value);
                let block = BGBlock::new(id, w.start, w.start + size, score);
                proof {
                    assert(ranges[out@.len() as int] == (w.start as nat, w.end as nat));
                }
                out.push(block);
                proof {
                    let k = out@.len() - 1;
                    assert(f.ensures((w.value,), out@[k].score));
                    assert(wins.remaining() =~= ranges.subrange(out@.len() as int, ranges.len() as int));
                }
            },
        }
    }
    out
}

} // verus!
