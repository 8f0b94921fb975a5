//! Scores of intervals of a sequence, one bedgraph row each.

use vstd::prelude::*;

verus! {

/// The score of the interval `[start, end)` of sequence `seqid`.
#[derive(Clone, Debug, PartialEq)]
pub struct BGBlock<S> {
    pub seqid: String,
    pub start: usize,
    pub end: usize,
    pub score: S,
}

impl<S> BGBlock<S> {
    pub fn new(seqid: &str, start: usize, end: usize, score: S) -> (b: Self)
        ensures
            b.seqid@ == seqid@,
            b.start == start,
            b.end == end,
            b.score == score,
    {
        BGBlock { seqid: seqid.to_owned(), start, end, score }
    }
}

} // verus!
