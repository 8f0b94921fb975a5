//! Dinucleotide and trinucleotide counts, and the Margolin indices built on them.

use crate::freqs::Counter;
use crate::freqs::Token;
use crate::stats::Ratio;
use crate::stats::{BASE_A, BASE_C, BASE_G, BASE_T};
use vstd::multiset::Multiset;
use vstd::prelude::*;

verus! {

broadcast use vstd::seq_lib::group_to_multiset_ensures;

/// The overlapping two-byte tokens of `s`, in order: one fewer than `s`
/// has bytes, none if `s` is shorter than 2.
pub open spec fn dinucleotides(s: Seq<u8>) -> Seq<[u8; 2]> {
    if s.len() < 2 {
        Seq::empty()
    } else {
        Seq::new((s.len() - 1) as nat, |i: int| [s[i], s[i + 1]])
    }
}

/// The overlapping three-byte tokens of `s`, in order: two fewer than `s`
/// has bytes, none if `s` is shorter than 3.
pub open spec fn trinucleotides(s: Seq<u8>) -> Seq<[u8; 3]> {
    if s.len() < 3 {
        Seq::empty()
    } else {
        Seq::new((s.len() - 2) as nat, |i: int| [s[i], s[i + 1], s[i + 2]])
    }
}

/// `TA` over `AT`, not guarded: the denominator may be 0.
pub open spec fn margolin1_spec(m: Multiset<[u8; 2]>) -> (nat, nat) {
    (m.count([BASE_T, BASE_A]), m.count([BASE_A, BASE_T]))
}

/// `CA + TG` over `AC + GT`, or `0 / 1` where the denominator is 0.
pub open spec fn margolin2_spec(m: Multiset<[u8; 2]>) -> (nat, nat) {
    let num = m.count([BASE_C, BASE_A]) + m.count([BASE_T, BASE_G]);
    let den = m.count([BASE_A, BASE_C]) + m.count([BASE_G, BASE_T]);
    if den == 0 {
        (0nat, 1nat)
    } else {
        (num, den)
    }
}

/// The two Margolin indices of a window; the composite RIP index is the
/// first less the second.
#[derive(Clone, Copy, Debug, PartialEq, Eq, Structural)]
pub struct CompositeRipIndex {
    pub margolin1: Ratio,
    pub margolin2: Ratio,
}

/// Two distinct tokens together occur no more often than all tokens.
proof fn lemma_two_counts<T>(m: Multiset<T>, a: T, b: T)
    requires
        a != b,
    ensures
        m.count(a) + m.count(b) <= m.len(),
    decreases m.count(a),
{
    if m.count(a) > 0 {
        let rest = m.remove(a);
        assert(Multiset::singleton(a).subset_of(m));
        lemma_two_counts(rest, a, b);
    }
}

/// The dinucleotide counts of `seq`.
pub fn dinucleotide_counts(seq: &[u8]) -> (c: Counter<[u8; 2]>)
    ensures
        c.wf(),
        c@ == dinucleotides(seq@).to_multiset(),
{
    let mut c: Counter<[u8; 2]> = Counter::default();
    let ghost all = dinucleotides(seq@);
    let last: usize = if seq.len() < 2 {
        0
    } else {
        seq.len() - 1
    };
    let mut i: usize = 0;
    while i < last
        invariant
            c.wf(),
            last == all.len(),
            i <= last,
            all == dinucleotides(seq@),
            c@ == all.subrange(0, i as int).to_multiset(),
        decreases seq@.len() - i,
    {
        let pair: [u8; 2] = [seq[i], seq[i + 1]];
        proof {
            assert(pair =~= all[i as int]);
            assert(all.subrange(0, i + 1) =~= all.subrange(0, i as int).push(pair));
            assert(c@.len() == i);
        }
        c.add(pair);
        i = i + 1;
    }
    proof {
        assert(all.subrange(0, i as int) =~= all);
    }
    c
}

/// The trinucleotide counts of `seq`.
pub fn trinucleotide_counts(seq: &[u8]) -> (c: Counter<[u8; 3]>)
    ensures
        c.wf(),
        c@ == trinucleotides(seq@).to_multiset(),
{
    let mut c: Counter<[u8; 3]> = Counter::default();
    let ghost all = trinucleotides(seq@);
    let last: usize = if seq.len() < 3 {
        0
    } else {
        seq.len() - 2
    };
    let mut i: usize = 0;
    while i < last
        invariant
            c.wf(),
            last == all.len(),
            i <= last,
            all == trinucleotides(seq@),
            c@ == all.subrange(0, i as int).to_multiset(),
        decreases seq@.len() - i,
    {
        let triple: [u8; 3] = [seq[i], seq[i + 1], seq[i + 2]];
        proof {
            assert(triple =~= all[i as int]);
            assert(all.subrange(0, i + 1) =~= all.subrange(0, i as int).push(triple));
            assert(c@.len() == i);
        }
        c.add(triple);
        i = i + 1;
    }
    proof {
        assert(all.subrange(0, i as int) =~= all);
    }
    c
}

/// The ratio of `TA` to `AT` dinucleotides; the denominator may be 0.
pub fn margolin1(counts: &Counter<[u8; 2]>) -> (r: Ratio)
    requires
        counts.wf(),
    ensures
        (r.num as nat, r.den as nat) == margolin1_spec(counts@),
{
    let ta: [u8; 2] = [BASE_T, BASE_A];
    let at: [u8; 2] = [BASE_A, BASE_T];
    Ratio { num: counts.count(&ta), den: counts.count(&at) }
}

/// The ratio of `CA + TG` to `AC + GT` dinucleotides, or `0 / 1` where
/// there is no `AC` and no `GT`.
pub fn margolin2(counts: &Counter<[u8; 2]>) -> (r: Ratio)
    requires
        counts.wf(),
    ensures
        (r.num as nat, r.den as nat) == margolin2_spec(counts@),
{
    let ca: [u8; 2] = [BASE_C, BASE_A];
    let ac: [u8; 2] = [BASE_A, BASE_C];
    let gt: [u8; 2] = [BASE_G, BASE_T];
    let tg: [u8; 2] = [BASE_T, BASE_G];
    proof {
        assert(ca != tg) by {
            assert(ca[0] != tg[0]);
        }
        assert(ac != gt) by {
            assert(ac[0] != gt[0]);
        }
        counts.lemma_len_bound();
        lemma_two_counts(counts@, ca, tg);
        lemma_two_counts(counts@, ac, gt);
    }
    let num = counts.count(&ca) + counts.count(&tg);
    let den = counts.count(&ac) + counts.count(&gt);
    if den == 0 {
        Ratio { num: 0, den: 1 }
    } else {
        Ratio { num, den }
    }
}

/// Both Margolin indices of a dinucleotide table.
pub fn cri(counts: &Counter<[u8; 2]>) -> (r: CompositeRipIndex)
    requires
        counts.wf(),
    ensures
        (r.margolin1.num as nat, r.margolin1.den as nat) == margolin1_spec(counts@),
        (r.margolin2.num as nat, r.margolin2.den as nat) == margolin2_spec(counts@),
{
    CompositeRipIndex { margolin1: margolin1(counts), margolin2: margolin2(counts) }
}

/// How often `element` occurs in `counts`.
pub fn count<T: Token>(counts: &Counter<T>, element: &T) -> (r: u64)
    requires
        counts.wf(),
    ensures
        r == counts@.count(*element),
{
    counts.count(element)
}

} // verus!
