//! Exact frequency counts of tokens.

use crate::stats::Ratio;
use std::collections::HashMap;
use vstd::multiset::Multiset;
use vstd::prelude::*;

verus! {

broadcast use vstd::seq_lib::group_to_multiset_ensures;

/// A value that can be counted: distinct tokens have distinct integer keys.
pub trait Token: Copy + Sized {
    spec fn spec_key(self) -> u64;

    proof fn lemma_key_injective(a: Self, b: Self)
        ensures
            a.spec_key() == b.spec_key() ==> a == b,
    ;

    fn key(&self) -> (k: u64)
        ensures
            k == self.spec_key(),
    ;
}

impl Token for u8 {
    open spec fn spec_key(self) -> u64 {
        self as u64
    }

    proof fn lemma_key_injective(a: Self, b: Self) {
    }

    fn key(&self) -> (k: u64) {
        *self as u64
    }
}

impl Token for char {
    open spec fn spec_key(self) -> u64 {
        self as u32 as u64
    }

    proof fn lemma_key_injective(a: Self, b: Self) {
        vstd::utf8::char_u32_cast(a, a as u32);
        vstd::utf8::char_u32_cast(b, b as u32);
    }

    fn key(&self) -> (k: u64) {
        *self as u32 as u64
    }
}

impl Token for [u8; 2] {
    open spec fn spec_key(self) -> u64 {
        ((self[0] as u64) * 256 + self[1] as u64) as u64
    }

    proof fn lemma_key_injective(a: Self, b: Self) {
        if a.spec_key() == b.spec_key() {
            assert(a =~= b);
        }
    }

    fn key(&self) -> (k: u64) {
        (self[0] as u64) * 256 + self[1] as u64
    }
}

impl Token for [u8; 3] {
    open spec fn spec_key(self) -> u64 {
        ((self[0] as u64) * 65536 + (self[1] as u64) * 256 + self[2] as u64) as u64
    }

    proof fn lemma_key_injective(a: Self, b: Self) {
        if a.spec_key() == b.spec_key() {
            assert(a =~= b);
        }
    }

    fn key(&self) -> (k: u64) {
        (self[0] as u64) * 65536 + (self[1] as u64) * 256 + self[2] as u64
    }
}

/// How often `t` occurs in `s`.
pub open spec fn occurrences<T>(s: Seq<T>, t: T) -> nat
    decreases s.len(),
{
    if s.len() == 0 {
        0
    } else {
        occurrences(s.drop_last(), t) + if s.last() == t {
            1nat
        } else {
            0nat
        }
    }
}

/// The sum of the counts in `m` of each element of `s`, repeats included.
pub open spec fn count_total<T>(m: Multiset<T>, s: Seq<T>) -> nat
    decreases s.len(),
{
    if s.len() == 0 {
        0
    } else {
        count_total(m, s.drop_last()) + m.count(s.last())
    }
}

/// Counting is exact: the tokens of `items`, counted, number as many as
/// `items` holds, and each token counts as often as it occurs in `items`
/// (a token that never occurs counts 0).
pub proof fn lemma_counts_are_exact<T>(items: Seq<T>)
    ensures
        items.to_multiset().len() == items.len(),
        forall|t: T| #[trigger] items.to_multiset().count(t) == occurrences(items, t),
    decreases items.len(),
{
    if items.len() > 0 {
        let init = items.drop_last();
        lemma_counts_are_exact(init);
        assert(init.push(items.last()) =~= items);
    }
}

proof fn lemma_count_total_prefix<T>(m: Multiset<T>, s: Seq<T>, i: int)
    requires
        0 <= i <= s.len(),
    ensures
        count_total(m, s.subrange(0, i)) <= count_total(m, s),
    decreases s.len() - i,
{
    if i < s.len() {
        lemma_count_total_prefix(m, s, i + 1);
        assert(s.subrange(0, i + 1).drop_last() =~= s.subrange(0, i));
    } else {
        assert(s.subrange(0, i) =~= s);
    }
}

/// No element of `s` occurs in `m` more often than `m` has elements.
pub proof fn lemma_count_total_bound<T>(m: Multiset<T>, s: Seq<T>)
    ensures
        count_total(m, s) <= s.len() * m.len(),
    decreases s.len(),
{
    if s.len() > 0 {
        lemma_count_total_bound(m, s.drop_last());
        let n = s.len() - 1;
        assert(n * m.len() + m.len() == s.len() * m.len()) by (nonlinear_arith)
            requires
                n == s.len() - 1,
        ;
    }
}

/// A table of exact frequency counts.
pub struct Counter<T> {
    data: HashMap<u64, u64>,
    total: u64,
    tokens: Ghost<Multiset<T>>,
}

impl<T> View for Counter<T> {
    type V = Multiset<T>;

    /// Every token added so far, with its multiplicity.
    closed spec fn view(&self) -> Multiset<T> {
        self.tokens@
    }
}

impl<T: Token> Counter<T> {
    pub closed spec fn wf(&self) -> bool {
        &&& self.total as nat == self.tokens@.len()
        &&& self.tokens@.len() <= usize::MAX
        &&& self.data@.len() == self.tokens@.dom().len()
        &&& forall|t: T| #[trigger] self.tokens@.count(t) > 0 <==> self.data@.contains_key(t.spec_key())
        &&& forall|t: T|
            #[trigger] self.tokens@.count(t) == if self.data@.contains_key(t.spec_key()) {
                self.data@[t.spec_key()] as nat
            } else {
                0nat
            }
    }

    /// A table never holds more tokens than `usize` can number.
    pub proof fn lemma_len_bound(&self)
        requires
            self.wf(),
        ensures
            self@.len() <= usize::MAX,
    {
    }

    /// An empty table with room for `cap` distinct tokens.
    pub fn new(cap: usize) -> (c: Self)
        ensures
            c.wf(),
            c@ == Multiset::<T>::empty(),
    {
        let c = Counter {
            data: HashMap::with_capacity(cap),
            total: 0,
            tokens: Ghost(Multiset::empty()),
        };
        proof {
            assert(c.tokens@.dom() =~= Set::empty());
            assert(c.data@.dom() =~= Set::empty());
        }
        c
    }

    /// Adds one occurrence of `v`.
    pub fn add(&mut self, v: T)
        requires
            old(self).wf(),
            old(self)@.len() < usize::MAX,
        ensures
            final(self).wf(),
            final(self)@ == old(self)@.insert(v),
    {
        let k = v.key();
        let current: u64 = match self.data.get(&k) {
            Some(c) => *c,
            None => 0,
        };
        proof {
            assert(self.tokens@.count(v) == current);
            assert(self.tokens@.count(v) <= self.tokens@.len());
        }
        let ghost old_data = self.data@;
        let ghost old_tokens = self.tokens@;
        self.data.insert(k, current + 1);
        self.total = self.total + 1;
        self.tokens = Ghost(self.tokens@.insert(v));
        proof {
            assert forall|t: T| #[trigger] self.tokens@.count(t) > 0 <==> self.data@.contains_key(t.spec_key()) by {
                T::lemma_key_injective(t, v);
                assert(old_tokens.count(t) > 0 <==> old_data.contains_key(t.spec_key()));
            }
            assert forall|t: T|
                #[trigger] self.tokens@.count(t) == if self.data@.contains_key(t.spec_key()) {
                    self.data@[t.spec_key()] as nat
                } else {
                    0nat
                } by {
                T::lemma_key_injective(t, v);
                assert(old_tokens.count(t) == if old_data.contains_key(t.spec_key()) {
                    old_data[t.spec_key()] as nat
                } else {
                    0nat
                });
            }
            assert(old_tokens.count(v) > 0 <==> old_data.contains_key(k));
            if current == 0 {
                assert(!old_data.contains_key(k));
                assert(!old_tokens.dom().contains(v));
                assert(self.tokens@.dom() =~= old_tokens.dom().insert(v));
                assert(self.data@.dom() =~= old_data.dom().insert(k));
            } else {
                assert(old_data.contains_key(k));
                assert(self.tokens@.dom() =~= old_tokens.dom());
                assert(self.data@.dom() =~= old_data.dom());
            }
        }
    }

    /// The number of distinct tokens.
    pub fn len(&self) -> (r: usize)
        requires
            self.wf(),
        ensures
            r == self@.dom().len(),
    {
        self.data.len()
    }

    /// The number of tokens added, repeats included.
    pub fn size(&self) -> (r: usize)
        requires
            self.wf(),
        ensures
            r == self@.len(),
    {
        self.total as usize
    }

    /// How often `element` was added; 0 if never.
    pub fn count(&self, element: &T) -> (r: u64)
        requires
            self.wf(),
        ensures
            r == self@.count(*element),
    {
        let k = element.key();
        match self.data.get(&k) {
            Some(c) => *c,
            None => 0,
        }
    }

    /// The sum of the counts of each of `elements`, repeats included.
    pub fn count_sum(&self, elements: &[T]) -> (r: u64)
        requires
            self.wf(),
            count_total(self@, elements@) <= u64::MAX,
        ensures
            r == count_total(self@, elements@),
    {
        let mut acc: u64 = 0;
        let mut i: usize = 0;
        while i < elements.len()
            invariant
                self.wf(),
                i <= elements@.len(),
                acc == count_total(self@, elements@.subrange(0, i as int)),
                count_total(self@, elements@) <= u64::MAX,
            decreases elements@.len() - i,
        {
            proof {
                lemma_count_total_prefix(self@, elements@, i + 1);
                assert(elements@.subrange(0, i + 1).drop_last() =~= elements@.subrange(0, i as int));
            }
            acc = acc + self.count(&elements[i]);
            i = i + 1;
        }
        proof {
            assert(elements@.subrange(0, i as int) =~= elements@);
        }
        acc
    }

    /// The share of `element` among all tokens, `0 / 1` if there are none.
    pub fn prop(&self, element: &T) -> (r: Ratio)
        requires
            self.wf(),
        ensures
            self@.len() == 0 ==> r == (Ratio { num: 0, den: 1 }),
            self@.len() > 0 ==> r.num == self@.count(*element) && r.den == self@.len(),
    {
        let size = self.size();
        if size == 0 {
            return Ratio { num: 0, den: 1 };
        }
        Ratio { num: self.count(element), den: size as u64 }
    }

    /// The share of `elements` together among all tokens, `0 / 1` if
    /// there are none.
    pub fn prop_sum(&self, elements: &[T]) -> (r: Ratio)
        requires
            self.wf(),
            elements@.len() * self@.len() <= u64::MAX,
        ensures
            self@.len() == 0 ==> r == (Ratio { num: 0, den: 1 }),
            self@.len() > 0 ==> r.num == count_total(self@, elements@) && r.den == self@.len(),
    {
        let size = self.size();
        if size == 0 {
            return Ratio { num: 0, den: 1 };
        }
        proof {
            lemma_count_total_bound(self@, elements@);
        }
        Ratio { num: self.count_sum(elements), den: size as u64 }
    }

    /// Adds each of `items`, in order.
    pub fn extend(&mut self, items: Vec<T>)
        requires
            old(self).wf(),
            old(self)@.len() + items@.len() <= usize::MAX,
        ensures
            final(self).wf(),
            final(self)@ == old(self)@.add(items@.to_multiset()),
    {
        let ghost start = self@;
        let mut i: usize = 0;
        while i < items.len()
            invariant
                self.wf(),
                i <= items@.len(),
                self@ =~= start.add(items@.subrange(0, i as int).to_multiset()),
                start.len() + items@.len() <= usize::MAX,
            decreases items@.len() - i,
        {
            proof {
                assert(items@.subrange(0, i + 1) =~= items@.subrange(0, i as int).push(items@[i as int]));
                assert(items@.subrange(0, i as int).to_multiset().len() == i);
            }
            self.add(items[i]);
            i = i + 1;
        }
        proof {
            assert(items@.subrange(0, i as int) =~= items@);
        }
    }

    /// A table holding each of `items`.
    pub fn from_iter(items: Vec<T>) -> (c: Self)
        ensures
            c.wf(),
            c@ =~= items@.to_multiset(),
    {
        let mut c = Self::default();
        let n = items.len();
        proof {
            assert(c@.len() == 0);
            assert(n == items@.len());
        }
        c.extend(items);
        c
    }
}

impl<T: Token> Default for Counter<T> {
    /// An empty table with room for 100 distinct tokens; it grows as needed.
    fn default() -> (c: Self)
        ensures
            c.wf(),
            c@ == Multiset::<T>::empty(),
    {
        Self::new(100)
    }
}

} // verus!
