//! Variants whose substitution and neighbouring base fit the signature of
//! repeat-induced point (RIP) mutation.

use crate::sequence::SequenceRecord;
use crate::stats::{BASE_A, BASE_C, BASE_G, BASE_T};
use vstd::prelude::*;
use vstd::string::{StringExecFns, StringSliceAdditionalSpecFns};

verus! {

/// The sequences of a genome, by contig name; a later contig of the same
/// name replaces an earlier one.
pub struct GenomeIndex {
    names: Vec<String>,
    seqs: Vec<Vec<u8>>,
    contigs: Ghost<Map<Seq<char>, Seq<u8>>>,
}

impl View for GenomeIndex {
    type V = Map<Seq<char>, Seq<u8>>;

    closed spec fn view(&self) -> Map<Seq<char>, Seq<u8>> {
        self.contigs@
    }
}

impl GenomeIndex {
    pub closed spec fn wf(&self) -> bool {
        &&& self.names@.len() == self.seqs@.len()
        &&& forall|i: int|
            0 <= i < self.names@.len() ==> {
                &&& self.contigs@.contains_key((#[trigger] self.names@[i])@)
                &&& self.contigs@[self.names@[i]@] == self.seqs@[i]@
            }
        &&& forall|i: int, j: int|
            0 <= i < j < self.names@.len() ==> (#[trigger] self.names@[i])@ != (
            #[trigger] self.names@[j])@
        &&& forall|k: Seq<char>|
            #[trigger] self.contigs@.contains_key(k) ==> exists|i: int|
                0 <= i < self.names@.len() && (#[trigger] self.names@[i])@ == k
    }

    /// A genome with no contig.
    pub fn new() -> (g: Self)
        ensures
            g.wf(),
            g@ == Map::<Seq<char>, Seq<u8>>::empty(),
    {
        GenomeIndex { names: Vec::new(), seqs: Vec::new(), contigs: Ghost(Map::empty()) }
    }

    /// Adds contig `id`, replacing one of the same name.
    pub fn insert(&mut self, id: String, seq: Vec<u8>)
        requires
            old(self).wf(),
        ensures
            final(self).wf(),
            final(self)@ == old(self)@.insert(id@, seq@),
    {
        let mut i: usize = 0;
        while i < self.names.len()
            invariant
                self.wf(),
                self@ == old(self)@,
                i <= self.names@.len(),
                forall|j: int| 0 <= j < i ==> (#[trigger] self.names@[j])@ != id@,
            decreases self.names@.len() - i,
        {
            if self.names[i] == id {
                let ghost key = id@;
                let ghost value = seq@;
                let ghost before = self.contigs@;
                let ghost names = self.names@;
                assert(names[i as int]@ == key);
                self.seqs.set(i, seq);
                self.contigs = Ghost(self.contigs@.insert(key, value));
                proof {
                    assert forall|k: Seq<char>| #[trigger] self.contigs@.contains_key(k) implies exists|j: int|
                        0 <= j < self.names@.len() && (#[trigger] self.names@[j])@ == k by {
                        if k != key {
                            assert(before.contains_key(k));
                            let j = choose|j: int| 0 <= j < names.len() && (#[trigger] names[j])@ == k;
                            assert(self.names@[j] == names[j]);
                        } else {
                            assert(self.names@[i as int] == names[i as int]);
                        }
                    }
                }
                return;
            }
            i = i + 1;
        }
        let ghost key = id@;
        let ghost value = seq@;
        let ghost before = self.contigs@;
        let ghost before_names = self.names@;
        self.names.push(id);
        self.seqs.push(seq);
        self.contigs = Ghost(self.contigs@.insert(key, value));
        proof {
            let n = self.names@.len() - 1;
            assert(self.names@[n]@ == key);
            assert forall|k: Seq<char>| #[trigger] self.contigs@.contains_key(k) implies exists|j: int|
                0 <= j < self.names@.len() && (#[trigger] self.names@[j])@ == k by {
                if k != key {
                    assert(before.contains_key(k));
                    let j = choose|j: int| 0 <= j < before_names.len() && (#[trigger] before_names[j])@ == k;
                    assert(self.names@[j] == before_names[j]);
                } else {
                    assert(self.names@[n]@ == k);
                }
            }
        }
    }

    /// The sequence of contig `name`, if the genome has one.
    pub fn lookup(&self, name: &String) -> (r: Option<&Vec<u8>>)
        requires
            self.wf(),
        ensures
            match r {
                Some(s) => self@.contains_key(name@) && s@ == self@[name@],
                None => !self@.contains_key(name@),
            },
    {
        let mut i: usize = 0;
        while i < self.names.len()
            invariant
                self.wf(),
                i <= self.names@.len(),
                forall|j: int| 0 <= j < i ==> (#[trigger] self.names@[j])@ != name@,
            decreases self.names@.len() - i,
        {
            if self.names[i] == *name {
                return Some(&self.seqs[i]);
            }
            i = i + 1;
        }
        None
    }
}

/// The contigs of `records` by name, where a later record of a name
/// replaces an earlier one.
pub open spec fn index_of(records: Seq<SequenceRecord>) -> Map<Seq<char>, Seq<u8>>
    decreases records.len(),
{
    if records.len() == 0 {
        Map::empty()
    } else {
        index_of(records.drop_last()).insert(records.last().id@, records.last().seq@)
    }
}

/// The genome of `records`.
pub fn fasta_to_dict(records: Vec<SequenceRecord>) -> (g: GenomeIndex)
    ensures
        g.wf(),
        g@ == index_of(records@),
{
    let mut g = GenomeIndex::new();
    let ghost all = records@;
    let n = records.len();
    let mut rest = records;
    let mut i: usize = 0;
    while rest.len() > 0
        invariant
            g.wf(),
            i + rest@.len() == all.len(),
            all.len() == n,
            rest@ == all.subrange(i as int, all.len() as int),
            g@ == index_of(all.subrange(0, i as int)),
        decreases rest@.len(),
    {
        let rec = rest.remove(0);
        proof {
            assert(rec == all[i as int]);
            assert(all.subrange(0, i + 1).drop_last() =~= all.subrange(0, i as int));
        }
        g.insert(rec.id, rec.seq);
        i = i + 1;
        proof {
            assert(rest@ =~= all.subrange(i as int, all.len() as int));
        }
    }
    proof {
        assert(all.subrange(0, i as int) =~= all);
    }
    g
}

/// A variant site: the header's numeric id of its contig (if it has one),
/// its 0-based position, and its alleles, the reference allele first.
#[derive(Clone, Debug)]
pub struct VariantRecord {
    pub rid: Option<u32>,
    pub pos: usize,
    pub alleles: Vec<Vec<u8>>,
}

/// A variant without a contig id, or with one that the header does not name.
#[derive(Clone, Copy, Debug, PartialEq, Eq, Structural)]
pub struct MissingRid {}

impl MissingRid {
    pub fn message(&self) -> (r: String)
        ensures
            r@ == "Missing RID encountered"@,
    {
        String::from_str("Missing RID encountered")
    }
}

/// A variant on a contig that the genome does not hold.
#[derive(Clone, Debug, PartialEq, Eq)]
pub struct FastaMismatch {
    pub chrom: String,
}

impl FastaMismatch {
    pub fn message(&self) -> (r: String)
        ensures
            r@ == "VCF reference Chrom "@ + self.chrom@ + " not in Fasta"@,
    {
        let mut r = String::from_str("VCF reference Chrom ");
        r.append(self.chrom.as_str());
        r.append(" not in Fasta");
        r
    }
}

/// Why a variant could not be classified.
#[derive(Clone, Debug, PartialEq, Eq)]
pub enum SnpError {
    MissingRid(MissingRid),
    FastaMismatch(FastaMismatch),
}

/// The name of contig `rid` among the header's contig names `contigs`.
pub open spec fn contig_name(rid: Option<u32>, contigs: Seq<String>) -> Option<Seq<char>> {
    match rid {
        Some(r) => if r < contigs.len() {
            Some(contigs[r as int]@)
        } else {
            None
        },
        None => None,
    }
}

/// The name of the contig with id `rid`.
pub fn get_chrom_name(rid: Option<u32>, contigs: &Vec<String>) -> (r: Result<&str, MissingRid>)
    ensures
        match r {
            Ok(name) => contig_name(rid, contigs@) == Some(name@),
            Err(_) => contig_name(rid, contigs@) is None,
        },
{
    match rid {
        Some(id) => {
            if (id as usize) < contigs.len() {
                Ok(contigs[id as usize].as_str())
            } else {
                Err(MissingRid {  })
            }
        },
        None => Err(MissingRid {  }),
    }
}

/// The sequence of contig `chrom`.
pub fn get_chrom<'a>(chrom: &str, genome: &'a GenomeIndex) -> (r: Result<&'a [u8], FastaMismatch>)
    requires
        genome.wf(),
    ensures
        match r {
            Ok(s) => genome@.contains_key(chrom@) && s@ == genome@[chrom@],
            Err(e) => !genome@.contains_key(chrom@) && e.chrom@ == chrom@,
        },
{
    let name = chrom.to_owned();
    match genome.lookup(&name) {
        Some(s) => Ok(s.as_slice()),
        None => Err(FastaMismatch { chrom: name }),
    }
}

/// A single-base substitution of the kind that RIP causes, on one strand
/// or the other.
#[derive(Clone, Copy, Debug, PartialEq, Eq, Structural)]
pub enum Transition {
    CToT,
    TToC,
    AToG,
    GToA,
}

/// Whether one of the alternate alleles (all but the first) is the single
/// base `b`.
pub open spec fn has_alt(alleles: Seq<Seq<u8>>, b: u8) -> bool {
    exists|i: int| 1 <= i < alleles.len() && #[trigger] alleles[i] == seq![b]
}

/// The substitution of a site with `alleles`: its reference allele must be
/// one base, and one of its single-base alternate alleles must make it one
/// of the four transitions.
pub open spec fn transition_spec(alleles: Seq<Seq<u8>>) -> Option<Transition> {
    if alleles.len() == 0 || alleles[0].len() != 1 {
        None
    } else {
        let b = alleles[0][0];
        if b == BASE_C && has_alt(alleles, BASE_T) {
            Some(Transition::CToT)
        } else if b == BASE_T && has_alt(alleles, BASE_C) {
            Some(Transition::TToC)
        } else if b == BASE_A && has_alt(alleles, BASE_G) {
            Some(Transition::AToG)
        } else if b == BASE_G && has_alt(alleles, BASE_A) {
            Some(Transition::GToA)
        } else {
            None
        }
    }
}

/// The reference base of a transition.
pub open spec fn ref_base(t: Transition) -> u8 {
    match t {
        Transition::CToT => BASE_C,
        Transition::TToC => BASE_T,
        Transition::AToG => BASE_A,
        Transition::GToA => BASE_G,
    }
}

/// The position of the base beside a substitution at `pos` that decides
/// whether it is RIP-like: the next base where a C or a T changed, the
/// previous base where an A or a G changed.
pub open spec fn neighbor_pos(t: Transition, pos: int) -> int {
    match t {
        Transition::CToT | Transition::TToC => pos + 1,
        Transition::AToG | Transition::GToA => pos - 1,
    }
}

/// The strand and verdict of a substitution `t` next to base `neighbor`.
pub open spec fn verdict(t: Transition, neighbor: u8) -> (i8, bool) {
    if (t == Transition::CToT || t == Transition::TToC) && neighbor == BASE_A {
        (1i8, true)
    } else if (t == Transition::GToA || t == Transition::AToG) && neighbor == BASE_T {
        (-1i8, true)
    } else {
        (0i8, false)
    }
}

/// A classified substitution: where it is, the strand it is on (0 where
/// it is not RIP-like), the reference base and its neighbour, and whether
/// it is RIP-like.
#[derive(Clone, Debug, PartialEq, Eq)]
pub struct RipCall {
    pub chrom: String,
    pub pos: usize,
    pub strand: i8,
    pub bases: [u8; 2],
    pub is_rip: bool,
}

/// `r` is the call of substitution `t` at `pos` of contig `chrom` with
/// sequence `seq`: none where the neighbour lies outside the sequence.
pub open spec fn is_site_call(
    r: Option<RipCall>,
    chrom: Seq<char>,
    seq: Seq<u8>,
    pos: int,
    t: Transition,
) -> bool {
    let np = neighbor_pos(t, pos);
    if 0 <= np < seq.len() {
        &&& r is Some
        &&& r->0.chrom@ == chrom
        &&& r->0.pos == pos
        &&& (r->0.strand, r->0.is_rip) == verdict(t, seq[np])
        &&& r->0.bases[0] == ref_base(t)
        &&& r->0.bases[1] == seq[np]
    } else {
        r is None
    }
}

/// Whether some allele after the first is the single base `b`.
fn has_alt_allele(alleles: &Vec<Vec<u8>>, b: u8) -> (r: bool)
    ensures
        r == has_alt(alleles.deep_view(), b),
{
    let mut i: usize = 1;
    while i < alleles.len()
        invariant
            1 <= i,
            forall|j: int| 1 <= j < i && j < alleles@.len() ==> #[trigger] alleles.deep_view()[j] != seq![b],
        decreases alleles@.len() - i,
    {
        let a = &alleles[i];
        proof {
            assert(alleles.deep_view()[i as int] == a@);
        }
        if a.len() == 1 && a[0] == b {
            proof {
                assert(a@ =~= seq![b]);
            }
            return true;
        }
        proof {
            assert(a@ != seq![b]) by {
                if a@.len() == 1 {
                    assert(seq![b][0] == b);
                }
            }
        }
        i = i + 1;
    }
    false
}

/// The substitution of a site with `alleles`, if it is one of the four
/// transitions.
pub fn transition(alleles: &Vec<Vec<u8>>) -> (r: Option<Transition>)
    ensures
        r == transition_spec(alleles.deep_view()),
{
    if alleles.len() == 0 || alleles[0].len() != 1 {
        proof {
            if alleles@.len() > 0 {
                assert(alleles.deep_view()[0] == alleles@[0]@);
            }
        }
        return None;
    }
    let b = alleles[0][0];
    proof {
        assert(alleles.deep_view()[0] == alleles@[0]@);
    }
    if b == BASE_C && has_alt_allele(alleles, BASE_T) {
        Some(Transition::CToT)
    } else if b == BASE_T && has_alt_allele(alleles, BASE_C) {
        Some(Transition::TToC)
    } else if b == BASE_A && has_alt_allele(alleles, BASE_G) {
        Some(Transition::AToG)
    } else if b == BASE_G && has_alt_allele(alleles, BASE_A) {
        Some(Transition::GToA)
    } else {
        None
    }
}

/// The call of substitution `t` at `pos` of contig `chrom` with sequence
/// `seq`, or `None` where the deciding neighbour lies outside the sequence.
pub fn classify_site(chrom: &str, seq: &[u8], pos: usize, t: Transition) -> (r: Option<RipCall>)
    ensures
        is_site_call(r, chrom@, seq@, pos as int, t),
{
    let downstream = t == Transition::CToT || t == Transition::TToC;
    let next_pos: usize = if downstream {
        if pos >= seq.len() || seq.len() - pos < 2 {
            return None;
        }
        pos + 1
    } else {
        if pos == 0 || pos - 1 >= seq.len() {
            return None;
        }
        pos - 1
    };
    let next_base = seq[next_pos];
    let this_base = match t {
        Transition::CToT => BASE_C,
        Transition::TToC => BASE_T,
        Transition::AToG => BASE_A,
        Transition::GToA => BASE_G,
    };
    let strand: i8;
    let is_rip: bool;
    if downstream && next_base == BASE_A {
        strand = 1;
        is_rip = true;
    } else if !downstream && next_base == BASE_T {
        strand = -1;
        is_rip = true;
    } else {
        strand = 0;
        is_rip = false;
    }
    Some(RipCall { chrom: chrom.to_owned(), pos, strand, bases: [this_base, next_base], is_rip })
}

/// Classifies one variant: `Ok(None)` for a variant that is skipped (not a
/// single-base transition, or its deciding neighbour lies outside the
/// contig), an error where its contig cannot be found.
pub fn rip_snp(variant: &VariantRecord, contigs: &Vec<String>, genome: &GenomeIndex) -> (r: Result<
    Option<RipCall>,
    SnpError,
>)
    requires
        genome.wf(),
    ensures
        match transition_spec(variant.alleles.deep_view()) {
            None => r == Ok::<Option<RipCall>, SnpError>(None),
            Some(t) => match contig_name(variant.rid, contigs@) {
                None => (r matches Err(SnpError::MissingRid(_))),
                Some(name) => if genome@.contains_key(name) {
                    (r matches Ok(c) && is_site_call(c, name, genome@[name], variant.pos as int, t))
                } else {
                    (r matches Err(SnpError::FastaMismatch(e)) && e.chrom@ == name)
                },
            },
        },
{
    let t = match transition(&variant.alleles) {
        Some(t) => t,
        None => return Ok(None),
    };
    let chrom = match get_chrom_name(variant.rid, contigs) {
        Ok(c) => c,
        Err(e) => return Err(SnpError::MissingRid(e)),
    };
    let seq = match get_chrom(chrom, genome) {
        Ok(s) => s,
        Err(e) => return Err(SnpError::FastaMismatch(e)),
    };
    Ok(classify_site(chrom, seq, variant.pos, t))
}

/// The byte of a tab.
pub const TAB: u8 = 9;

/// The byte of a line feed.
pub const NEWLINE: u8 = 10;

/// The byte of the digit `0`; the other digits follow it.
pub const DIGIT_ZERO: u8 = 48;

/// The byte of a minus sign.
pub const MINUS: u8 = 45;

/// The decimal digits of `n`, most significant first, without leading zeros.
pub open spec fn decimal(n: nat) -> Seq<u8>
    decreases n,
{
    if n < 10 {
        seq![(DIGIT_ZERO + n) as u8]
    } else {
        decimal(n / 10).push((DIGIT_ZERO + n % 10) as u8)
    }
}

/// `n` in decimal, with a minus sign if it is negative.
pub open spec fn signed_decimal(n: int) -> Seq<u8> {
    if n < 0 {
        seq![MINUS] + decimal((-n) as nat)
    } else {
        decimal(n as nat)
    }
}

/// One line of output for a classified substitution: contig, position,
/// position + 1, strand, the reference base and its neighbour, and `1` if
/// it is RIP-like, else `0`; tab-separated.
pub open spec fn bed_line(chrom: Seq<u8>, pos: nat, strand: int, bases: [u8; 2], is_rip: bool) -> Seq<u8> {
    chrom + seq![TAB] + decimal(pos) + seq![TAB] + decimal(pos + 1) + seq![TAB] + signed_decimal(strand)
        + seq![TAB, bases[0], bases[1], TAB] + seq![
        if is_rip {
            (DIGIT_ZERO + 1) as u8
        } else {
            DIGIT_ZERO
        },
        NEWLINE,
    ]
}

/// Appends the decimal digits of `n`.
fn push_decimal(out: &mut Vec<u8>, n: usize)
    ensures
        final(out)@ == old(out)@ + decimal(n as nat),
    decreases n,
{
    if n >= 10 {
        push_decimal(out, n / 10);
    }
    out.push(DIGIT_ZERO + (n % 10) as u8);
    proof {
        assert(final(out)@ =~= old(out)@ + decimal(n as nat));
    }
}

/// Appends `bytes`.
fn push_bytes(out: &mut Vec<u8>, bytes: &[u8])
    ensures
        final(out)@ == old(out)@ + bytes@,
{
    let mut i: usize = 0;
    while i < bytes.len()
        invariant
            i <= bytes@.len(),
            out@ == old(out)@ + bytes@.subrange(0, i as int),
        decreases bytes@.len() - i,
    {
        out.push(bytes[i]);
        i = i + 1;
        proof {
            assert(out@ =~= old(out)@ + bytes@.subrange(0, i as int));
        }
    }
    proof {
        assert(bytes@.subrange(0, i as int) =~= bytes@);
    }
}

/// Appends `n` in decimal, with a minus sign if it is negative.
fn push_signed(out: &mut Vec<u8>, n: i8)
    ensures
        final(out)@ == old(out)@ + signed_decimal(n as int),
{
    if n < 0 {
        out.push(MINUS);
        push_decimal(out, (-(n as i16)) as usize);
        proof {
            assert(out@ =~= old(out)@ + signed_decimal(n as int));
        }
    } else {
        push_decimal(out, n as usize);
    }
}

/// Appends the output line of a classified substitution to `handle`.
pub fn print_bed(handle: &mut Vec<u8>, chrom: &str, pos: usize, strand: i8, ref_allele: [u8; 2], isrip: bool)
    requires
        pos < usize::MAX,
    ensures
        final(handle)@ == old(handle)@ + bed_line(chrom.spec_bytes(), pos as nat, strand as int, ref_allele, isrip),
{
    let mut line: Vec<u8> = Vec::new();
    push_bytes(&mut line, chrom.as_bytes());
    line.push(TAB);
    let ghost a = line@;
    assert(a =~= chrom.spec_bytes() + seq![TAB]);
    push_decimal(&mut line, pos);
    line.push(TAB);
    let ghost b = line@;
    assert(b =~= a + decimal(pos as nat) + seq![TAB]);
    push_decimal(&mut line, pos + 1);
    line.push(TAB);
    let ghost c = line@;
    assert(c =~= b + decimal((pos + 1) as nat) + seq![TAB]);
    push_signed(&mut line, strand);
    let ghost d = line@;
    line.push(TAB);
    line.push(ref_allele[0]);
    line.push(ref_allele[1]);
    line.push(TAB);
    let ghost e = line@;
    assert(e =~= d + seq![TAB, ref_allele[0], ref_allele[1], TAB]);
    line.push(if isrip {
        DIGIT_ZERO + 1
    } else {
        DIGIT_ZERO
    });
    line.push(NEWLINE);
    proof {
        let flag: u8 = if isrip {
            (DIGIT_ZERO + 1) as u8
        } else {
            DIGIT_ZERO
        };
        assert(line@ =~= e + seq![flag, NEWLINE]);
        assert(line@ =~= bed_line(chrom.spec_bytes(), pos as nat, strand as int, ref_allele, isrip));
    }
    push_bytes(handle, line.as_slice());
}

} // verus!
