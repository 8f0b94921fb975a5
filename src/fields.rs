//! The fields that a window scan can report, and the dinucleotides and
//! trinucleotides among them.

use crate::stats::{BASE_A, BASE_C, BASE_G, BASE_T};
use vstd::prelude::*;
use vstd::string::{StrSliceExecFns, StringExecFns};

verus! {

/// A statistic of a window, or the count of one dinucleotide or
/// trinucleotide.
#[derive(Debug, Clone, Copy, PartialEq, Eq, Structural)]
pub enum Field {
    PercGC,
    CRI,
    Margolin1,
    Margolin2,
    AA,
    AT,
    AG,
    AC,
    TA,
    TT,
    TG,
    TC,
    GA,
    GT,
    GG,
    GC,
    CA,
    CT,
    CG,
    CC,
    AAA,
    AAT,
    AAG,
    AAC,
    ATA,
    ATT,
    ATG,
    ATC,
    AGA,
    AGT,
    AGG,
    AGC,
    ACA,
    ACT,
    ACG,
    ACC,
    TAA,
    TAT,
    TAG,
    TAC,
    TTA,
    TTT,
    TTG,
    TTC,
    TGA,
    TGT,
    TGG,
    TGC,
    TCA,
    TCT,
    TCG,
    TCC,
    GAA,
    GAT,
    GAG,
    GAC,
    GTA,
    GTT,
    GTG,
    GTC,
    GGA,
    GGT,
    GGG,
    GGC,
    GCA,
    GCT,
    GCG,
    GCC,
    CAA,
    CAT,
    CAG,
    CAC,
    CTA,
    CTT,
    CTG,
    CTC,
    CGA,
    CGT,
    CGG,
    CGC,
    CCA,
    CCT,
    CCG,
    CCC,
}

/// The bases of a dinucleotide field.
pub open spec fn di_bases(f: Field) -> Option<Seq<u8>> {
    match f {
        Field::AA => Some(seq![BASE_A, BASE_A]),
        Field::AT => Some(seq![BASE_A, BASE_T]),
        Field::AG => Some(seq![BASE_A, BASE_G]),
        Field::AC => Some(seq![BASE_A, BASE_C]),
        Field::TA => Some(seq![BASE_T, BASE_A]),
        Field::TT => Some(seq![BASE_T, BASE_T]),
        Field::TG => Some(seq![BASE_T, BASE_G]),
        Field::TC => Some(seq![BASE_T, BASE_C]),
        Field::GA => Some(seq![BASE_G, BASE_A]),
        Field::GT => Some(seq![BASE_G, BASE_T]),
        Field::GG => Some(seq![BASE_G, BASE_G]),
        Field::GC => Some(seq![BASE_G, BASE_C]),
        Field::CA => Some(seq![BASE_C, BASE_A]),
        Field::CT => Some(seq![BASE_C, BASE_T]),
        Field::CG => Some(seq![BASE_C, BASE_G]),
        Field::CC => Some(seq![BASE_C, BASE_C]),
        _ => None,
    }
}

/// The bases of a trinucleotide field.
pub open spec fn tri_bases(f: Field) -> Option<Seq<u8>> {
    match f {
        Field::AAA => Some(seq![BASE_A, BASE_A, BASE_A]),
        Field::AAT => Some(seq![BASE_A, BASE_A, BASE_T]),
        Field::AAG => Some(seq![BASE_A, BASE_A, BASE_G]),
        Field::AAC => Some(seq![BASE_A, BASE_A, BASE_C]),
        Field::ATA => Some(seq![BASE_A, BASE_T, BASE_A]),
        Field::ATT => Some(seq![BASE_A, BASE_T, BASE_T]),
        Field::ATG => Some(seq![BASE_A, BASE_T, BASE_G]),
        Field::ATC => Some(seq![BASE_A, BASE_T, BASE_C]),
        Field::AGA => Some(seq![BASE_A, BASE_G, BASE_A]),
        Field::AGT => Some(seq![BASE_A, BASE_G, BASE_T]),
        Field::AGG => Some(seq![BASE_A, BASE_G, BASE_G]),
        Field::AGC => Some(seq![BASE_A, BASE_G, BASE_C]),
        Field::ACA => Some(seq![BASE_A, BASE_C, BASE_A]),
        Field::ACT => Some(seq![BASE_A, BASE_C, BASE_T]),
        Field::ACG => Some(seq![BASE_A, BASE_C, BASE_G]),
        Field::ACC => Some(seq![BASE_A, BASE_C, BASE_C]),
        Field::TAA => Some(seq![BASE_T, BASE_A, BASE_A]),
        Field::TAT => Some(seq![BASE_T, BASE_A, BASE_T]),
        Field::TAG => Some(seq![BASE_T, BASE_A, BASE_G]),
        Field::TAC => Some(seq![BASE_T, BASE_A, BASE_C]),
        Field::TTA => Some(seq![BASE_T, BASE_T, BASE_A]),
        Field::TTT => Some(seq![BASE_T, BASE_T, BASE_T]),
        Field::TTG => Some(seq![BASE_T, BASE_T, BASE_G]),
        Field::TTC => Some(seq![BASE_T, BASE_T, BASE_C]),
        Field::TGA => Some(seq![BASE_T, BASE_G, BASE_A]),
        Field::TGT => Some(seq![BASE_T, BASE_G, BASE_T]),
        Field::TGG => Some(seq![BASE_T, BASE_G, BASE_G]),
        Field::TGC => Some(seq![BASE_T, BASE_G, BASE_C]),
        Field::TCA => Some(seq![BASE_T, BASE_C, BASE_A]),
        Field::TCT => Some(seq![BASE_T, BASE_C, BASE_T]),
        Field::TCG => Some(seq![BASE_T, BASE_C, BASE_G]),
        Field::TCC => Some(seq![BASE_T, BASE_C, BASE_C]),
        Field::GAA => Some(seq![BASE_G, BASE_A, BASE_A]),
        Field::GAT => Some(seq![BASE_G, BASE_A, BASE_T]),
        Field::GAG => Some(seq![BASE_G, BASE_A, BASE_G]),
        Field::GAC => Some(seq![BASE_G, BASE_A, BASE_C]),
        Field::GTA => Some(seq![BASE_G, BASE_T, BASE_A]),
        Field::GTT => Some(seq![BASE_G, BASE_T, BASE_T]),
        Field::GTG => Some(seq![BASE_G, BASE_T, BASE_G]),
        Field::GTC => Some(seq![BASE_G, BASE_T, BASE_C]),
        Field::GGA => Some(seq![BASE_G, BASE_G, BASE_A]),
        Field::GGT => Some(seq![BASE_G, BASE_G, BASE_T]),
        Field::GGG => Some(seq![BASE_G, BASE_G, BASE_G]),
        Field::GGC => Some(seq![BASE_G, BASE_G, BASE_C]),
        Field::GCA => Some(seq![BASE_G, BASE_C, BASE_A]),
        Field::GCT => Some(seq![BASE_G, BASE_C, BASE_T]),
        Field::GCG => Some(seq![BASE_G, BASE_C, BASE_G]),
        Field::GCC => Some(seq![BASE_G, BASE_C, BASE_C]),
        Field::CAA => Some(seq![BASE_C, BASE_A, BASE_A]),
        Field::CAT => Some(seq![BASE_C, BASE_A, BASE_T]),
        Field::CAG => Some(seq![BASE_C, BASE_A, BASE_G]),
        Field::CAC => Some(seq![BASE_C, BASE_A, BASE_C]),
        Field::CTA => Some(seq![BASE_C, BASE_T, BASE_A]),
        Field::CTT => Some(seq![BASE_C, BASE_T, BASE_T]),
        Field::CTG => Some(seq![BASE_C, BASE_T, BASE_G]),
        Field::CTC => Some(seq![BASE_C, BASE_T, BASE_C]),
        Field::CGA => Some(seq![BASE_C, BASE_G, BASE_A]),
        Field::CGT => Some(seq![BASE_C, BASE_G, BASE_T]),
        Field::CGG => Some(seq![BASE_C, BASE_G, BASE_G]),
        Field::CGC => Some(seq![BASE_C, BASE_G, BASE_C]),
        Field::CCA => Some(seq![BASE_C, BASE_C, BASE_A]),
        Field::CCT => Some(seq![BASE_C, BASE_C, BASE_T]),
        Field::CCG => Some(seq![BASE_C, BASE_C, BASE_G]),
        Field::CCC => Some(seq![BASE_C, BASE_C, BASE_C]),
        _ => None,
    }
}

/// The base that pairs with `b`.
pub open spec fn complement(b: u8) -> u8 {
    if b == BASE_A {
        BASE_T
    } else if b == BASE_T {
        BASE_A
    } else if b == BASE_C {
        BASE_G
    } else if b == BASE_G {
        BASE_C
    } else {
        b
    }
}

/// The bases of the other strand, read in its own direction.
pub open spec fn reverse_complement(s: Seq<u8>) -> Seq<u8> {
    Seq::new(s.len(), |i: int| complement(s[s.len() - 1 - i]))
}

/// Whether `a` comes no later than `b` in alphabetical order; both have
/// the same length.
pub open spec fn lex_le(a: Seq<u8>, b: Seq<u8>) -> bool
    decreases a.len(),
{
    if a.len() == 0 || b.len() == 0 {
        true
    } else if a[0] != b[0] {
        a[0] < b[0]
    } else {
        lex_le(a.drop_first(), b.drop_first())
    }
}

/// Of a k-mer and its reverse complement, the one that comes first
/// alphabetically: the name under which both strands are counted together.
pub open spec fn canonical(s: Seq<u8>) -> Seq<u8> {
    if lex_le(s, reverse_complement(s)) {
        s
    } else {
        reverse_complement(s)
    }
}

impl Field {
    /// The sixteen dinucleotide fields.
    pub fn get_di() -> (r: Vec<Field>)
        ensures
            r@.len() == 16,
            forall|i: int| 0 <= i < r@.len() ==> (#[trigger] di_bases(r@[i])) is Some,
            forall|i: int, j: int| 0 <= i < j < r@.len() ==> (#[trigger] r@[i]) != (#[trigger] r@[j]),
    {
        vec![
            Field::AA,
            Field::AT,
            Field::AG,
            Field::AC,
            Field::TA,
            Field::TT,
            Field::TG,
            Field::TC,
            Field::GA,
            Field::GT,
            Field::GG,
            Field::GC,
            Field::CA,
            Field::CT,
            Field::CG,
            Field::CC,
        ]
    }

    /// The field under which this dinucleotide and its reverse complement
    /// are counted together; any other field stays as it is.
    pub fn smaller_di(&self) -> (r: Self)
        ensures
            match di_bases(*self) {
                Some(s) => di_bases(r) == Some(canonical(s)),
                None => r == *self,
            },
    {
        match self {
            Field::AA => Field::AA,
            Field::AT => Field::AT,
            Field::AG => Field::AG,
            Field::AC => Field::AC,
            Field::TA => Field::TA,
            Field::TT => Field::AA,
            Field::TG => Field::CA,
            Field::TC => Field::GA,
            Field::GA => Field::GA,
            Field::GT => Field::AC,
            Field::GG => Field::CC,
            Field::GC => Field::GC,
            Field::CA => Field::CA,
            Field::CT => Field::AG,
            Field::CG => Field::CG,
            Field::CC => Field::CC,
            _ => *self,
        }
    }

    /// The field under which this trinucleotide and its reverse complement
    /// are counted together; any other field stays as it is.
    pub fn smaller_tri(&self) -> (r: Self)
        ensures
            match tri_bases(*self) {
                Some(s) => tri_bases(r) == Some(canonical(s)),
                None => r == *self,
            },
    {
        proof {
            reveal_with_fuel(lex_le, 4);
        }
        match self {
            Field::AAA => Field::AAA,
            Field::AAT => Field::AAT,
            Field::AAG => Field::AAG,
            Field::AAC => Field::AAC,
            Field::ATA => Field::ATA,
            Field::ATT => Field::AAT,
            Field::ATG => Field::ATG,
            Field::ATC => Field::ATC,
            Field::AGA => Field::AGA,
            Field::AGT => Field::ACT,
            Field::AGG => Field::AGG,
            Field::AGC => Field::AGC,
            Field::ACA => Field::ACA,
            Field::ACT => Field::ACT,
            Field::ACG => Field::ACG,
            Field::ACC => Field::ACC,
            Field::TAA => Field::TAA,
            Field::TAT => Field::ATA,
            Field::TAG => Field::CTA,
            Field::TAC => Field::GTA,
            Field::TTA => Field::TAA,
            Field::TTT => Field::AAA,
            Field::TTG => Field::CAA,
            Field::TTC => Field::GAA,
            Field::TGA => Field::TCA,
            Field::TGT => Field::ACA,
            Field::TGG => Field::CCA,
            Field::TGC => Field::GCA,
            Field::TCA => Field::TCA,
            Field::TCT => Field::AGA,
            Field::TCG => Field::CGA,
            Field::TCC => Field::GGA,
            Field::GAA => Field::GAA,
            Field::GAT => Field::ATC,
            Field::GAG => Field::CTC,
            Field::GAC => Field::GAC,
            Field::GTA => Field::GTA,
            Field::GTT => Field::AAC,
            Field::GTG => Field::CAC,
            Field::GTC => Field::GAC,
            Field::GGA => Field::GGA,
            Field::GGT => Field::ACC,
            Field::GGG => Field::CCC,
            Field::GGC => Field::GCC,
            Field::GCA => Field::GCA,
            Field::GCT => Field::AGC,
            Field::GCG => Field::CGC,
            Field::GCC => Field::GCC,
            Field::CAA => Field::CAA,
            Field::CAT => Field::ATG,
            Field::CAG => Field::CAG,
            Field::CAC => Field::CAC,
            Field::CTA => Field::CTA,
            Field::CTT => Field::AAG,
            Field::CTG => Field::CAG,
            Field::CTC => Field::CTC,
            Field::CGA => Field::CGA,
            Field::CGT => Field::ACG,
            Field::CGG => Field::CCG,
            Field::CGC => Field::CGC,
            Field::CCA => Field::CCA,
            Field::CCT => Field::AGG,
            Field::CCG => Field::CCG,
            Field::CCC => Field::CCC,
            _ => *self,
        }
    }

}

/// The choices of the fields option; some stand for several fields.
#[derive(Debug, Clone, Copy, PartialEq, Eq, Structural)]
pub enum ShorthandField {
    PercGC,
    CRI,
    Margolin1,
    Margolin2,
    Di,
    Tri,
    DiNR,
    TriNR,
    All,
}

/// Every choice, in the order in which they are listed.
pub open spec fn shorthand_domain() -> Seq<ShorthandField> {
    seq![
        ShorthandField::PercGC,
        ShorthandField::CRI,
        ShorthandField::Margolin1,
        ShorthandField::Margolin2,
        ShorthandField::Di,
        ShorthandField::Tri,
        ShorthandField::DiNR,
        ShorthandField::TriNR,
        ShorthandField::All,
    ]
}

/// The name under which a choice is written.
pub open spec fn shorthand_name(f: ShorthandField) -> Seq<char> {
    match f {
        ShorthandField::PercGC => "perc_gc"@,
        ShorthandField::CRI => "cri"@,
        ShorthandField::Margolin1 => "margolin1"@,
        ShorthandField::Margolin2 => "margolin2"@,
        ShorthandField::Di => "di"@,
        ShorthandField::Tri => "tri"@,
        ShorthandField::DiNR => "di_nr"@,
        ShorthandField::TriNR => "tri_nr"@,
        ShorthandField::All => "all"@,
    }
}

/// `parts` separated by a comma and a space.
pub open spec fn comma_joined(parts: Seq<Seq<char>>) -> Seq<char>
    decreases parts.len(),
{
    if parts.len() == 0 {
        Seq::empty()
    } else if parts.len() == 1 {
        parts[0]
    } else {
        comma_joined(parts.drop_last()) + ", "@ + parts.last()
    }
}

/// The strings of `v`, separated by a comma and a space.
pub fn vec_as_comma_delimited(v: &[String]) -> (r: String)
    ensures
        r@ == comma_joined(v@.map_values(|s: String| s@)),
{
    let ghost parts = v@.map_values(|s: String| s@);
    let mut r = String::new();
    let mut i: usize = 0;
    while i < v.len()
        invariant
            i <= v@.len(),
            parts == v@.map_values(|s: String| s@),
            r@ == comma_joined(parts.subrange(0, i as int)),
        decreases v@.len() - i,
    {
        if i > 0 {
            r.append(", ");
        }
        r.append(v[i].as_str());
        proof {
            let next = parts.subrange(0, i + 1);
            assert(next.drop_last() =~= parts.subrange(0, i as int));
            if i == 0 {
                assert(r@ =~= comma_joined(next));
            }
        }
        i = i + 1;
    }
    proof {
        assert(parts.subrange(0, i as int) =~= parts);
    }
    r
}

/// Whether `a` and `b` hold the same characters.
fn str_eq(a: &str, b: &str) -> (r: bool)
    ensures
        r == (a@ == b@),
{
    let n = a.unicode_len();
    if n != b.unicode_len() {
        return false;
    }
    let mut i: usize = 0;
    while i < n
        invariant
            n == a@.len(),
            n == b@.len(),
            i <= n,
            forall|j: int| 0 <= j < i ==> a@[j] == b@[j],
        decreases n - i,
    {
        if a.get_char(i) != b.get_char(i) {
            return false;
        }
        i = i + 1;
    }
    proof {
        assert(a@ =~= b@);
    }
    true
}

/// A choice that is none of the valid ones.
#[derive(Debug, Clone, PartialEq, Eq)]
pub struct ChoiceError {
    pub bad_choice: String,
    pub valid_choices: Vec<String>,
}

impl ChoiceError {
    pub fn message(&self) -> (r: String)
        ensures
            r@ == "Received an invalid choice: "@ + self.bad_choice@ + ". Valid choices are: "@
                + comma_joined(self.valid_choices@.map_values(|s: String| s@)),
    {
        let mut r = String::from_str("Received an invalid choice: ");
        r.append(self.bad_choice.as_str());
        r.append(". Valid choices are: ");
        let joined = vec_as_comma_delimited(self.valid_choices.as_slice());
        r.append(joined.as_str());
        r
    }
}

impl ShorthandField {
    /// Every choice, in order.
    pub fn domain() -> (r: Vec<Self>)
        ensures
            r@ == shorthand_domain(),
    {
        let r = vec![
            ShorthandField::PercGC,
            ShorthandField::CRI,
            ShorthandField::Margolin1,
            ShorthandField::Margolin2,
            ShorthandField::Di,
            ShorthandField::Tri,
            ShorthandField::DiNR,
            ShorthandField::TriNR,
            ShorthandField::All,
        ];
        proof {
            assert(r@ =~= shorthand_domain());
        }
        r
    }

    /// The name under which this choice is written.
    pub fn name(&self) -> (r: &'static str)
        ensures
            r@ == shorthand_name(*self),
    {
        match self {
            ShorthandField::PercGC => "perc_gc",
            ShorthandField::CRI => "cri",
            ShorthandField::Margolin1 => "margolin1",
            ShorthandField::Margolin2 => "margolin2",
            ShorthandField::Di => "di",
            ShorthandField::Tri => "tri",
            ShorthandField::DiNR => "di_nr",
            ShorthandField::TriNR => "tri_nr",
            ShorthandField::All => "all",
        }
    }

    /// The names of all choices, in order.
    pub fn domain_names() -> (r: Vec<String>)
        ensures
            r@.len() == shorthand_domain().len(),
            forall|i: int| 0 <= i < r@.len() ==> (#[trigger] r@[i])@ == shorthand_name(shorthand_domain()[i]),
    {
        let fields = ShorthandField::domain();
        let mut r: Vec<String> = Vec::new();
        let mut i: usize = 0;
        while i < fields.len()
            invariant
                fields@ == shorthand_domain(),
                i <= fields@.len(),
                r@.len() == i,
                forall|j: int| 0 <= j < i ==> (#[trigger] r@[j])@ == shorthand_name(shorthand_domain()[j]),
            decreases fields@.len() - i,
        {
            r.push(String::from_str(fields[i].name()));
            i = i + 1;
        }
        r
    }

    /// The choice named `s`.
    pub fn parse(s: &str) -> (r: Result<Self, ChoiceError>)
        ensures
            match r {
                Ok(f) => shorthand_name(f) == s@,
                Err(e) => {
                    &&& forall|f: ShorthandField| shorthand_name(f) != s@
                    &&& e.bad_choice@ == s@
                    &&& e.valid_choices@.len() == shorthand_domain().len()
                    &&& forall|i: int|
                        0 <= i < e.valid_choices@.len() ==> (#[trigger] e.valid_choices@[i])@
                            == shorthand_name(shorthand_domain()[i])
                },
            },
    {
        if str_eq(s, "perc_gc") {
            Ok(ShorthandField::PercGC)
        } else if str_eq(s, "cri") {
            Ok(ShorthandField::CRI)
        } else if str_eq(s, "margolin1") {
            Ok(ShorthandField::Margolin1)
        } else if str_eq(s, "margolin2") {
            Ok(ShorthandField::Margolin2)
        } else if str_eq(s, "di") {
            Ok(ShorthandField::Di)
        } else if str_eq(s, "tri") {
            Ok(ShorthandField::Tri)
        } else if str_eq(s, "di_nr") {
            Ok(ShorthandField::DiNR)
        } else if str_eq(s, "tri_nr") {
            Ok(ShorthandField::TriNR)
        } else if str_eq(s, "all") {
            Ok(ShorthandField::All)
        } else {
            Err(ChoiceError { bad_choice: s.to_owned(), valid_choices: ShorthandField::domain_names() })
        }
    }
}

impl std::str::FromStr for ShorthandField {
    type Err = ChoiceError;

    fn from_str(s: &str) -> Result<Self, ChoiceError> {
        ShorthandField::parse(s)
    }
}

} // verus!
