//! A named sequence, as read from a FASTA file.

use vstd::prelude::*;

verus! {

/// An identifier and the bytes of its sequence.
#[derive(Clone, Debug)]
pub struct SequenceRecord {
    pub id: String,
    pub seq: Vec<u8>,
}

impl SequenceRecord {
    pub fn new(id: &str, seq: Vec<u8>) -> (r: Self)
        ensures
            r.id@ == id@,
            r.seq@ == seq@,
    {
        SequenceRecord { id: id.to_owned(), seq }
    }
}

} // verus!
