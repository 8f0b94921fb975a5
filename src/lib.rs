//! Rolling-window composition statistics over DNA sequences, and detection
//! of single-nucleotide variants that carry the signature of repeat-induced
//! point (RIP) mutation.

pub mod bedgraph;
pub mod errors;
pub mod fields;
pub mod freqs;
pub mod sequence;
pub mod snp;
pub mod stats;
pub mod windows;
