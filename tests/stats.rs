use riprap::bedgraph::BGBlock;
use riprap::sequence::SequenceRecord;
use riprap::stats::counter::{dinucleotide_counts, margolin1, margolin2, trinucleotide_counts};
use riprap::stats::{base_content, cri, sliding_windows, Ratio};

fn as_f64(r: Ratio) -> f64 {
    r.num as f64 / r.den as f64
}

#[test]
fn base_content_of_gc() {
    let result = base_content(b"ATGC", b"GC");
    assert_eq!(result, Ratio { num: 2, den: 4 });
    assert_eq!(as_f64(result), 0.5);

    let result = base_content(b"ATGC", b"TGC");
    assert_eq!(as_f64(result), 0.75);
}

#[test]
fn base_content_of_empty_window_is_zero() {
    let empty: &[u8] = b"";
    let result = base_content(empty, b"GC");
    assert_eq!(result, Ratio { num: 0, den: 1 });
    assert_eq!(as_f64(result), 0.0);
}

#[test]
fn base_content_counts_repeated_bases_each_time() {
    assert_eq!(base_content(b"GGAT", b"GG"), Ratio { num: 4, den: 4 });
    assert_eq!(base_content(b"NNNN", b"GC"), Ratio { num: 0, den: 4 });
}

#[test]
fn cri_regression_value() {
    let result = cri(b"TACATGT");
    assert_eq!(result.margolin1, Ratio { num: 1, den: 1 });
    assert_eq!(result.margolin2, Ratio { num: 2, den: 2 });
    assert_eq!(as_f64(result.margolin1) - as_f64(result.margolin2), 0.0);
}

#[test]
fn cri_guards_only_the_second_index() {
    // No AC and no GT: the second index is 0; no AT: the first divides by 0.
    let result = cri(b"TTAA");
    assert_eq!(result.margolin1, Ratio { num: 1, den: 0 });
    assert_eq!(result.margolin2, Ratio { num: 0, den: 1 });
    let score = as_f64(result.margolin1) - as_f64(result.margolin2);
    assert!(score.is_infinite());

    let result = cri(b"G");
    assert_eq!(result.margolin1, Ratio { num: 0, den: 0 });
    assert!((as_f64(result.margolin1) - as_f64(result.margolin2)).is_nan());
}

#[test]
fn dinucleotides_overlap() {
    let counts = dinucleotide_counts(b"TACATGTN");
    assert_eq!(counts.count(b"TA"), 1);
    assert_eq!(counts.count(b"AC"), 1);
    assert_eq!(counts.count(b"TN"), 1);
    assert_eq!(counts.size(), 7);
    assert_eq!(dinucleotide_counts(b"A").size(), 0);
}

#[test]
fn trinucleotides_overlap() {
    let counts = trinucleotide_counts(b"TACATGTN");
    assert_eq!(counts.count(b"TAC"), 1);
    assert_eq!(counts.count(b"GTN"), 1);
    assert_eq!(counts.count(b"TAA"), 0);
    assert_eq!(counts.size(), 6);
    assert_eq!(trinucleotide_counts(b"AC").size(), 0);
}

#[test]
fn margolin_indices() {
    let counts = dinucleotide_counts(b"TATACAAC");
    assert_eq!(margolin1(&counts), Ratio { num: 2, den: 1 });
    assert_eq!(margolin2(&counts), Ratio { num: 1, den: 2 });
}

#[test]
fn sliding_windows_tags_coordinates() {
    let rec = SequenceRecord::new("test_id", b"ATGC".to_vec());
    let result = sliding_windows(&rec, 2, 1, |_| 1u8);
    assert_eq!(
        result,
        vec![
            BGBlock::new("test_id", 0, 2, 1),
            BGBlock::new("test_id", 1, 3, 1),
            BGBlock::new("test_id", 2, 4, 1),
        ]
    );
}

#[test]
fn sliding_windows_keeps_nominal_end_of_short_window() {
    let rec = SequenceRecord::new("chr", b"ATGCG".to_vec());
    let result = sliding_windows(&rec, 3, 2, |w: &[u8]| base_content(w, b"GC"));
    assert_eq!(
        result,
        vec![
            BGBlock::new("chr", 0, 3, Ratio { num: 1, den: 3 }),
            BGBlock::new("chr", 2, 5, Ratio { num: 3, den: 3 }),
        ]
    );
}

#[test]
fn sliding_windows_over_empty_sequence() {
    let rec = SequenceRecord::new("empty", Vec::new());
    let result = sliding_windows(&rec, 3, 1, |w: &[u8]| w.len());
    assert!(result.is_empty());
}
