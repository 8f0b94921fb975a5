use riprap::errors::ErrorKind;
use riprap::sequence::SequenceRecord;
use riprap::snp::{
    classify_site, fasta_to_dict, get_chrom, get_chrom_name, print_bed, rip_snp, transition,
    FastaMismatch, GenomeIndex, MissingRid, RipCall, SnpError, Transition, VariantRecord,
};

fn genome(seq: &[u8]) -> (GenomeIndex, Vec<String>) {
    let g = fasta_to_dict(vec![SequenceRecord::new("chr1", seq.to_vec())]);
    (g, vec!["chr1".to_string()])
}

fn variant(rid: Option<u32>, pos: usize, alleles: &[&[u8]]) -> VariantRecord {
    VariantRecord { rid, pos, alleles: alleles.iter().map(|a| a.to_vec()).collect() }
}

#[test]
fn c_to_t_before_a_is_rip_on_plus_strand() {
    let (g, contigs) = genome(b"GGCATGG");
    let v = variant(Some(0), 2, &[b"C", b"T"]);
    let call = rip_snp(&v, &contigs, &g).unwrap().unwrap();
    assert_eq!(
        call,
        RipCall { chrom: "chr1".to_string(), pos: 2, strand: 1, bases: *b"CA", is_rip: true }
    );
}

#[test]
fn g_to_a_after_t_is_rip_on_minus_strand() {
    let (g, contigs) = genome(b"ATGTAC");
    let v = variant(Some(0), 2, &[b"G", b"A"]);
    let call = rip_snp(&v, &contigs, &g).unwrap().unwrap();
    assert_eq!(call.strand, -1);
    assert!(call.is_rip);
    assert_eq!(call.bases, *b"GT");
}

#[test]
fn c_to_t_before_g_is_reported_but_not_rip() {
    let (g, contigs) = genome(b"ACGT");
    let v = variant(Some(0), 1, &[b"C", b"T"]);
    let call = rip_snp(&v, &contigs, &g).unwrap().unwrap();
    assert_eq!(call.strand, 0);
    assert!(!call.is_rip);
    assert_eq!(call.bases, *b"CG");
}

#[test]
fn t_to_c_and_a_to_g() {
    let (g, contigs) = genome(b"TAGATT");
    let call = rip_snp(&variant(Some(0), 0, &[b"T", b"C"]), &contigs, &g).unwrap().unwrap();
    assert_eq!((call.strand, call.is_rip, call.bases), (1, true, *b"TA"));
    let call = rip_snp(&variant(Some(0), 3, &[b"A", b"G"]), &contigs, &g).unwrap().unwrap();
    assert_eq!((call.strand, call.is_rip, call.bases), (0, false, *b"AG"));
}

#[test]
fn multi_base_reference_is_skipped() {
    let (g, contigs) = genome(b"GGCATGG");
    let v = variant(Some(0), 2, &[b"CA", b"T"]);
    assert_eq!(rip_snp(&v, &contigs, &g), Ok(None));
}

#[test]
fn missing_chromosome_is_an_error() {
    let (g, _) = genome(b"GGCATGG");
    let contigs = vec!["chr1".to_string(), "chr2".to_string()];
    let v = variant(Some(1), 2, &[b"C", b"T"]);
    assert_eq!(
        rip_snp(&v, &contigs, &g),
        Err(SnpError::FastaMismatch(FastaMismatch { chrom: "chr2".to_string() }))
    );
}

#[test]
fn missing_rid_is_an_error() {
    let (g, contigs) = genome(b"GGCATGG");
    let v = variant(None, 2, &[b"C", b"T"]);
    assert_eq!(rip_snp(&v, &contigs, &g), Err(SnpError::MissingRid(MissingRid {})));
    let v = variant(Some(5), 2, &[b"C", b"T"]);
    assert_eq!(rip_snp(&v, &contigs, &g), Err(SnpError::MissingRid(MissingRid {})));
}

#[test]
fn other_substitutions_are_skipped_before_any_lookup() {
    let (g, contigs) = genome(b"GGCATGG");
    assert_eq!(rip_snp(&variant(None, 2, &[b"C", b"G"]), &contigs, &g), Ok(None));
    assert_eq!(rip_snp(&variant(Some(0), 2, &[b"C", b"TT"]), &contigs, &g), Ok(None));
    assert_eq!(rip_snp(&variant(Some(0), 2, &[b"C"]), &contigs, &g), Ok(None));
    assert_eq!(rip_snp(&variant(Some(0), 2, &[]), &contigs, &g), Ok(None));
    assert_eq!(rip_snp(&variant(Some(0), 2, &[b"", b"T"]), &contigs, &g), Ok(None));
}

#[test]
fn neighbour_outside_the_contig_is_skipped() {
    let (g, contigs) = genome(b"ACGC");
    assert_eq!(rip_snp(&variant(Some(0), 3, &[b"C", b"T"]), &contigs, &g), Ok(None));
    assert_eq!(rip_snp(&variant(Some(0), 0, &[b"A", b"G"]), &contigs, &g), Ok(None));
    assert_eq!(rip_snp(&variant(Some(0), 9, &[b"G", b"A"]), &contigs, &g), Ok(None));
}

#[test]
fn any_single_base_alternate_counts() {
    assert_eq!(transition(&vec![b"C".to_vec(), b"GG".to_vec(), b"T".to_vec()]), Some(Transition::CToT));
    assert_eq!(transition(&vec![b"G".to_vec(), b"C".to_vec(), b"A".to_vec()]), Some(Transition::GToA));
    assert_eq!(transition(&vec![b"G".to_vec(), b"C".to_vec()]), None);
}

#[test]
fn classify_site_reads_the_neighbour() {
    let call = classify_site("c", b"CA", 0, Transition::CToT).unwrap();
    assert_eq!(call.bases, *b"CA");
    assert_eq!(call.pos, 0);
    assert!(classify_site("c", b"CA", 1, Transition::CToT).is_none());
}

#[test]
fn later_contig_of_same_name_wins() {
    let g = fasta_to_dict(vec![
        SequenceRecord::new("a", b"AAAA".to_vec()),
        SequenceRecord::new("b", b"CC".to_vec()),
        SequenceRecord::new("a", b"GG".to_vec()),
    ]);
    assert_eq!(get_chrom("a", &g), Ok(&b"GG"[..]));
    assert_eq!(get_chrom("b", &g), Ok(&b"CC"[..]));
    assert_eq!(get_chrom("c", &g), Err(FastaMismatch { chrom: "c".to_string() }));
}

#[test]
fn chrom_names_by_rid() {
    let contigs = vec!["x".to_string(), "y".to_string()];
    assert_eq!(get_chrom_name(Some(1), &contigs), Ok("y"));
    assert_eq!(get_chrom_name(Some(2), &contigs), Err(MissingRid {}));
    assert_eq!(get_chrom_name(None, &contigs), Err(MissingRid {}));
}

#[test]
fn bed_lines() {
    let mut out: Vec<u8> = Vec::new();
    print_bed(&mut out, "chr1", 2, 1, *b"CA", true);
    print_bed(&mut out, "chr1", 1234, -1, *b"GT", true);
    print_bed(&mut out, "chr2", 9, 0, *b"CG", false);
    assert_eq!(
        String::from_utf8(out).unwrap(),
        "chr1\t2\t3\t1\tCA\t1\nchr1\t1234\t1235\t-1\tGT\t1\nchr2\t9\t10\t0\tCG\t0\n"
    );
}

#[test]
fn error_messages() {
    assert_eq!(MissingRid {}.message(), "Missing RID encountered");
    assert_eq!(
        FastaMismatch { chrom: "chrX".to_string() }.message(),
        "VCF reference Chrom chrX not in Fasta"
    );
    assert_eq!(ErrorKind::RequiredInputMissing.pretty_error(), "Required input not provided.");
    assert_eq!(
        ErrorKind::ParseIntError("abc".to_string()).pretty_error(),
        "Couldn't parse as integer: abc"
    );
    assert_eq!(
        ErrorKind::FastaError("bad".to_string()).pretty_error(),
        "Error with Fasta: bad"
    );
    assert_eq!(ErrorKind::PathNotExistError("p".to_string()).ecode(), 1);
    assert_eq!(ErrorKind::FastaReadFileError("p".to_string()).ecode(), 1);
}
