use riprap::freqs::Counter;
use riprap::stats::Ratio;

#[test]
fn can_add_entries() {
    let mut counts = Counter::new(10);
    assert_eq!(counts.len(), 0);

    counts.add(b'a');
    assert_eq!(counts.count(&b'a'), 1);
    assert_eq!(counts.count(&b'b'), 0);
    assert_eq!(counts.len(), 1);

    counts.add(b'a');
    counts.add(b'b');
    assert_eq!(counts.count(&b'a'), 2);
    assert_eq!(counts.count(&b'b'), 1);
    assert_eq!(counts.len(), 2);
}

#[test]
fn can_extend_entries() {
    let mut counts = Counter::new(10);
    assert_eq!(counts.len(), 0);

    counts.extend(vec!['a', 'a', 'b']);
    assert_eq!(counts.count(&'a'), 2);
    assert_eq!(counts.count(&'b'), 1);
    assert_eq!(counts.count(&'c'), 0);
    assert_eq!(counts.len(), 2);
}

#[test]
fn can_expand_capacity() {
    let mut counts = Counter::new(5);
    assert_eq!(counts.len(), 0);

    counts.extend("aaabbcdefghijkl".chars().collect());
    assert_eq!(counts.count(&'a'), 3);
    assert_eq!(counts.count(&'b'), 2);
    assert_eq!(counts.count(&'c'), 1);
    assert_eq!(counts.count(&'d'), 1);
    assert_eq!(counts.len(), 12);
}

#[test]
fn can_create_from_iter() {
    let counts = Counter::from_iter(vec!['a', 'b', 'b']);
    assert_eq!(counts.len(), 2);

    assert_eq!(counts.count(&'a'), 1);
    assert_eq!(counts.count(&'b'), 2);
    assert_eq!(counts.count(&'c'), 0);

    let counts: Counter<char> = Counter::from_iter("abb".chars().collect());
    assert_eq!(counts.len(), 2);

    assert_eq!(counts.count(&'a'), 1);
    assert_eq!(counts.count(&'b'), 2);
    assert_eq!(counts.count(&'c'), 0);
}

#[test]
fn size_is_the_number_of_adds() {
    let mut counts: Counter<u8> = Counter::default();
    assert_eq!(counts.size(), 0);
    for b in b"abracadabra".iter() {
        counts.add(*b);
    }
    assert_eq!(counts.size(), 11);
    assert_eq!(counts.len(), 5);
    assert_eq!(counts.count(&b'a'), 5);
    assert_eq!(counts.count(&b'b'), 2);
    assert_eq!(counts.count(&b'r'), 2);
    assert_eq!(counts.count(&b'c'), 1);
    assert_eq!(counts.count(&b'd'), 1);
    assert_eq!(counts.count(&b'z'), 0);
}

#[test]
fn extend_adds_to_existing_counts() {
    let mut counts = Counter::from_iter(vec![b'x', b'y']);
    counts.extend(vec![b'x', b'x', b'z']);
    assert_eq!(counts.count(&b'x'), 3);
    assert_eq!(counts.count(&b'y'), 1);
    assert_eq!(counts.count(&b'z'), 1);
    assert_eq!(counts.size(), 5);
    assert_eq!(counts.len(), 3);
}

#[test]
fn count_sum_counts_repeats() {
    let counts: Counter<u8> = Counter::from_iter(b"atgc".to_vec());
    assert_eq!(counts.count_sum(b"gc"), 2);
    assert_eq!(counts.count_sum(b"gg"), 2);
    assert_eq!(counts.count_sum(b""), 0);
    assert_eq!(counts.count_sum(b"n"), 0);
}

#[test]
fn proportions() {
    let mut counter: Counter<char> = Counter::new(5);
    assert_eq!(counter.prop(&'a'), Ratio { num: 0, den: 1 });
    counter.add('a');
    assert_eq!(counter.prop(&'a'), Ratio { num: 1, den: 1 });

    let counter: Counter<u8> = Counter::from_iter(b"atgc".to_vec());
    assert_eq!(counter.prop_sum(b"gc"), Ratio { num: 2, den: 4 });
    let empty: Counter<u8> = Counter::new(0);
    assert_eq!(empty.prop_sum(b"gc"), Ratio { num: 0, den: 1 });
}

#[test]
fn counts_pairs_of_bytes() {
    let counts: Counter<[u8; 2]> = Counter::from_iter(vec![*b"TA", *b"AT", *b"TA"]);
    assert_eq!(counts.count(b"TA"), 2);
    assert_eq!(counts.count(b"AT"), 1);
    assert_eq!(counts.count(b"AA"), 0);
    assert_eq!(counts.len(), 2);
}
