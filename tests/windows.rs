use riprap::windows::Windows;

#[test]
fn can_use_next() {
    let elems = &[1, 2, 3, 4];
    let mut win = Windows::new(elems, 2, 1);
    assert_eq!(win.next().unwrap(), &[1, 2]);
    assert_eq!(win.next().unwrap(), &[2, 3]);
    assert_eq!(win.next().unwrap(), &[3, 4]);
    assert!(win.next().is_none());
}

#[test]
fn handles_incomplete_windows() {
    let elems = &[1, 2, 3, 4];
    let mut win = Windows::new(elems, 3, 2);
    assert_eq!(win.next().unwrap(), &[1, 2, 3]);
    assert_eq!(win.next().unwrap(), &[3, 4]);
    assert!(win.next().is_none());
}

#[test]
fn handles_long_step() {
    let elems = &[1, 2, 3, 4];
    let mut win = Windows::new(elems, 3, 6);
    assert_eq!(win.next().unwrap(), &[1, 2, 3]);
    assert!(win.next().is_none());
}

#[test]
fn empty_sequence_has_no_windows() {
    let elems: &[u8] = &[];
    let mut win = Windows::new(elems, 3, 1);
    assert!(win.next().is_none());
    assert!(win.next().is_none());
}

#[test]
fn window_larger_than_sequence_covers_it_once() {
    let elems = &[7, 8, 9];
    let mut win = Windows::new(elems, 10, 2);
    assert_eq!(win.next().unwrap(), &[7, 8, 9]);
    assert!(win.next().is_none());
}

#[test]
fn next_window_gives_offsets() {
    let elems = b"ACGTACG";
    let mut win = Windows::new(elems, 3, 2);
    let mut got = Vec::new();
    while let Some(w) = win.next_window() {
        got.push((w.start, w.end, w.value.to_vec()));
    }
    assert_eq!(
        got,
        vec![
            (0, 3, b"ACG".to_vec()),
            (2, 5, b"GTA".to_vec()),
            (4, 7, b"ACG".to_vec()),
        ]
    );
}

#[test]
fn windows_cover_the_tail() {
    for len in 0..12usize {
        let elems: Vec<usize> = (0..len).collect();
        for size in 1..6usize {
            for step in 1..=size {
                let mut win = Windows::new(&elems, size, step);
                let mut ranges = Vec::new();
                while let Some(w) = win.next_window() {
                    ranges.push((w.start, w.end));
                }
                if len == 0 {
                    assert!(ranges.is_empty());
                    continue;
                }
                assert_eq!(ranges[0].0, 0);
                assert_eq!(ranges.last().unwrap().1, len);
                for (i, r) in ranges.iter().enumerate() {
                    assert_eq!(r.0, i * step);
                    assert!(r.1 - r.0 <= size);
                    if i + 1 < ranges.len() {
                        assert_eq!(r.1 - r.0, size);
                        assert!(ranges[i + 1].0 <= r.1);
                    }
                }
            }
        }
    }
}
