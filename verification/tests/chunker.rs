use flipper_rpc::chunker::{split, TRANSPORT_UNIT_SIZE};

fn joined(chunks: &[Vec<u8>]) -> Vec<u8> {
    let mut all = Vec::new();
    for c in chunks {
        all.extend_from_slice(c);
    }
    all
}

#[test]
fn transport_unit_is_350_bytes() {
    assert_eq!(TRANSPORT_UNIT_SIZE, 350);
}

#[test]
fn split_then_join_gives_the_bytes_back() {
    for len in [0usize, 1, 2, 349, 350, 351, 699, 700, 701, 1050, 4000] {
        let bytes: Vec<u8> = (0..len).map(|i| (i % 256) as u8).collect();
        for unit in [1usize, 2, 7, 350, 512, 5000] {
            let chunks = split(&bytes, unit);
            assert_eq!(joined(&chunks), bytes);
            for c in &chunks {
                assert!(c.len() <= unit);
            }
            let expected = if len == 0 { 1 } else { (len + unit - 1) / unit };
            assert_eq!(chunks.len(), expected);
            for c in &chunks[..chunks.len() - 1] {
                assert_eq!(c.len(), unit);
            }
        }
    }
}

#[test]
fn bytes_that_fit_give_one_chunk() {
    let bytes = vec![5u8; 350];
    let chunks = split(&bytes, 350);
    assert_eq!(chunks, vec![bytes]);
    let chunks = split(&[1, 2, 3], 350);
    assert_eq!(chunks, vec![vec![1u8, 2, 3]]);
}

#[test]
fn no_bytes_give_one_empty_chunk() {
    let chunks = split(&[], 350);
    assert_eq!(chunks, vec![Vec::<u8>::new()]);
}

#[test]
fn exact_multiple_gives_no_empty_chunk() {
    let bytes = vec![5u8; 700];
    let chunks = split(&bytes, 350);
    assert_eq!(chunks.len(), 2);
    assert_eq!(chunks[0].len(), 350);
    assert_eq!(chunks[1].len(), 350);
}

#[test]
fn chunks_keep_the_order_of_the_bytes() {
    let chunks = split(&[1, 2, 3, 4, 5, 6, 7], 3);
    assert_eq!(chunks, vec![vec![1u8, 2, 3], vec![4, 5, 6], vec![7]]);
}

#[test]
fn unit_of_zero_cuts_nothing() {
    assert_eq!(split(&[1, 2, 3], 0), vec![vec![1u8, 2, 3]]);
    assert_eq!(split(&[], 0), vec![Vec::<u8>::new()]);
}
