use mdbrowser::util::split_subsequence;

#[test]
fn splits_on_inner_delimiter() {
    let data: [u8; 5] = [1, 2, 9, 9, 3];
    let needle: [u8; 2] = [9, 9];
    let mut it = split_subsequence(&data, &needle);
    assert_eq!(it.next(), Some(&[1u8, 2][..]));
    assert_eq!(it.next(), Some(&[3u8][..]));
}

#[test]
fn empty_slice_yields_one_empty_piece() {
    let data: [u8; 0] = [];
    let needle: [u8; 1] = [7];
    let mut it = split_subsequence(&data, &needle);
    assert_eq!(it.next(), Some(&[][..]));
    assert_eq!(it.next(), None);
}

#[test]
fn delimiter_at_end_leaves_empty_tail() {
    let data: [u8; 4] = [5, 6, 9, 9];
    let needle: [u8; 2] = [9, 9];
    let mut it = split_subsequence(&data, &needle);
    assert_eq!(it.next(), Some(&[5u8, 6][..]));
    assert_eq!(it.next(), Some(&[][..]));
    assert_eq!(it.next(), None);
}
