use treekem_hkdf::instructions::append_padding;

#[test]
fn padding_fills_up_to_max_size_with_zeros() {
    let mut buf = vec![1u8, 2, 3];
    append_padding(&mut buf, 8);
    assert_eq!(buf, vec![1, 2, 3, 0, 0, 0, 0, 0]);
}

#[test]
fn padding_of_full_buffer_changes_nothing() {
    let mut buf = vec![5u8; 4];
    append_padding(&mut buf, 4);
    assert_eq!(buf, vec![5u8; 4]);
}

#[test]
fn padding_makes_all_sizes_equal() {
    let mut a = vec![];
    let mut b = vec![1u8; 17];
    append_padding(&mut a, 64);
    append_padding(&mut b, 64);
    assert_eq!(a.len(), b.len());
    assert_eq!(a, vec![0u8; 64]);
}
