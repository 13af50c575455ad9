use egui_flex::utils::shift_vec;

#[test]
fn shift_same_index_is_identity() {
    let mut v = vec![1, 2, 3, 4];
    shift_vec(1, 1, &mut v);
    assert_eq!(v, [1, 2, 3, 4]);
}

#[test]
fn shift_forward_rotates_left() {
    let mut v = vec![1, 2, 3, 4];
    shift_vec(0, 2, &mut v);
    assert_eq!(v, [2, 1, 3, 4]);
}

#[test]
fn shift_sequence_from_docs() {
    let mut v = vec![1, 2, 3, 4];
    shift_vec(1, 1, &mut v);
    assert_eq!(v, [1, 2, 3, 4]);
    shift_vec(0, 2, &mut v);
    assert_eq!(v, [2, 1, 3, 4]);
    shift_vec(2, 0, &mut v);
    assert_eq!(v, [3, 2, 1, 4]);
}

#[test]
fn shift_to_end() {
    let mut v = vec!['a', 'b', 'c'];
    shift_vec(0, 3, &mut v);
    assert_eq!(v, ['b', 'c', 'a']);
}

#[test]
fn shift_last_to_front() {
    let mut v = vec![10, 20, 30];
    shift_vec(2, 0, &mut v);
    assert_eq!(v, [30, 10, 20]);
}

#[test]
fn shift_on_empty_at_end_is_noop() {
    let mut v: Vec<u8> = vec![];
    shift_vec(0, 0, &mut v);
    assert!(v.is_empty());
}
