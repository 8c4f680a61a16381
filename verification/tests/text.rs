use memory_store::order::rank;
use memory_store::text::is_white_space;

#[test]
fn white_space_is_what_unicode_says() {
    for u in 0..=0x10ffffu32 {
        if let Some(c) = char::from_u32(u) {
            assert_eq!(is_white_space(c), c.is_whitespace(), "U+{u:04X}");
        }
    }
}

#[test]
fn ranking_falls_and_keeps_equals_in_order() {
    assert_eq!(rank(&vec![]), Vec::<usize>::new());
    assert_eq!(rank(&vec![3]), vec![0]);
    assert_eq!(rank(&vec![1, 3, 2]), vec![1, 2, 0]);
    assert_eq!(rank(&vec![5, 5, 5]), vec![0, 1, 2]);
    assert_eq!(rank(&vec![1, 2, 1, 2, 3]), vec![4, 1, 3, 0, 2]);
    assert_eq!(rank(&vec![i64::MIN, i64::MAX, 0]), vec![1, 2, 0]);
}

#[test]
fn ranking_agrees_with_a_stable_sort() {
    let mut state = 12345u64;
    for _ in 0..50 {
        let mut keys: Vec<i64> = Vec::new();
        for _ in 0..40 {
            state = state.wrapping_mul(6364136223846793005).wrapping_add(1442695040888963407);
            keys.push(((state >> 33) % 7) as i64 - 3);
        }
        let mut expected: Vec<usize> = (0..keys.len()).collect();
        expected.sort_by(|&a, &b| keys[b].cmp(&keys[a]));
        assert_eq!(rank(&keys), expected);
    }
}
