use cartesian_product::producer::{collect_all, SequenceProducer};
use cartesian_product::product::IntoCartesianProduct;
use std::collections::HashSet;

#[test]
fn cartesian_product_test() {
    let mut h1 = HashSet::new();
    h1.insert(1);
    h1.insert(2);
    let mut h2 = HashSet::new();
    h2.insert(3);
    h2.insert(4);
    let v1: Vec<i32> = h1.into_iter().collect();
    let v2: Vec<i32> = h2.into_iter().collect();
    let product = v1.cartesian_product(v2);
    let pairs: HashSet<(i32, i32)> = collect_all(product).into_iter().collect();
    let mut expected = HashSet::new();
    expected.insert((1, 3));
    expected.insert((1, 4));
    expected.insert((2, 3));
    expected.insert((2, 4));
    assert_eq!(pairs, expected);
}

#[test]
fn pair_count_matches_lengths() {
    let v1: Vec<u32> = vec![10, 20, 30];
    let v2: Vec<u32> = vec![1, 2, 3, 4];
    let pairs = collect_all(v1.cartesian_product(v2));
    assert_eq!(pairs.len(), 3 * 4);
}

#[test]
fn row_major_order() {
    let v1: Vec<i32> = vec![1, 2, 3];
    let v2: Vec<i32> = vec![10, 20];
    let pairs = collect_all(v1.cartesian_product(v2));
    assert_eq!(
        pairs,
        vec![(1, 10), (1, 20), (2, 10), (2, 20), (3, 10), (3, 20)]
    );
}

#[test]
fn empty_left_produces_nothing() {
    let v1: Vec<i32> = vec![];
    let v2: Vec<i32> = vec![5];
    let mut p = v1.cartesian_product(v2);
    assert_eq!(p.next(), None);
}

#[test]
fn empty_right_produces_nothing() {
    let v1: Vec<i32> = vec![1];
    let v2: Vec<i32> = vec![];
    let mut p = v1.cartesian_product(v2);
    assert_eq!(p.next(), None);
}

#[test]
fn both_empty_produces_nothing() {
    let v1: Vec<i32> = vec![];
    let v2: Vec<i32> = vec![];
    let mut p = v1.cartesian_product(v2);
    assert_eq!(p.next(), None);
}

#[test]
fn exhaustion_is_terminal() {
    let v1: Vec<u8> = vec![1, 2];
    let v2: Vec<u8> = vec![3];
    let mut p = v1.cartesian_product(v2);
    assert_eq!(p.next(), Some((1, 3)));
    assert_eq!(p.next(), Some((2, 3)));
    for _ in 0..5 {
        assert_eq!(p.next(), None);
    }
}

#[test]
fn duplicates_are_preserved() {
    let v1: Vec<i32> = vec![1, 1];
    let v2: Vec<i32> = vec![2];
    let pairs = collect_all(v1.cartesian_product(v2));
    assert_eq!(pairs, vec![(1, 2), (1, 2)]);
}

#[test]
fn left_element_reused_across_row() {
    let v1: Vec<u8> = vec![7];
    let v2: Vec<u8> = vec![1, 2, 3];
    let pairs = collect_all(v1.cartesian_product(v2));
    assert_eq!(pairs, vec![(7, 1), (7, 2), (7, 3)]);
}

#[test]
fn item_types_may_differ() {
    let v1: Vec<char> = vec!['a', 'b'];
    let v2: Vec<u32> = vec![1, 2];
    let pairs = collect_all(v1.cartesian_product(v2));
    assert_eq!(pairs, vec![('a', 1), ('a', 2), ('b', 1), ('b', 2)]);
}

#[test]
fn product_composes_with_itself() {
    let v1: Vec<u8> = vec![1, 2];
    let v2: Vec<u8> = vec![3];
    let v3: Vec<u8> = vec![4, 5];
    let inner = v1.cartesian_product(v2);
    let pairs = collect_all(inner.cartesian_product(v3));
    assert_eq!(
        pairs,
        vec![
            ((1, 3), 4),
            ((1, 3), 5),
            ((2, 3), 4),
            ((2, 3), 5),
        ]
    );
}

#[test]
fn collect_all_drains_a_vector_in_order() {
    let v: Vec<i32> = vec![4, 5, 6];
    let out = collect_all(v);
    assert_eq!(out, vec![4, 5, 6]);
}

#[test]
fn vector_produces_front_to_back() {
    let mut v: Vec<i32> = vec![8, 9];
    assert_eq!(v.next(), Some(8));
    assert_eq!(v.next(), Some(9));
    assert_eq!(v.next(), None);
    assert_eq!(v.next(), None);
}
