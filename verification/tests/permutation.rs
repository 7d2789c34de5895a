use luminal::permutation::{inverse, is_bijection};

#[test]
fn bijection_names_every_index_once() {
    assert!(is_bijection(&vec![], 0));
    assert!(is_bijection(&vec![0], 1));
    assert!(is_bijection(&vec![2, 0, 1], 3));
    assert!(is_bijection(&vec![0, 2, 1, 3], 4));
}

#[test]
fn bijection_refuses_repeats_gaps_and_wrong_length() {
    assert!(!is_bijection(&vec![0, 0, 1], 3));
    assert!(!is_bijection(&vec![0, 1, 3], 3));
    assert!(!is_bijection(&vec![0, 1], 3));
    assert!(!is_bijection(&vec![0, 1, 2, 3], 3));
    assert!(!is_bijection(&vec![1], 1));
}

#[test]
fn inverse_undoes_the_permutation() {
    assert_eq!(inverse(&vec![2, 0, 1]), Some(vec![1, 2, 0]));
    assert_eq!(inverse(&vec![0, 2, 1, 3]), Some(vec![0, 2, 1, 3]));
    assert_eq!(inverse(&vec![]), Some(vec![]));
    let p = vec![3, 1, 4, 0, 2];
    let q = inverse(&p).unwrap();
    for i in 0..p.len() {
        assert_eq!(q[p[i]], i);
        assert_eq!(p[q[i]], i);
    }
}

#[test]
fn inverse_of_a_non_permutation_is_none() {
    assert_eq!(inverse(&vec![0, 0]), None);
    assert_eq!(inverse(&vec![1, 2]), None);
}
