use rune::aot::{linker_candidates, LinkSearch};
use rune::runtime::{
    grown_capacity, new_counts, release, release_vec, retain, retain_vec, slice_bounds, str_concat, str_contains,
    str_ends_with, str_eq, str_slice, str_starts_with, vec_get, weak_release_vec, weak_retain_vec, weak_upgrade_vec,
};

#[test]
fn texts_are_compared_by_their_bytes() {
    assert!(str_eq(b"abc", b"abc"));
    assert!(!str_eq(b"abc", b"abd"));
    assert!(!str_eq(b"ab", b"abc"));
    assert!(str_eq(b"", b""));
    assert!(str_starts_with(b"abc", b"ab") && !str_starts_with(b"abc", b"b") && str_starts_with(b"abc", b""));
    assert!(str_ends_with(b"abc", b"bc") && !str_ends_with(b"abc", b"ab") && str_ends_with(b"abc", b""));
    assert!(str_contains(b"abcd", b"bc") && !str_contains(b"abcd", b"bd") && str_contains(b"", b""));
}

#[test]
fn texts_are_joined_and_cut() {
    assert_eq!(str_concat(b"ab", b"cd"), b"abcd".to_vec());
    assert_eq!(str_slice(b"abcdef", 1, 3), b"bc".to_vec());
    assert_eq!(str_slice(b"abcdef", -5, 100), b"abcdef".to_vec());
    assert_eq!(str_slice(b"abcdef", 4, 2), b"".to_vec());
    assert_eq!(slice_bounds(6, 4, 2), (4, 4));
}

#[test]
fn vectors_grow_by_doubling() {
    assert_eq!(grown_capacity(0), 4);
    assert_eq!(grown_capacity(4), 8);
    assert_eq!(vec_get(&[5, 6], 1), 6);
    assert_eq!(vec_get(&[5, 6], 2), 0);
    assert_eq!(vec_get(&[5, 6], -1), 0);
}

#[test]
fn the_last_release_reclaims() {
    let rc = retain(1);
    assert_eq!(rc, 2);
    assert_eq!(release(rc), (1, false));
    assert_eq!(release(1), (0, true));
    assert_eq!(retain(-1), -1);
    assert_eq!(release(-1), (-1, false));
}

#[test]
fn a_descriptor_outlives_weak_references() {
    let c = weak_retain_vec(new_counts());
    let (c, r) = release_vec(c);
    assert!(r.elements && !r.descriptor);
    assert!(weak_upgrade_vec(c).is_none());
    let (_, r) = weak_release_vec(c);
    assert!(!r.elements && r.descriptor);
}

#[test]
fn a_weak_reference_is_upgraded_while_the_value_lives() {
    let c = retain_vec(new_counts());
    let (c, r) = release_vec(c);
    assert!(!r.elements && !r.descriptor);
    assert_eq!(weak_upgrade_vec(c).map(|c| c.strong), Some(2));
}

#[test]
fn linkers_are_tried_in_order() {
    assert_eq!(linker_candidates(None), vec!["clang", "gcc", "cc"]);
    let custom = linker_candidates(Some("ld".to_string()));
    assert_eq!(custom, vec!["ld", "clang", "gcc", "cc"]);
    let mut search = LinkSearch::new(custom);
    assert_eq!(search.next().map(|s| s.as_str()), Some("ld"));
    search.failed("ld: not found".to_string());
    assert_eq!(search.next().map(|s| s.as_str()), Some("clang"));
    for c in ["clang", "gcc", "cc"] {
        assert_eq!(search.next().map(|s| s.as_str()), Some(c));
        search.failed(format!("{}: not found", c));
    }
    assert!(search.next().is_none());
    let e = search.give_up();
    assert_eq!(e.tried, vec!["ld", "clang", "gcc", "cc"]);
    assert_eq!(e.errors.len(), 4);
    assert_eq!(e.errors[0], "ld: not found");
}
