use rvimage::util::{natural_cmp, natural_order_sign};
use std::cmp::Ordering;

#[test]
fn test_natural_sort() {
    assert_eq!(natural_cmp("s10", "s2"), Ordering::Greater);
    assert_eq!(natural_cmp("10s", "s2"), Ordering::Less);
    assert_eq!(natural_cmp("10", "2"), Ordering::Greater);
    assert_eq!(natural_cmp("10.0", "10.0"), Ordering::Equal);
    assert_eq!(natural_cmp("20.0", "10.0"), Ordering::Greater);
    assert_eq!(
        natural_cmp("a lot of text 20.0 .", "a lot of text 100.0"),
        Ordering::Less
    );
    assert_eq!(
        natural_cmp("a lot of 7text 20.0 .", "a lot of 3text 100.0"),
        Ordering::Greater
    );
}

#[test]
fn numbers_end_where_their_digits_end() {
    // the numbers are 1 and 01, which are the same; then `a` meets `1`
    assert_eq!(natural_cmp("1a", "01b"), Ordering::Greater);
    assert_eq!(natural_cmp("img7.png", "img7.jpg"), Ordering::Greater);
    assert_eq!(natural_cmp("img7_2", "img7_10"), Ordering::Less);
    assert_eq!(natural_cmp("7é", "7é"), Ordering::Equal);
    assert_eq!(natural_cmp("7é1", "7é10"), Ordering::Less);
    assert_eq!(natural_order_sign("5٣", "5"), 1);
}

#[test]
fn natural_order_of_long_numbers_and_zeros() {
    assert_eq!(
        natural_cmp("99999999999999999999999999", "100000000000000000000000000"),
        Ordering::Less
    );
    assert_eq!(
        natural_cmp("100000000000000000000000001", "100000000000000000000000000"),
        Ordering::Greater
    );
    assert_eq!(natural_cmp("007", "7"), Ordering::Greater);
    assert_eq!(natural_cmp("000", "0"), Ordering::Greater);
    assert_eq!(natural_cmp("0", "0"), Ordering::Equal);
    assert_eq!(natural_cmp("", ""), Ordering::Equal);
    assert_eq!(natural_cmp("", "a"), Ordering::Less);
    assert_eq!(natural_cmp("b", "a"), Ordering::Greater);
    assert_eq!(natural_cmp("a1", "a01"), Ordering::Less);
    let mut names = vec!["f10.png", "f9.png", "f100.png", "f1.png", "e200.png"];
    names.sort_by(|a, b| natural_cmp(a, b));
    assert_eq!(
        names,
        vec!["e200.png", "f1.png", "f9.png", "f10.png", "f100.png"]
    );
}
