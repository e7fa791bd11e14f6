use handrolled::iterators::flatten;
use handrolled::iterators::reversed;

#[test]
fn empty() {
    assert_eq!(flatten(std::iter::empty::<Vec<()>>().collect()).count(), 0);
}

#[test]
fn one() {
    assert_eq!(flatten(std::iter::once(vec!["a"]).collect()).count(), 1);
}

#[test]
fn two() {
    assert_eq!(flatten(std::iter::once(vec!["a", "b"]).collect()).count(), 2);
}

#[test]
fn two_wide() {
    assert_eq!(flatten(vec![vec!["a"], vec!["b"]].into_iter().collect()).count(), 2);
}

#[test]
fn elements_come_in_order() {
    let mut it = flatten(vec![vec![1, 2], vec![], vec![3], vec![], vec![], vec![4, 5, 6]]);
    let mut seen = Vec::new();
    while let Some(x) = it.next() {
        seen.push(x);
    }
    assert_eq!(seen, vec![1, 2, 3, 4, 5, 6]);
    assert_eq!(it.next(), None);
    assert_eq!(it.next(), None);
}

#[test]
fn only_empty_vectors() {
    let mut it = flatten(vec![Vec::<u8>::new(), Vec::new(), Vec::new()]);
    assert_eq!(it.next(), None);
    assert_eq!(flatten(vec![Vec::<u8>::new(), Vec::new()]).count(), 0);
}

#[test]
fn count_after_some_were_taken() {
    let mut it = flatten(vec![vec!['a', 'b', 'c'], vec!['d']]);
    assert_eq!(it.next(), Some('a'));
    assert_eq!(it.next(), Some('b'));
    assert_eq!(it.count(), 2);
}

#[test]
fn elements_need_not_be_copied() {
    let mut it = flatten(vec![vec![String::from("x")], vec![String::from("y")]]);
    assert_eq!(it.next(), Some(String::from("x")));
    assert_eq!(it.next(), Some(String::from("y")));
    assert_eq!(it.next(), None);
}

#[test]
fn reversed_turns_the_order_round() {
    assert_eq!(reversed(vec![1, 2, 3]), vec![3, 2, 1]);
    assert_eq!(reversed(Vec::<i32>::new()), Vec::<i32>::new());
    assert_eq!(reversed(vec![9]), vec![9]);
}
