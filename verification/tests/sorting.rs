use handrolled::sorting::bubblesort::BubbleSort;
use handrolled::sorting::insertion::InsertionSort;
use handrolled::sorting::quicksort::quicksort;
use handrolled::sorting::quicksort::QuickSort;
use handrolled::sorting::selection::Selection;
use handrolled::sorting::Sorter;

struct StdSorter;

impl Sorter for StdSorter {
    fn sort<T>(&self, slice: &mut [T])
    where
        T: Ord,
    {
        slice.sort()
    }
}

#[test]
fn std_works() {
    let mut v = vec![4, 2, 3, 1];
    StdSorter.sort(&mut v);
    assert_eq!(v, &[1, 2, 3, 4]);
}

#[test]
fn bubble_works() {
    let mut v = vec![5, 4, 2, 3, 1];
    BubbleSort.sort(&mut v);
    assert_eq!(v, &[1, 2, 3, 4, 5]);
}

#[test]
fn insertion_works() {
    let mut v = vec![5, 4, 2, 3, 1];
    InsertionSort { smart: true }.sort(&mut v);
    assert_eq!(v, &[1, 2, 3, 4, 5]);

    let mut v = vec![5, 4, 2, 3, 1];
    InsertionSort { smart: false }.sort(&mut v);
    assert_eq!(v, &[1, 2, 3, 4, 5]);
}

#[test]
fn quick_works() {
    let mut v = vec![5, 4, 2, 3, 1];
    QuickSort.sort(&mut v);
    assert_eq!(v, &[1, 2, 3, 4, 5]);
}

#[test]
fn selection_works() {
    let mut v = vec![5, 4, 2, 3, 1];
    Selection.sort(&mut v);
    assert_eq!(v, &[1, 2, 3, 4, 5]);
}

fn sorters_agree(input: Vec<i64>) {
    let mut expected = input.clone();
    expected.sort();

    let mut v = input.clone();
    BubbleSort.sort(&mut v);
    assert_eq!(v, expected);

    let mut v = input.clone();
    InsertionSort { smart: true }.sort(&mut v);
    assert_eq!(v, expected);

    let mut v = input.clone();
    InsertionSort { smart: false }.sort(&mut v);
    assert_eq!(v, expected);

    let mut v = input.clone();
    QuickSort.sort(&mut v);
    assert_eq!(v, expected);

    let mut v = input.clone();
    Selection.sort(&mut v);
    assert_eq!(v, expected);

    let mut v = input;
    quicksort(&mut v);
    assert_eq!(v, expected);
}

#[test]
fn empty_and_single_slices_stay() {
    sorters_agree(vec![]);
    sorters_agree(vec![7]);
}

#[test]
fn pairs_are_ordered() {
    sorters_agree(vec![2, 1]);
    sorters_agree(vec![1, 2]);
    sorters_agree(vec![3, 3]);
}

#[test]
fn duplicates_are_kept() {
    sorters_agree(vec![3, 1, 3, 1, 2, 2, 3]);
    sorters_agree(vec![0, 0, 0, 0]);
}

#[test]
fn sorted_and_reversed_inputs() {
    sorters_agree(vec![1, 2, 3, 4, 5, 6, 7, 8]);
    sorters_agree(vec![8, 7, 6, 5, 4, 3, 2, 1]);
}

#[test]
fn negative_and_extreme_values() {
    sorters_agree(vec![i64::MAX, -1, i64::MIN, 0, 17, -17]);
}

#[test]
fn pivot_largest_and_smallest() {
    // the first element is the pivot: once above all others, once below
    sorters_agree(vec![9, 1, 2, 3]);
    sorters_agree(vec![0, 3, 2, 1]);
}

#[test]
fn longer_mixed_input() {
    let mut input = Vec::new();
    let mut x: i64 = 12345;
    for _ in 0..200 {
        x = (x * 1103515245 + 12345) % 2147483648;
        input.push(x % 50);
    }
    sorters_agree(input);
}

#[test]
fn sorts_strings_too() {
    let mut v = vec!["pear", "apple", "fig", "apple"];
    Selection.sort(&mut v);
    assert_eq!(v, vec!["apple", "apple", "fig", "pear"]);
    let mut v = vec!["pear", "apple", "fig", "apple"];
    InsertionSort { smart: true }.sort(&mut v);
    assert_eq!(v, vec!["apple", "apple", "fig", "pear"]);
}
