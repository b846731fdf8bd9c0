use iter_closures::transforms::{doubled_evens, evens, increment_each, incremented, total};

#[test]
fn map_adds_one() {
    assert_eq!(incremented(&vec![0, 1, 2]), vec![1, 2, 3]);
}

#[test]
fn map_on_empty_is_empty() {
    assert_eq!(incremented(&vec![]), Vec::<i32>::new());
}

#[test]
fn filter_keeps_evens() {
    assert_eq!(evens(&vec![1, 2, 3, 4, 5, 6, 7, 8, 9, 10]), vec![2, 4, 6, 8, 10]);
}

#[test]
fn filter_handles_negatives_and_no_match() {
    assert_eq!(evens(&vec![-3, -2, 0, 7]), vec![-2, 0]);
    assert_eq!(evens(&vec![1, 3, 5]), Vec::<i32>::new());
}

#[test]
fn filter_then_map_doubles_evens() {
    assert_eq!(doubled_evens(&vec![1, 2, 3, 4, 5, 6]), vec![4, 8, 12]);
    assert_eq!(doubled_evens(&vec![-4, 1]), vec![-8]);
}

#[test]
fn sum_consumes() {
    assert_eq!(total(&vec![1, 2, 3, 4]), 10);
}

#[test]
fn fold_accumulates() {
    assert_eq!(total(&vec![1, 2, 3, 4, 5]), 15);
    assert_eq!(total(&vec![]), 0);
    assert_eq!(total(&vec![i32::MAX, -1, 1]), i32::MAX);
}

#[test]
fn iter_mut_increments_in_place() {
    let mut v = vec![1, 2, 3, 4];
    increment_each(&mut v);
    assert_eq!(v, vec![2, 3, 4, 5]);
}
