use bookshelf::recommend::{rank, TOP};

#[test]
fn rank_orders_by_falling_score() {
    assert_eq!(rank(&vec![1, 5, 3]), vec![1, 2, 0]);
}

#[test]
fn rank_leaves_out_score_zero() {
    assert_eq!(rank(&vec![0, 2, 0, 1]), vec![1, 3]);
    assert_eq!(rank(&vec![0, 0]), Vec::<usize>::new());
    assert_eq!(rank(&Vec::new()), Vec::<usize>::new());
}

#[test]
fn rank_keeps_five() {
    assert_eq!(TOP, 5);
    assert_eq!(rank(&vec![1, 2, 3, 4, 5, 6, 7]), vec![6, 5, 4, 3, 2]);
    assert_eq!(rank(&vec![9, 9, 9, 9, 9, 9]).len(), 5);
}

#[test]
fn rank_takes_the_earlier_of_equal_scores() {
    assert_eq!(rank(&vec![2, 7, 2, 7]), vec![1, 3, 0, 2]);
}
