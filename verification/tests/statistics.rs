use primer::statistics::{middle, mode, sum, Middle};

fn sample() -> Vec<i32> {
    vec![23, 26, 27, 27, 27, 29, 34, 42, 42, 43, 50, 60, 61]
}

#[test]
fn sum_adds_every_value() {
    assert_eq!(sum(&sample()), 491);
    assert_eq!(sum(&vec![]), 0);
    assert_eq!(sum(&vec![-5, 5, -7]), -7);
}

#[test]
fn sum_does_not_overflow() {
    assert_eq!(sum(&vec![i32::MAX, i32::MAX, 1]), 4294967295);
    assert_eq!(sum(&vec![i32::MIN, i32::MIN]), -4294967296);
}

#[test]
fn middle_of_odd_length_is_one_element() {
    assert_eq!(middle(&sample()), Middle::One(34));
    assert_eq!(middle(&vec![9]), Middle::One(9));
}

#[test]
fn middle_of_even_length_is_two_elements() {
    assert_eq!(middle(&vec![1, 2, 3, 4]), Middle::Two(2, 3));
    assert_eq!(middle(&vec![8, 6]), Middle::Two(8, 6));
}

#[test]
fn middle_of_nothing_is_empty() {
    assert_eq!(middle(&vec![]), Middle::Empty);
}

#[test]
fn mode_is_the_most_frequent_value() {
    assert_eq!(mode(&sample()), Some((27, 3)));
    assert_eq!(mode(&vec![4, 4, 1, 4, 1]), Some((4, 3)));
    assert_eq!(mode(&vec![-2]), Some((-2, 1)));
}

#[test]
fn mode_of_nothing_is_none() {
    assert_eq!(mode(&vec![]), None);
}

#[test]
fn mode_prefers_the_value_that_comes_first() {
    assert_eq!(mode(&vec![5, 7, 7, 5]), Some((5, 2)));
    assert_eq!(mode(&vec![7, 5, 5, 7]), Some((7, 2)));
    assert_eq!(mode(&vec![3, 2, 1]), Some((3, 1)));
    assert_eq!(mode(&vec![1, 2, 2, 3, 3, 3, 2]), Some((2, 3)));
}
