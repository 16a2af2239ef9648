use primer::random::{announce, random_in_range};

#[test]
fn try_rng() {
    random_in_range();
    assert!(true);
}

#[test]
fn random_numbers_stay_in_range_and_vary() {
    let first = random_in_range();
    let mut varied = false;
    for _ in 0..500 {
        let n = random_in_range();
        assert!(1 <= n && n <= 1000);
        if n != first {
            varied = true;
        }
    }
    assert!(varied);
}

#[test]
fn announce_writes_the_number_in_decimal() {
    assert_eq!(announce(42), "Your number was 42");
    assert_eq!(announce(1), "Your number was 1");
    assert_eq!(announce(1000), "Your number was 1000");
    assert_eq!(announce(907), "Your number was 907");
    assert_eq!(announce(0), "Your number was 0");
}

#[test]
fn announce_writes_negative_numbers_with_a_sign() {
    assert_eq!(announce(-7), "Your number was -7");
    assert_eq!(announce(-120), "Your number was -120");
}

#[test]
fn announce_covers_the_whole_range() {
    assert_eq!(announce(i32::MAX), "Your number was 2147483647");
    assert_eq!(announce(i32::MIN), "Your number was -2147483648");
}
