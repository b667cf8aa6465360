use note_recorder::natural::{Natural, Standing};

fn digits(n: &Natural) -> Vec<u64> {
    let mut d = n.digits.clone();
    while d.last() == Some(&0) {
        d.pop();
    }
    d
}

#[test]
fn a_number_is_held_in_digits_to_the_base_two_to_the_64() {
    assert_eq!(digits(&Natural::from_u128(0)), Vec::<u64>::new());
    assert_eq!(digits(&Natural::from_u128(7)), vec![7]);
    assert_eq!(digits(&Natural::from_u128(1u128 << 64)), vec![0, 1]);
    assert_eq!(digits(&Natural::from_u128(u128::MAX)), vec![u64::MAX, u64::MAX]);
}

#[test]
fn sums_carry() {
    let max = Natural::from_u128(u128::MAX);
    let one = Natural::from_u128(1);
    assert_eq!(digits(&max.plus(&one)), vec![0, 0, 1]);
    assert_eq!(digits(&one.plus(&max)), vec![0, 0, 1]);
    assert_eq!(digits(&max.plus(&max)), vec![u64::MAX - 1, u64::MAX, 1]);
    assert_eq!(digits(&Natural::from_u128(5).plus(&Natural::from_u128(6))), vec![11]);
}

#[test]
fn products_by_one_digit_carry() {
    let max = Natural::from_u128(u128::MAX);
    assert_eq!(digits(&max.times_small(0)), Vec::<u64>::new());
    assert_eq!(digits(&max.times_small(1)), vec![u64::MAX, u64::MAX]);
    assert_eq!(digits(&max.times_small(2)), vec![u64::MAX - 1, u64::MAX, 1]);
    assert_eq!(digits(&max.times_small(u64::MAX)), vec![1, u64::MAX, u64::MAX - 1]);
    assert_eq!(digits(&Natural::from_u128(6).times_small(7)), vec![42]);
}

#[test]
fn products_of_numbers() {
    let max = Natural::from_u128(u128::MAX);
    assert_eq!(digits(&max.times(&max)), vec![1, 0, u64::MAX - 1, u64::MAX]);
    assert_eq!(digits(&max.times(&Natural::from_u128(0))), Vec::<u64>::new());
    assert_eq!(digits(&Natural::from_u128(0).times(&max)), Vec::<u64>::new());
    let ten_to_20 = Natural::from_u128(100_000_000_000_000_000_000);
    assert_eq!(
        digits(&ten_to_20.times(&ten_to_20)),
        digits(&Natural::from_u128(10_000_000_000_000_000_000_000_000_000_000_000_000).times_small(1000))
    );
    assert_eq!(digits(&Natural::from_u128(12).times(&Natural::from_u128(12))), vec![144]);
}

#[test]
fn standing_compares_values_not_digit_counts() {
    let max = Natural::from_u128(u128::MAX);
    let more = max.plus(&Natural::from_u128(1));
    let padded = Natural { digits: vec![5, 0, 0, 0] };
    let five = Natural { digits: vec![5] };
    assert_eq!(max.standing(&more), Standing::Below);
    assert_eq!(more.standing(&max), Standing::Above);
    assert_eq!(more.standing(&more), Standing::Level);
    assert_eq!(padded.standing(&five), Standing::Level);
    assert_eq!(five.standing(&padded), Standing::Level);
    assert_eq!(Natural { digits: Vec::new() }.standing(&Natural::from_u128(0)), Standing::Level);
    assert_eq!(Natural { digits: vec![0, 1] }.standing(&Natural { digits: vec![u64::MAX] }), Standing::Above);
    assert_eq!(Natural { digits: vec![9, 1] }.standing(&Natural { digits: vec![3, 2] }), Standing::Below);
    assert!(five.is_at_most(&padded));
    assert!(five.is_at_most(&max));
    assert!(!more.is_at_most(&max));
}
