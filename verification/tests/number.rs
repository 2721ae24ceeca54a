use rlox::number::{digits_of, Number};

fn number(units: i128) -> Number {
    Number::from_units(units)
}

fn digits(s: &str) -> Vec<char> {
    s.chars().collect()
}

const LIMIT: i128 = 100_000_000_000_000_000_000_000_000_000_000;

#[test]
fn numbers_of_units() {
    assert_eq!(number(5), Number { negative: false, magnitude: 5 });
    assert_eq!(number(-5), Number { negative: true, magnitude: 5 });
    assert_eq!(number(0), Number { negative: false, magnitude: 0 });
    assert_eq!(number(LIMIT + 1), Number { negative: false, magnitude: LIMIT as u128 });
    assert_eq!(number(i128::MIN), Number { negative: true, magnitude: LIMIT as u128 });
}

#[test]
fn reads_literals() {
    assert_eq!(Number::from_digits(&digits("12"), &digits("5")), number(12_500_000));
    assert_eq!(Number::from_digits(&digits("0"), &digits("")), number(0));
    assert_eq!(Number::from_digits(&digits("007"), &digits("")), number(7_000_000));
    assert_eq!(Number::from_digits(&digits("1"), &digits("1234567")), number(1_123_456));
    assert_eq!(Number::from_digits(&digits("1"), &digits("000001")), number(1_000_001));
    assert_eq!(
        Number::from_digits(&digits("9223372036854"), &digits("775808")),
        number(9_223_372_036_854_775_808)
    );
}

#[test]
fn literals_beyond_the_range_denote_its_end() {
    assert_eq!(
        Number::from_digits(&digits("99999999999999999999999999"), &digits("999999")),
        number(LIMIT - 1)
    );
    assert_eq!(
        Number::from_digits(&digits("100000000000000000000000000"), &digits("")),
        number(LIMIT)
    );
    assert_eq!(
        Number::from_digits(&digits("100000000000000000000000000"), &digits("5")),
        number(LIMIT)
    );
    assert_eq!(Number::from_digits(&digits(&"7".repeat(200)), &digits("1")), number(LIMIT));
}

#[test]
fn adds_and_subtracts_exactly() {
    assert_eq!(number(100_000).plus(number(200_000)), number(300_000));
    assert_eq!(number(1_500_000).minus(number(2_000_000)), number(-500_000));
    assert_eq!(number(i64::MAX as i128).plus(number(1)), number(i64::MAX as i128 + 1));
    assert_eq!(number(i64::MIN as i128).minus(number(1)), number(i64::MIN as i128 - 1));
    assert_eq!(number(-7).plus(number(7)), number(0));
    assert_eq!(number(7).minus(number(7)), number(0));
}

#[test]
fn sums_beyond_the_range_give_its_end() {
    assert_eq!(number(LIMIT).plus(number(1)), number(LIMIT));
    assert_eq!(number(LIMIT).plus(number(LIMIT)), number(LIMIT));
    assert_eq!(number(-LIMIT).minus(number(1)), number(-LIMIT));
    assert_eq!(number(LIMIT).minus(number(1)), number(LIMIT - 1));
    assert_eq!(number(LIMIT).minus(number(-LIMIT)), number(LIMIT));
}

#[test]
fn negates() {
    assert_eq!(number(2_000_000).negated(), number(-2_000_000));
    assert_eq!(number(0).negated(), Number { negative: true, magnitude: 0 });
    assert_eq!(number(0).negated().negated(), number(0));
    assert_eq!(number(i128::MIN).negated(), number(i128::MAX));
    assert_eq!(number(-LIMIT).negated().negated(), number(-LIMIT));
    let beyond = Number { negative: true, magnitude: u128::MAX };
    assert_eq!(beyond.negated().negated(), beyond);
}

#[test]
fn multiplies_and_truncates_toward_zero() {
    assert_eq!(number(1_500_000).times(number(2_500_000)), number(3_750_000));
    assert_eq!(number(-1_500_000).times(number(2_500_000)), number(-3_750_000));
    assert_eq!(number(-1_500_000).times(number(-2_000_000)), number(3_000_000));
    assert_eq!(number(1).times(number(500_000)), number(0));
    assert_eq!(number(-1).times(number(500_000)), number(0));
    assert_eq!(number(3).times(number(500_000)), number(1));
    assert_eq!(number(-3).times(number(500_000)), number(-1));
    assert_eq!(number(0).times(number(-LIMIT)), number(0));
    assert_eq!(
        number(9_000_000_000_000_000_000).times(number(2_000_000)),
        number(18_000_000_000_000_000_000)
    );
    assert_eq!(
        number(123_456_789_123_456_789).times(number(987_654_321_987_654_321)),
        number(121_932_631_356_500_531_347_203_169_112)
    );
}

#[test]
fn products_beyond_the_range_give_its_end() {
    assert_eq!(number(LIMIT).times(number(1_000_000)), number(LIMIT));
    assert_eq!(number(LIMIT).times(number(1_000_001)), number(LIMIT));
    assert_eq!(number(LIMIT).times(number(-2_000_000)), number(-LIMIT));
    assert_eq!(number(LIMIT).times(number(LIMIT)), number(LIMIT));
    assert_eq!(number(-LIMIT).times(number(-LIMIT)), number(LIMIT));
    assert_eq!(number(LIMIT).times(number(999_999)), number(LIMIT / 1_000_000 * 999_999));
    assert_eq!(
        number(10_000_000_000_000_000_000_000).times(number(10_000_000_000_000_000_000_000)),
        number(LIMIT)
    );
}

#[test]
fn divides_and_truncates_toward_zero() {
    assert_eq!(number(7_000_000).over(number(2_000_000)), Some(number(3_500_000)));
    assert_eq!(number(1_000_000).over(number(3_000_000)), Some(number(333_333)));
    assert_eq!(number(-1_000_000).over(number(3_000_000)), Some(number(-333_333)));
    assert_eq!(number(1_000_000).over(number(-3_000_000)), Some(number(-333_333)));
    assert_eq!(number(-2_000_000).over(number(-3_000_000)), Some(number(666_666)));
    assert_eq!(number(0).over(number(-5)), Some(number(0)));
    assert_eq!(number(-1).over(number(3_000_000)), Some(number(0)));
    assert_eq!(number(LIMIT).over(number(1)), Some(number(LIMIT)));
    assert_eq!(number(LIMIT).over(number(-500_000)), Some(number(-LIMIT)));
    assert_eq!(number(LIMIT).over(number(LIMIT)), Some(number(1_000_000)));
    assert_eq!(number(LIMIT).over(number(2_000_000)), Some(number(LIMIT / 2)));
}

#[test]
fn division_by_zero_has_no_result() {
    assert_eq!(number(1_000_000).over(number(0)), None);
    assert_eq!(number(0).over(number(0)), None);
    assert_eq!(number(1).over(number(0).negated()), None);
}

#[test]
fn compares() {
    assert!(number(1).less(number(2)));
    assert!(!number(2).less(number(2)));
    assert!(number(2).less_equal(number(2)));
    assert!(!number(3).less_equal(number(2)));
    assert!(number(-1).less(number(0)));
    assert!(number(-LIMIT).less(number(LIMIT)));
    assert!(number(5).equals(number(5)));
    assert!(!number(5).equals(number(-5)));
    assert!(number(0).equals(number(0).negated()));
    assert!(!number(0).less(number(0).negated()));
    assert!(number(0).less_equal(number(0).negated()));
}

#[test]
fn counts_wholes() {
    assert_eq!(Number::from_whole(0), number(0));
    assert_eq!(Number::from_whole(1_700_000_000), number(1_700_000_000_000_000));
    assert_eq!(Number::from_whole(u64::MAX), number(u64::MAX as i128 * 1_000_000));
}

#[test]
fn renders_with_two_decimals() {
    assert_eq!(number(0).render(), "0.00");
    assert_eq!(number(1_000_000).render(), "1.00");
    assert_eq!(number(-2_500_000).render(), "-2.50");
    assert_eq!(number(123_456_789_000).render(), "123456.79");
    assert_eq!(number(50_000).render(), "0.05");
    assert_eq!(number(18_000_000_000_000_000_000).render(), "18000000000000.00");
    assert_eq!(number(LIMIT).render(), "100000000000000000000000000.00");
    assert_eq!(number(-LIMIT).render(), "-100000000000000000000000000.00");
    assert_eq!(number(0).negated().render(), "-0.00");
}

#[test]
fn rendering_rounds_ties_to_the_even_neighbour() {
    assert_eq!(number(1_005_000).render(), "1.00");
    assert_eq!(number(1_015_000).render(), "1.02");
    assert_eq!(number(1_005_001).render(), "1.01");
    assert_eq!(number(1_004_999).render(), "1.00");
    assert_eq!(number(125_000).render(), "0.12");
    assert_eq!(number(375_000).render(), "0.38");
    assert_eq!(number(995_000).render(), "1.00");
    assert_eq!(number(-4_000).render(), "-0.00");
    assert_eq!(number(-5_001).render(), "-0.01");
}

#[test]
fn writes_decimal_digits() {
    assert_eq!(digits_of(0), vec!['0']);
    assert_eq!(digits_of(7), vec!['7']);
    assert_eq!(digits_of(1203), vec!['1', '2', '0', '3']);
    assert_eq!(
        digits_of(u128::MAX),
        "340282366920938463463374607431768211455".chars().collect::<Vec<char>>()
    );
}
