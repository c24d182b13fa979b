use brain_b2b::decimal::Decimal;
use brain_b2b::text::{decimal_text, push_decimal, push_money};

#[test]
fn round6_goes_down_to_a_multiple_of_six_hundredths() {
    assert_eq!(Decimal::from_units(12370).round6().units, 12000);
    assert_eq!(Decimal::from_units(12600).round6().units, 12600);
    assert_eq!(Decimal::from_units(12650).round6().units, 12600);
    assert_eq!(Decimal::from_units(0).round6().units, 0);
    assert_eq!(Decimal::from_units(549).round6().units, 0);
    assert_eq!(Decimal::from_units(550).round6().units, 600);
}

#[test]
fn pricing_rounding() {
    let usd = Decimal::from_units(12370);
    let kurs = Decimal::from_whole(40);
    let uah = usd.times(kurs);
    assert_eq!(uah.units, 494800);
    assert_eq!(uah.round6().units, 494400);
    let mut out = Vec::new();
    push_money(&mut out, uah.round6());
    assert_eq!(out, b"49.44");
}

#[test]
fn product_rounds_to_the_nearest_unit_and_saturates() {
    assert_eq!(Decimal::from_units(1).times(Decimal::from_units(4999)).units, 0);
    assert_eq!(Decimal::from_units(1).times(Decimal::from_units(5000)).units, 1);
    assert_eq!(Decimal::from_units(25000).times(Decimal::from_units(15000)).units, 37500);
    assert_eq!(Decimal::from_units(u64::MAX).times(Decimal::from_units(u64::MAX)).units, u64::MAX);
    assert_eq!(Decimal::from_units(u64::MAX).round6().units, 18446744073709551600);
    assert_eq!(Decimal::from_whole(u32::MAX).units, 42949672950000);
    assert_eq!(Decimal::zero().units, 0);
    assert_eq!(Decimal::from_units(3).larger(Decimal::from_units(4)).units, 4);
    assert_eq!(Decimal::from_units(5).larger(Decimal::from_units(4)).units, 5);
}

#[test]
fn amounts_are_written_with_two_decimals() {
    let text = |units: u64| {
        let mut out = Vec::new();
        push_money(&mut out, Decimal::from_units(units));
        String::from_utf8(out).unwrap()
    };
    assert_eq!(text(0), "0.00");
    assert_eq!(text(49), "0.00");
    assert_eq!(text(50), "0.01");
    assert_eq!(text(10500), "1.05");
    assert_eq!(text(12370), "1.24");
    assert_eq!(text(99950), "10.00");
    assert_eq!(text(1234567800), "123456.78");
    assert_eq!(Decimal::from_units(12370).to_hundredths(), 124);
}

#[test]
fn whole_numbers_are_written_in_decimal() {
    let mut out = Vec::new();
    push_decimal(&mut out, 0);
    out.push(b' ');
    push_decimal(&mut out, 1053);
    out.push(b' ');
    push_decimal(&mut out, u128::MAX);
    assert_eq!(out, b"0 1053 340282366920938463463374607431768211455");
    assert_eq!(decimal_text(0), "0");
    assert_eq!(decimal_text(7), "7");
    assert_eq!(decimal_text(4294967295), "4294967295");
}
