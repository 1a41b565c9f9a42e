use evm_pvp::amount::Amount;

#[test]
fn from_hex_small_value() {
    let a = Amount::from_hex("100").unwrap();
    assert_eq!(a.w0, 0x100);
    assert_eq!(a.w1, 0);
    assert_eq!(a.w2, 0);
    assert_eq!(a.w3, 0);
}

#[test]
fn from_hex_accepts_both_cases_and_leading_zeros() {
    let a = Amount::from_hex("00fF").unwrap();
    let b = Amount::from_hex("Ff").unwrap();
    assert_eq!(a, b);
    assert_eq!(a.w0, 255);
}

#[test]
fn from_hex_rejects_empty_and_bad_digits() {
    assert!(Amount::from_hex("").is_none());
    assert!(Amount::from_hex("12g4").is_none());
    assert!(Amount::from_hex("0x12").is_none());
}

#[test]
fn from_hex_full_width_and_overflow() {
    let max = "f".repeat(64);
    let a = Amount::from_hex(&max).unwrap();
    assert_eq!(a.w0, u64::MAX);
    assert_eq!(a.w3, u64::MAX);
    let over = "1".to_string() + &"0".repeat(64);
    assert!(Amount::from_hex(&over).is_none());
}

#[test]
fn checked_add_carries_across_limbs() {
    let a = Amount::from_hex("ffffffffffffffff").unwrap();
    let b = Amount::from_hex("1").unwrap();
    let s = a.checked_add(b).unwrap();
    assert_eq!(s.w0, 0);
    assert_eq!(s.w1, 1);
}

#[test]
fn checked_add_overflow_is_none() {
    let max = Amount::from_hex(&"f".repeat(64)).unwrap();
    let one = Amount::from_hex("1").unwrap();
    assert!(max.checked_add(one).is_none());
}

#[test]
fn checked_sub_borrows_and_underflows() {
    let a = Amount::from_hex("10000000000000000").unwrap();
    let b = Amount::from_hex("1").unwrap();
    let d = a.checked_sub(b).unwrap();
    assert_eq!(d.w0, u64::MAX);
    assert_eq!(d.w1, 0);
    assert!(b.checked_sub(a).is_none());
}

#[test]
fn lt_compares_across_limbs() {
    let small = Amount::from_hex("ffffffffffffffff").unwrap();
    let big = Amount::from_hex("10000000000000000").unwrap();
    assert!(small.lt(&big));
    assert!(!big.lt(&small));
    assert!(!small.lt(&small));
}

#[test]
fn to_hex_is_full_width() {
    let a = Amount::from_hex("2386F26FC10000").unwrap();
    let h = a.to_hex();
    assert_eq!(h.len(), 64);
    assert_eq!(h, format!("{}2386f26fc10000", "0".repeat(50)));
}

#[test]
fn to_be_bytes_round_trip_via_hex() {
    let a = Amount::from_hex("deadbeef").unwrap();
    let bytes = a.to_be_bytes();
    assert_eq!(bytes.len(), 32);
    assert_eq!(bytes[28], 0xde);
    assert_eq!(bytes[31], 0xef);
}
