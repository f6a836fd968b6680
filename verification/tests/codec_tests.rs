use jupiter_swap_api_client::decimal::Decimal;
use jupiter_swap_api_client::digits::parse_u64_digits;
use jupiter_swap_api_client::digits::u64_to_dec;
use jupiter_swap_api_client::pubkey::Pubkey;
use jupiter_swap_api_client::quote::InstructionVersion;
use jupiter_swap_api_client::quote::SwapMode;

#[test]
fn u64_encodes_zero_and_max() {
    assert_eq!(u64_to_dec(0), "0");
    assert_eq!(u64_to_dec(1_000_000), "1000000");
    assert_eq!(u64_to_dec(u64::MAX), "18446744073709551615");
}

#[test]
fn u64_round_trip_at_boundaries() {
    for v in [0u64, 1, 9, 10, 999, 1_000_000, u64::MAX - 1, u64::MAX] {
        assert_eq!(parse_u64_digits(&u64_to_dec(v)), Some(v));
    }
}

#[test]
fn u64_rejects_non_digits() {
    assert_eq!(parse_u64_digits("12a4"), None);
    assert_eq!(parse_u64_digits(""), None);
    assert_eq!(parse_u64_digits("-5"), None);
    assert_eq!(parse_u64_digits("1 2"), None);
    assert_eq!(parse_u64_digits("18446744073709551616"), None);
}

#[test]
fn u64_accepts_leading_zeros() {
    assert_eq!(parse_u64_digits("0012"), Some(12));
}

#[test]
fn decimal_renders_exactly() {
    let d = Decimal::new(false, 15, 2).unwrap();
    assert_eq!(d.to_wire(), "0.15");
    let d = Decimal::new(false, 1500, 2).unwrap();
    assert_eq!(d.to_wire(), "15.00");
    let d = Decimal::new(true, 5, 1).unwrap();
    assert_eq!(d.to_wire(), "-0.5");
    let d = Decimal::new(false, 42, 0).unwrap();
    assert_eq!(d.to_wire(), "42");
    assert_eq!(Decimal::zero().to_wire(), "0");
}

#[test]
fn decimal_parses_exactly() {
    let d = Decimal::from_wire("0.15").unwrap();
    assert_eq!(d, Decimal::new(false, 15, 2).unwrap());
    let d = Decimal::from_wire("-3.5").unwrap();
    assert_eq!(d, Decimal::new(true, 35, 1).unwrap());
    let d = Decimal::from_wire("7").unwrap();
    assert_eq!(d, Decimal::new(false, 7, 0).unwrap());
}

#[test]
fn decimal_round_trip() {
    for d in [
        Decimal::zero(),
        Decimal::new(false, 15, 2).unwrap(),
        Decimal::new(true, 123456789, 6).unwrap(),
        Decimal::new(false, 5, 28).unwrap(),
        Decimal::new(false, 79228162514264337593543950335, 0).unwrap(),
    ] {
        assert_eq!(Decimal::from_wire(&d.to_wire()), Some(d));
    }
}

#[test]
fn decimal_rejects_malformed() {
    assert_eq!(Decimal::from_wire(""), None);
    assert_eq!(Decimal::from_wire("1.2.3"), None);
    assert_eq!(Decimal::from_wire("12a4"), None);
    assert_eq!(Decimal::from_wire("."), None);
    assert_eq!(Decimal::from_wire("1."), None);
    assert_eq!(Decimal::from_wire(".5"), None);
    assert_eq!(Decimal::from_wire("-"), None);
}

#[test]
fn pubkey_round_trips_through_base58() {
    let text = "So11111111111111111111111111111111111111112";
    let p = Pubkey::from_base58(text).unwrap();
    assert_eq!(p.to_base58(), text);
    assert_eq!(p.bytes.len(), 32);
    let q = Pubkey::from_bytes(p.bytes.clone()).unwrap();
    assert_eq!(q.to_base58(), text);
    assert_eq!(p, q);
}

#[test]
fn pubkey_zero_bytes_is_all_ones_text() {
    let p = Pubkey::from_bytes(vec![0u8; 32]).unwrap();
    assert_eq!(p.to_base58(), "11111111111111111111111111111111");
}

#[test]
fn pubkey_rejects_bad_text() {
    assert!(Pubkey::from_base58("not-base58!").is_none());
    assert!(Pubkey::from_base58("").is_none());
    assert!(Pubkey::from_base58("abc").is_none());
    assert!(Pubkey::from_bytes(vec![0u8; 31]).is_none());
}

#[test]
fn swap_mode_parses_exact_texts() {
    assert_eq!(SwapMode::from_str("ExactIn").unwrap(), SwapMode::ExactIn);
    assert_eq!(SwapMode::from_str("ExactOut").unwrap(), SwapMode::ExactOut);
    assert!(SwapMode::from_str("exactin").is_err());
    assert!(SwapMode::from_str("").is_err());
    assert!(SwapMode::from_str("ExactInX").is_err());
    assert_eq!(SwapMode::ExactIn.as_str(), "ExactIn");
    assert_eq!(SwapMode::ExactOut.as_str(), "ExactOut");
    assert_eq!(SwapMode::default(), SwapMode::ExactIn);
}

#[test]
fn instruction_version_parses_exact_texts() {
    assert_eq!(InstructionVersion::from_str("V1").unwrap(), InstructionVersion::V1);
    assert_eq!(InstructionVersion::from_str("V2").unwrap(), InstructionVersion::V2);
    assert!(InstructionVersion::from_str("V3").is_err());
    assert!(InstructionVersion::from_str("v1").is_err());
    assert_eq!(InstructionVersion::V1.as_str(), "V1");
    assert_eq!(InstructionVersion::default(), InstructionVersion::V1);
}
