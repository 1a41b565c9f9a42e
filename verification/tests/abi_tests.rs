use evm_pvp::abi;
use evm_pvp::address::parse_address;
use evm_pvp::amount::Amount;
use evm_pvp::hexstr::encode_bytes;

#[test]
fn test_solidity_hex_encode() {
    let recipient_address = parse_address("0x0E8f8ad443a1270a7D8Af3B30D288DaA0F988e40").unwrap();
    let value = Amount::from_hex("0x2386F26FC10000".trim_start_matches("0x")).unwrap();
    let hex_encoded_call = encode_bytes(&abi::mint_call(&recipient_address, &value));

    assert_eq!(hex_encoded_call, "40c10f190000000000000000000000000e8f8ad443a1270a7d8af3b30d288daa0f988e40000000000000000000000000000000000000000000000000002386f26fc10000".to_string());
}

#[test]
fn burn_call_selector_differs() {
    let recipient_address = parse_address("0x0E8f8ad443a1270a7D8Af3B30D288DaA0F988e40").unwrap();
    let value = Amount::from_hex("2386F26FC10000").unwrap();
    let hex_encoded_call = encode_bytes(&abi::burn_call(&recipient_address, &value));
    assert!(hex_encoded_call.starts_with("9dc29fac"));
    assert_eq!(hex_encoded_call.len(), 136);
}

#[test]
fn parse_address_shape_checks() {
    assert!(parse_address("0x0E8f8ad443a1270a7D8Af3B30D288DaA0F988e40").is_some());
    assert!(parse_address("0E8f8ad443a1270a7D8Af3B30D288DaA0F988e40").is_none());
    assert!(parse_address("0x0E8f").is_none());
    assert!(parse_address("0x0E8f8ad443a1270a7D8Af3B30D288DaA0F988eZZ").is_none());
}
