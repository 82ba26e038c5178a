use debug_rpc::{deserialize_u32_0x, DecodeError, RequestBlockId, RequestBlockTag};

fn unrecognized(raw: &str) -> Result<RequestBlockId, DecodeError> {
    Err(DecodeError::UnrecognizedBlockReference(raw.to_string()))
}

#[test]
fn numbers_resolve_from_hex_and_decimal() {
    for n in [0u32, 1, 9, 10, 15, 16, 255, 12345, 65536, u32::MAX] {
        let hex = format!("0x{:x}", n);
        let dec = format!("{}", n);
        assert_eq!(RequestBlockId::resolve(&hex), Ok(RequestBlockId::Number(n)));
        assert_eq!(RequestBlockId::resolve(&dec), Ok(RequestBlockId::Number(n)));
    }
}

#[test]
fn number_round_trip_through_hex_wire_form() {
    let wire = format!("0x{:x}", 12345u32);
    assert_eq!(wire, "0x3039");
    assert_eq!(RequestBlockId::resolve(&wire), Ok(RequestBlockId::Number(12345)));
}

#[test]
fn upper_case_hex_digits_accepted_and_signs_rejected() {
    assert_eq!(RequestBlockId::resolve("0xFF"), Ok(RequestBlockId::Number(255)));
    assert_eq!(RequestBlockId::resolve("0xffffffff"), Ok(RequestBlockId::Number(u32::MAX)));
    assert_eq!(RequestBlockId::resolve("+12"), unrecognized("+12"));
    assert_eq!(RequestBlockId::resolve("0x+1f"), unrecognized("0x+1f"));
}

#[test]
fn numeric_text_errors_carry_text_and_radix() {
    assert_eq!(deserialize_u32_0x("42"), Ok(42));
    assert_eq!(deserialize_u32_0x("0x2a"), Ok(42));
    assert_eq!(
        deserialize_u32_0x("abc"),
        Err(DecodeError::InvalidNumber("abc".to_string(), 10))
    );
    assert_eq!(
        deserialize_u32_0x("0xzz"),
        Err(DecodeError::InvalidNumber("0xzz".to_string(), 16))
    );
    assert_eq!(
        deserialize_u32_0x("4294967296"),
        Err(DecodeError::InvalidNumber("4294967296".to_string(), 10))
    );
    assert_eq!(
        deserialize_u32_0x("0x100000000"),
        Err(DecodeError::InvalidNumber("0x100000000".to_string(), 16))
    );
    assert_eq!(deserialize_u32_0x(""), Err(DecodeError::InvalidNumber(String::new(), 10)));
    assert_eq!(deserialize_u32_0x("0x"), Err(DecodeError::InvalidNumber("0x".to_string(), 16)));
    assert_eq!(deserialize_u32_0x("+"), Err(DecodeError::InvalidNumber("+".to_string(), 10)));
    assert_eq!(deserialize_u32_0x("+5"), Err(DecodeError::InvalidNumber("+5".to_string(), 10)));
    assert_eq!(
        deserialize_u32_0x("0x+5"),
        Err(DecodeError::InvalidNumber("0x+5".to_string(), 16))
    );
    assert_eq!(deserialize_u32_0x("0X10"), Err(DecodeError::InvalidNumber("0X10".to_string(), 10)));
    assert_eq!(deserialize_u32_0x("1_000"), Err(DecodeError::InvalidNumber("1_000".to_string(), 10)));
    assert_eq!(deserialize_u32_0x("-1"), Err(DecodeError::InvalidNumber("-1".to_string(), 10)));
    assert_eq!(deserialize_u32_0x(" 1"), Err(DecodeError::InvalidNumber(" 1".to_string(), 10)));
}

#[test]
fn out_of_range_numbers_are_not_guessed() {
    assert_eq!(RequestBlockId::resolve("4294967296"), unrecognized("4294967296"));
    assert_eq!(RequestBlockId::resolve("0x"), unrecognized("0x"));
    assert_eq!(RequestBlockId::resolve(""), unrecognized(""));
}

fn counting_bytes() -> [u8; 32] {
    let mut b = [0u8; 32];
    for (i, x) in b.iter_mut().enumerate() {
        *x = (i as u8) * 7 + 1;
    }
    b
}

fn hex_of(b: &[u8]) -> String {
    b.iter().map(|x| format!("{:02x}", x)).collect()
}

#[test]
fn hash_text_resolves_to_its_bytes() {
    let bytes = counting_bytes();
    let plain = hex_of(&bytes);
    assert_eq!(plain.len(), 64);
    assert_eq!(RequestBlockId::resolve(&plain), Ok(RequestBlockId::Hash(bytes)));
    let prefixed = format!("0x{}", plain);
    assert_eq!(RequestBlockId::resolve(&prefixed), Ok(RequestBlockId::Hash(bytes)));
    let upper = format!("0x{}", plain.to_uppercase());
    assert_eq!(RequestBlockId::resolve(&upper), Ok(RequestBlockId::Hash(bytes)));
}

#[test]
fn hash_text_with_high_byte_only() {
    let mut bytes = [0u8; 32];
    bytes[0] = 0xab;
    let text = format!("0x{}", hex_of(&bytes));
    assert_eq!(RequestBlockId::resolve(&text), Ok(RequestBlockId::Hash(bytes)));
}

#[test]
fn small_numbers_win_over_hashes() {
    let hex = format!("0x{}1", "0".repeat(63));
    assert_eq!(RequestBlockId::resolve(&hex), Ok(RequestBlockId::Number(1)));
    let dec = format!("{}7", "0".repeat(63));
    assert_eq!(RequestBlockId::resolve(&dec), Ok(RequestBlockId::Number(7)));
}

#[test]
fn malformed_hash_text_is_rejected() {
    let short = format!("0x{}", "ab".repeat(31));
    assert_eq!(RequestBlockId::resolve(&short), unrecognized(&short));
    let long = format!("0x{}a", "ab".repeat(32));
    assert_eq!(RequestBlockId::resolve(&long), unrecognized(&long));
    let spaced = format!("0x{} ab", "ab".repeat(31));
    assert_eq!(RequestBlockId::resolve(&spaced), unrecognized(&spaced));
    let bad_digit = format!("0x{}ag", "ab".repeat(31));
    assert_eq!(RequestBlockId::resolve(&bad_digit), unrecognized(&bad_digit));
}

#[test]
fn tags_resolve_in_any_case() {
    let cases = [
        ("earliest", RequestBlockTag::Earliest),
        ("EARLIEST", RequestBlockTag::Earliest),
        ("latest", RequestBlockTag::Latest),
        ("Latest", RequestBlockTag::Latest),
        ("pending", RequestBlockTag::Pending),
        ("PeNdInG", RequestBlockTag::Pending),
    ];
    for (text, tag) in cases {
        assert_eq!(RequestBlockId::resolve(text), Ok(RequestBlockId::Tag(tag)));
    }
}

#[test]
fn unknown_reference_is_rejected() {
    assert_eq!(RequestBlockId::resolve("not-a-thing"), unrecognized("not-a-thing"));
    assert_eq!(RequestBlockId::resolve("latest "), unrecognized("latest "));
    assert_eq!(RequestBlockId::resolve("safe"), unrecognized("safe"));
}
