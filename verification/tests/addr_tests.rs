use rns_vpn::addr::parse_dest_hex;

fn bytes(s: &str) -> Vec<u8> {
    s.as_bytes().to_vec()
}

#[test]
fn parses_lowercase_hex() {
    let v = parse_dest_hex(&bytes("000102030405060708090a0b0c0d0e0f"));
    assert_eq!(v, Some(0x000102030405060708090a0b0c0d0e0fu128));
}

#[test]
fn parses_uppercase_and_mixed_hex() {
    let v = parse_dest_hex(&bytes("AABBCCDDEEFF00112233445566778899"));
    assert_eq!(v, Some(0xaabbccddeeff00112233445566778899u128));
    let w = parse_dest_hex(&bytes("aAbBcCdDeEfF00112233445566778899"));
    assert_eq!(w, Some(0xaabbccddeeff00112233445566778899u128));
}

#[test]
fn parses_all_ff() {
    let v = parse_dest_hex(&bytes("ffffffffffffffffffffffffffffffff"));
    assert_eq!(v, Some(u128::MAX));
}

#[test]
fn rejects_short_string() {
    assert_eq!(parse_dest_hex(&bytes("00112233445566778899aabbccddeef")), None);
    assert_eq!(parse_dest_hex(&bytes("")), None);
}

#[test]
fn rejects_bad_digit() {
    assert_eq!(parse_dest_hex(&bytes("g0112233445566778899aabbccddeeff")), None);
    assert_eq!(parse_dest_hex(&bytes("00112233445566778899aabbccddeefz")), None);
}

#[test]
fn ignores_bytes_past_32() {
    let v = parse_dest_hex(&bytes("000102030405060708090a0b0c0d0e0fzzzz"));
    assert_eq!(v, Some(0x000102030405060708090a0b0c0d0e0fu128));
}
