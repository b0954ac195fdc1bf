use logos_engine::hash::{parse_hash, HashError};

fn expected() -> [u8; 32] {
    let mut bytes = [0_u8; 32];
    for (i, b) in bytes.iter_mut().enumerate() {
        *b = (i as u8) * 8 + 1;
    }
    bytes
}

fn hex_of(bytes: &[u8; 32]) -> String {
    bytes.iter().map(|b| format!("{:02x}", b)).collect()
}

#[test]
fn parse_hash_reads_lowercase_digits() {
    let h = expected();
    assert_eq!(parse_hash(&hex_of(&h)), Ok(h));
}

#[test]
fn parse_hash_reads_uppercase_digits() {
    let h = expected();
    assert_eq!(parse_hash(&hex_of(&h).to_uppercase()), Ok(h));
}

#[test]
fn parse_hash_most_significant_digit_first() {
    let text = format!("a5{}", "0".repeat(62));
    let h = parse_hash(&text).unwrap();
    assert_eq!(h[0], 0xa5);
    assert!(h[1..].iter().all(|b| *b == 0));
}

#[test]
fn parse_hash_accepts_plus_before_single_digit() {
    let text = format!("+f{}", "0".repeat(62));
    let h = parse_hash(&text).unwrap();
    assert_eq!(h[0], 0x0f);
}

#[test]
fn parse_hash_refuses_wrong_length() {
    assert_eq!(parse_hash(&"0".repeat(63)), Err(HashError::WrongLength));
    assert_eq!(parse_hash(&"0".repeat(65)), Err(HashError::WrongLength));
    assert_eq!(parse_hash(""), Err(HashError::WrongLength));
}

#[test]
fn parse_hash_refuses_non_hex_digit() {
    let text = format!("{}zz", "0".repeat(62));
    assert_eq!(parse_hash(&text), Err(HashError::NotHexadecimal));
}

#[test]
fn parse_hash_refuses_minus_sign() {
    let text = format!("-1{}", "0".repeat(62));
    assert_eq!(parse_hash(&text), Err(HashError::NotHexadecimal));
}

#[test]
fn parse_hash_refuses_pair_splitting_a_character() {
    // "é" takes two bytes; starting it at an odd offset splits it over two pairs.
    let text = format!("0é{}", "0".repeat(61));
    assert_eq!(text.len(), 64);
    assert_eq!(parse_hash(&text), Err(HashError::NotUtf8));
}

#[test]
fn parse_hash_refuses_whole_non_ascii_character() {
    let text = format!("é{}", "0".repeat(62));
    assert_eq!(text.len(), 64);
    assert_eq!(parse_hash(&text), Err(HashError::NotHexadecimal));
}

#[test]
fn parse_hash_reports_first_refused_pair() {
    let text = format!("zz0é{}", "0".repeat(59));
    assert_eq!(text.len(), 64);
    assert_eq!(parse_hash(&text), Err(HashError::NotHexadecimal));
}

#[test]
fn parse_hash_ignores_letter_case() {
    let mixed = format!("aBcD{}", "eF".repeat(30));
    let h = parse_hash(&mixed);
    assert!(h.is_ok());
    assert_eq!(parse_hash(&mixed.to_ascii_uppercase()), h);
    assert_eq!(parse_hash(&mixed.to_ascii_lowercase()), h);
    let bad = format!("0G{}", "0".repeat(62));
    assert_eq!(parse_hash(&bad.to_ascii_lowercase()), Err(HashError::NotHexadecimal));
    assert_eq!(parse_hash(&bad.to_ascii_lowercase()), parse_hash(&bad));
}
