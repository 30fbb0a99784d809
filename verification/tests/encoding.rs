use auth_core::encoding::{decode_token, encode_token};
use auth_core::error::ApiError;

#[test]
fn encodes_bytes_as_lower_case_hex() {
    assert_eq!(encode_token(&[1, 2, 3, 15, 16]), "0102030f10");
    assert_eq!(encode_token(&[0xf9, 0xb4, 0xca]), "f9b4ca");
    assert_eq!(encode_token(&[]), "");
}

#[test]
fn encoded_text_is_twice_as_long() {
    let id = [0xabu8; 32];
    let text = encode_token(&id);
    assert_eq!(text.len(), 64);
    assert_ne!(text.as_bytes(), &id[..]);
}

#[test]
fn decodes_both_cases() {
    assert_eq!(decode_token("f9b4ca"), Ok(vec![0xf9, 0xb4, 0xca]));
    assert_eq!(decode_token("F9B4CA"), Ok(vec![0xf9, 0xb4, 0xca]));
    assert_eq!(decode_token("f9B4Ca"), Ok(vec![0xf9, 0xb4, 0xca]));
    assert_eq!(decode_token(""), Ok(vec![]));
}

#[test]
fn decoding_undoes_encoding() {
    let mut bytes: Vec<u8> = Vec::new();
    for b in 0..=255u8 {
        bytes.push(b);
    }
    assert_eq!(decode_token(&encode_token(&bytes)), Ok(bytes));
}

#[test]
fn odd_length_is_an_invalid_token() {
    assert_eq!(decode_token("123"), Err(ApiError::InvalidToken));
}

#[test]
fn foreign_characters_are_an_invalid_token() {
    assert_eq!(decode_token("zz"), Err(ApiError::InvalidToken));
    assert_eq!(decode_token("12 4"), Err(ApiError::InvalidToken));
    assert_eq!(decode_token("0g"), Err(ApiError::InvalidToken));
    assert_eq!(decode_token("\u{e9}\u{e9}"), Err(ApiError::InvalidToken));
    assert_eq!(decode_token("\u{ff10}\u{ff11}"), Err(ApiError::InvalidToken));
}
