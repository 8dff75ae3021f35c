use price_tracker::error::{Error, HexError};
use price_tracker::keys::{decode_secret_key, JwtKey};
use rand::Rng;

#[test]
fn generate_jwt_key() {
    let mut bytes = [0; 64];
    Rng::fill(&mut rand::rngs::OsRng, &mut bytes);
    let jwt = hex::encode(bytes);
    println!("{jwt}");
    // The printed key is what `JWT_KEY` holds: it reads back as the same bytes.
    let key = JwtKey::from_hex(&jwt).ok().expect("a generated key reads back");
    assert_eq!(key.key, bytes);
    assert_eq!(key.bytes(), &bytes[..]);
}

#[test]
fn jwt_key_from_hex_both_cases() {
    let text = "0aF1".repeat(32);
    let key = JwtKey::from_hex(&text).ok().unwrap();
    for pair in key.key.chunks(2) {
        assert_eq!(pair, &[0x0a, 0xf1]);
    }
}

#[test]
fn jwt_key_errors() {
    assert_eq!(JwtKey::from_hex("abc").err(), Some(Error::Hex(HexError::OddLength)));
    assert_eq!(JwtKey::from_hex("abcd").err(), Some(Error::Hex(HexError::InvalidStringLength)));
    let mut text = "00".repeat(64);
    text.replace_range(5..6, "g");
    assert_eq!(
        JwtKey::from_hex(&text).err(),
        Some(Error::Hex(HexError::InvalidHexCharacter { c: 'g', index: 5 }))
    );
}

#[test]
fn secret_key_decoding() {
    assert_eq!(decode_secret_key("DEADbeef"), Ok(vec![0xde, 0xad, 0xbe, 0xef]));
    assert_eq!(decode_secret_key(""), Ok(vec![]));
    assert_eq!(decode_secret_key("123"), Err(Error::Hex(HexError::OddLength)));
    assert_eq!(
        decode_secret_key("12 4"),
        Err(Error::Hex(HexError::InvalidHexCharacter { c: ' ', index: 2 }))
    );
    assert_eq!(
        decode_secret_key("1g"),
        Err(Error::Hex(HexError::InvalidHexCharacter { c: 'g', index: 1 }))
    );
}
