//! Keys given as hex text: the 64-byte key that signs the gateway's JWTs and
//! the secret that the auth service mixes into its password hashes.
use vstd::prelude::*;
use vstd::string::StringSliceAdditionalSpecFns;
use crate::error::{Error, HexError};

verus! {

/// The value of a hex digit byte, in either case.
pub open spec fn hex_value(b: u8) -> Option<u8> {
    if 65 <= b <= 70 {
        Some((b - 55) as u8)
    } else if 97 <= b <= 102 {
        Some((b - 87) as u8)
    } else if 48 <= b <= 57 {
        Some((b - 48) as u8)
    } else {
        None
    }
}

/// Decodes the first `k` pairs of hex digits of `data`, pair by pair from the
/// front; the first byte that is no hex digit decides the error.
pub open spec fn decode_pairs(data: Seq<u8>, k: nat) -> Result<Seq<u8>, HexError>
    decreases k,
{
    if k == 0 {
        Ok(Seq::empty())
    } else {
        match decode_pairs(data, (k - 1) as nat) {
            Err(e) => Err(e),
            Ok(prefix) => {
                let i = 2 * (k - 1);
                match (hex_value(data[i]), hex_value(data[i + 1])) {
                    (None, _) => Err(HexError::InvalidHexCharacter { c: data[i] as char, index: i as usize }),
                    (Some(_), None) => Err(
                        HexError::InvalidHexCharacter { c: data[i + 1] as char, index: (i + 1) as usize },
                    ),
                    (Some(hi), Some(lo)) => Ok(prefix.push((hi * 16 + lo) as u8)),
                }
            },
        }
    }
}

/// What `hex::decode` gives for the bytes `data`.
pub open spec fn hex_decode(data: Seq<u8>) -> Result<Seq<u8>, HexError> {
    if data.len() % 2 != 0 {
        Err(HexError::OddLength)
    } else {
        decode_pairs(data, data.len() / 2)
    }
}

/// What `hex::decode_to_slice` gives for the bytes `data` and an output of
/// `out_len` bytes.
pub open spec fn hex_decode_exact(data: Seq<u8>, out_len: nat) -> Result<Seq<u8>, HexError> {
    if data.len() % 2 != 0 {
        Err(HexError::OddLength)
    } else if data.len() / 2 != out_len {
        Err(HexError::InvalidStringLength)
    } else {
        decode_pairs(data, out_len)
    }
}

/// The lower-case hex digit of the value `v` below 16.
pub open spec fn hex_digit_lower(v: u8) -> u8 {
    if v < 10 {
        (v + 48) as u8
    } else {
        (v + 87) as u8
    }
}

/// The lower-case hex text of `bytes`, two digits per byte, high nibble first.
pub open spec fn hex_lower(bytes: Seq<u8>) -> Seq<u8>
    decreases bytes.len(),
{
    if bytes.len() == 0 {
        Seq::empty()
    } else {
        hex_lower(bytes.drop_last()) + seq![
            hex_digit_lower(bytes.last() / 16),
            hex_digit_lower(bytes.last() % 16),
        ]
    }
}

/// Calls `hex::decode_to_slice` on the bytes of `text` with `out` as the
/// output. Claimed: the result is `hex_decode_exact` of the bytes for an
/// output of 64 bytes, and on success `out` holds the decoded bytes. On an
/// error nothing is claimed of what `out` then holds.
#[verifier::external_body]
fn hex_decode_into(text: &str, out: &mut [u8; 64]) -> (res: Result<(), HexError>)
    ensures
        match hex_decode_exact(text.spec_bytes(), 64) {
            Ok(bytes) => res is Ok && final(out)@ == bytes,
            Err(e) => res == Err::<(), HexError>(e),
        },
{
    hex::decode_to_slice(text, out).map_err(|e| match e {
        hex::FromHexError::InvalidHexCharacter { c, index } => HexError::InvalidHexCharacter { c, index },
        hex::FromHexError::OddLength => HexError::OddLength,
        hex::FromHexError::InvalidStringLength => HexError::InvalidStringLength,
    })
}

/// Calls `hex::decode` on the bytes of `text`. Claimed: the result is
/// `hex_decode` of those bytes.
#[verifier::external_body]
fn hex_decode_vec(text: &str) -> (res: Result<Vec<u8>, HexError>)
    ensures
        match hex_decode(text.spec_bytes()) {
            Ok(bytes) => res matches Ok(v) && v@ == bytes,
            Err(e) => res == Err::<Vec<u8>, HexError>(e),
        },
{
    hex::decode(text).map_err(|e| match e {
        hex::FromHexError::InvalidHexCharacter { c, index } => HexError::InvalidHexCharacter { c, index },
        hex::FromHexError::OddLength => HexError::OddLength,
        hex::FromHexError::InvalidStringLength => HexError::InvalidStringLength,
    })
}

/// The 64-byte key with which the gateway signs and checks JWTs.
#[derive(Debug, Clone, Copy)]
pub struct JwtKey {
    pub key: [u8; 64],
}

impl JwtKey {
    /// Reads the key from its hex text (the value of `JWT_KEY`): exactly 128
    /// hex digits, in either case.
    pub fn from_hex(text: &str) -> (res: Result<JwtKey, Error>)
        ensures
            match hex_decode_exact(text.spec_bytes(), 64) {
                Ok(bytes) => res matches Ok(k) && k.key@ == bytes,
                Err(e) => res == Err::<JwtKey, Error>(Error::Hex(e)),
            },
    {
        let mut key = [0u8; 64];
        match hex_decode_into(text, &mut key) {
            Ok(()) => Ok(JwtKey { key }),
            Err(e) => Err(Error::Hex(e)),
        }
    }

    /// The key's bytes.
    pub fn bytes(&self) -> (b: &[u8])
        ensures
            b@ == self.key@,
    {
        vstd::array::array_as_slice(&self.key)
    }
}

/// Reads the auth service's password-hashing secret from its hex text (the
/// value of `SECRET_KEY`).
pub fn decode_secret_key(text: &str) -> (res: Result<Vec<u8>, Error>)
    ensures
        match hex_decode(text.spec_bytes()) {
            Ok(bytes) => res matches Ok(v) && v@ == bytes,
            Err(e) => res == Err::<Vec<u8>, Error>(Error::Hex(e)),
        },
{
    match hex_decode_vec(text) {
        Ok(v) => Ok(v),
        Err(e) => Err(Error::Hex(e)),
    }
}

proof fn lemma_hex_digit_lower(v: u8)
    requires
        v < 16,
    ensures
        hex_value(hex_digit_lower(v)) == Some(v),
{
}

proof fn lemma_hex_lower_len(bytes: Seq<u8>)
    ensures
        hex_lower(bytes).len() == 2 * bytes.len(),
    decreases bytes.len(),
{
    if bytes.len() > 0 {
        lemma_hex_lower_len(bytes.drop_last());
    }
}

proof fn lemma_decode_pairs_prefix(data: Seq<u8>, extra: Seq<u8>, k: nat)
    requires
        2 * k <= data.len(),
    ensures
        decode_pairs(data + extra, k) == decode_pairs(data, k),
    decreases k,
{
    if k > 0 {
        lemma_decode_pairs_prefix(data, extra, (k - 1) as nat);
        let i = 2 * (k - 1);
        assert((data + extra)[i] == data[i]);
        assert((data + extra)[i + 1] == data[i + 1]);
    }
}

proof fn lemma_decode_hex_lower(bytes: Seq<u8>)
    ensures
        decode_pairs(hex_lower(bytes), bytes.len()) == Ok::<Seq<u8>, HexError>(bytes),
    decreases bytes.len(),
{
    if bytes.len() > 0 {
        let init = bytes.drop_last();
        let b = bytes.last();
        lemma_decode_hex_lower(init);
        lemma_hex_lower_len(init);
        let pair = seq![hex_digit_lower(b / 16), hex_digit_lower(b % 16)];
        lemma_decode_pairs_prefix(hex_lower(init), pair, init.len());
        lemma_hex_digit_lower(b / 16);
        lemma_hex_digit_lower(b % 16);
        let text = hex_lower(bytes);
        assert(text == hex_lower(init) + pair);
        assert(init.push(b) =~= bytes);
        assert(hex_value(text[2 * init.len() as int]) == Some((b / 16) as u8));
        assert(hex_value(text[2 * init.len() as int + 1]) == Some((b % 16) as u8));
        let v = (((b / 16) as u8) * 16 + ((b % 16) as u8)) as u8;
        assert(v == b);
    } else {
        assert(bytes =~= Seq::<u8>::empty());
    }
}

/// Hex text written by a lower-case hex encoder, as the key generator writes
/// it, decodes back to the same bytes, both with `hex::decode` and into an
/// output of the same length.
pub proof fn law_hex_roundtrip(bytes: Seq<u8>)
    ensures
        hex_decode(hex_lower(bytes)) == Ok::<Seq<u8>, HexError>(bytes),
        hex_decode_exact(hex_lower(bytes), bytes.len()) == Ok::<Seq<u8>, HexError>(bytes),
{
    lemma_hex_lower_len(bytes);
    lemma_decode_hex_lower(bytes);
    assert((2 * bytes.len()) % 2 == 0) by (nonlinear_arith);
    assert((2 * bytes.len()) / 2 == bytes.len()) by (nonlinear_arith);
}

} // verus!
