//! Encoding and hashing tools: hexadecimal, Base64 and SHA-2 digests of text.
//!
//! The encodings and digests are computed by the `hex`, `base64` and `sha2`
//! crates; the tools choose the operation and turn decoded bytes back into
//! text.
use vstd::prelude::*;

use crate::error::Error;
use crate::os::{lowercase, to_lowercase};
use crate::text::chars_are;
use vstd::string::StringSliceAdditionalSpecFns;
use vstd::utf8::{decode_utf8, encode_utf8, valid_utf8};
use base64::Engine;
use sha2::Digest;

verus! {

/// The lowercase hexadecimal digit for `d` in `0..16`.
pub open spec fn hex_digit(d: int) -> char {
    if d < 10 {
        (48 + d) as char
    } else {
        (87 + d) as char
    }
}

/// `bytes` written in lowercase hexadecimal, two digits per byte.
pub open spec fn hex_encoded(bytes: Seq<u8>) -> Seq<char>
    decreases bytes.len(),
{
    if bytes.len() == 0 {
        Seq::empty()
    } else {
        hex_encoded(bytes.drop_last()) + seq![
            hex_digit(bytes.last() as int / 16),
            hex_digit(bytes.last() as int % 16),
        ]
    }
}

/// The value of a hexadecimal digit byte, in either case.
pub open spec fn hex_value(b: u8) -> Option<int> {
    if 0x30 <= b <= 0x39 {
        Some(b - 0x30)
    } else if 0x41 <= b <= 0x46 {
        Some(b - 0x41 + 10)
    } else if 0x61 <= b <= 0x66 {
        Some(b - 0x61 + 10)
    } else {
        None
    }
}

/// `s` is an even number of hexadecimal digits.
pub open spec fn hex_valid(s: Seq<u8>) -> bool {
    s.len() % 2 == 0 && forall|i: int| 0 <= i < s.len() ==> (#[trigger] hex_value(s[i])) is Some
}

/// The bytes that the digit pairs of `s` stand for.
pub open spec fn hex_decoded(s: Seq<u8>) -> Seq<u8> {
    Seq::new(
        s.len() / 2,
        |i: int| (hex_value(s[2 * i])->0 * 16 + hex_value(s[2 * i + 1])->0) as u8,
    )
}

/// Encodes bytes as lowercase hexadecimal with `hex::encode`, which writes
/// each byte as two lowercase digits.
#[verifier::external_body]
pub(crate) fn hex_encode(data: &[u8]) -> (res: String)
    ensures
        res@ == hex_encoded(data@),
{
    hex::encode(data)
}

/// The error of `hex::decode`.
#[verifier::external_type_specification]
#[verifier::external_body]
pub struct ExFromHexError(hex::FromHexError);

/// Decodes hexadecimal text with `hex::decode`: an even number of digits in
/// either case decodes to the bytes of its digit pairs; anything else is an
/// error.
#[verifier::external_body]
pub(crate) fn hex_decode(data: &[u8]) -> (res: Result<Vec<u8>, hex::FromHexError>)
    ensures
        match res {
            Ok(b) => hex_valid(data@) && b@ == hex_decoded(data@),
            Err(_) => !hex_valid(data@),
        },
{
    hex::decode(data)
}

/// The text `String::from_utf8_lossy` makes of `b`.
pub uninterp spec fn utf8_lossy(b: Seq<u8>) -> Seq<char>;

/// Decodes bytes as UTF-8 with `String::from_utf8_lossy`, which replaces
/// invalid sequences; the result is named `utf8_lossy(b)`, and valid UTF-8
/// decodes to its characters.
#[verifier::external_body]
pub(crate) fn from_utf8_lossy(b: &[u8]) -> (res: String)
    ensures
        res@ == utf8_lossy(b@),
        valid_utf8(b@) ==> res@ == decode_utf8(b@),
{
    String::from_utf8_lossy(b).to_string()
}

/// What `base64`'s standard engine (with padding) makes of `b`.
pub uninterp spec fn base64_encoded(b: Seq<u8>) -> Seq<char>;

/// What `base64`'s standard engine decodes from `s`, `None` where it fails.
pub uninterp spec fn base64_decoded(s: Seq<u8>) -> Option<Seq<u8>>;

/// Encodes bytes with `base64::engine::general_purpose::STANDARD`; the
/// result is named `base64_encoded(data)`.
#[verifier::external_body]
pub(crate) fn base64_encode(data: &[u8]) -> (res: String)
    ensures
        res@ == base64_encoded(data@),
{
    base64::engine::general_purpose::STANDARD.encode(data)
}

/// The error of a Base64 decode.
#[verifier::external_type_specification]
#[verifier::external_body]
pub struct ExDecodeError(base64::DecodeError);

/// Decodes Base64 with `base64::engine::general_purpose::STANDARD`; the
/// result is named `base64_decoded(data)`.
#[verifier::external_body]
pub(crate) fn base64_decode(data: &[u8]) -> (res: Result<Vec<u8>, base64::DecodeError>)
    ensures
        match res {
            Ok(b) => base64_decoded(data@) == Some(b@),
            Err(_) => base64_decoded(data@) is None,
        },
{
    base64::engine::general_purpose::STANDARD.decode(data)
}

/// The message of a Base64 decode error (its `Display`). Nothing is stated
/// of the text.
#[verifier::external_body]
fn base64_error_text(e: &base64::DecodeError) -> String {
    e.to_string()
}

/// The SHA-256 digest of `b`, as `sha2::Sha256` computes it.
pub uninterp spec fn sha256_digest(b: Seq<u8>) -> Seq<u8>;

/// The SHA-512 digest of `b`, as `sha2::Sha512` computes it.
pub uninterp spec fn sha512_digest(b: Seq<u8>) -> Seq<u8>;

/// The SHA-256 digest of `data` (`sha2::Sha256::digest`) formatted with
/// `{:x}`, which writes each byte as two lowercase hexadecimal digits; the
/// digest is named `sha256_digest(data)`.
#[verifier::external_body]
fn sha256_hex(data: &[u8]) -> (res: String)
    ensures
        res@ == hex_encoded(sha256_digest(data@)),
{
    format!("{:x}", sha2::Sha256::digest(data))
}

/// The SHA-512 digest of `data` (`sha2::Sha512::digest`) formatted with
/// `{:x}`, which writes each byte as two lowercase hexadecimal digits; the
/// digest is named `sha512_digest(data)`.
#[verifier::external_body]
fn sha512_hex(data: &[u8]) -> (res: String)
    ensures
        res@ == hex_encoded(sha512_digest(data@)),
{
    format!("{:x}", sha2::Sha512::digest(data))
}

/// The message of an action other than `encode` and `decode`.
pub open spec fn invalid_action() -> Seq<char> {
    "Invalid action. Use 'encode' or 'decode'."@
}

/// The bytes of characters that are all ASCII.
pub open spec fn ascii_bytes(c: Seq<char>) -> Seq<u8> {
    Seq::new(c.len(), |i: int| (c[i] as u32) as u8)
}

proof fn lemma_ascii_encode(c: Seq<char>)
    requires
        forall|i: int| 0 <= i < c.len() ==> (c[i] as u32) < 0x80,
    ensures
        encode_utf8(c) == ascii_bytes(c),
    decreases c.len(),
{
    if c.len() > 0 {
        let v = c[0] as u32;
        assert((v & 0x7F) == v) by (bit_vector)
            requires
                v < 0x80,
        ;
        lemma_ascii_encode(c.drop_first());
        assert(encode_utf8(c) =~= ascii_bytes(c));
    }
}

proof fn lemma_hex_encoded_digits(b: Seq<u8>)
    ensures
        hex_encoded(b).len() == 2 * b.len(),
        forall|k: int|
            0 <= k < b.len() ==> hex_encoded(b)[2 * k] == hex_digit(b[k] as int / 16) && hex_encoded(
                b,
            )[2 * k + 1] == hex_digit(b[k] as int % 16),
    decreases b.len(),
{
    if b.len() > 0 {
        lemma_hex_encoded_digits(b.drop_last());
        assert forall|k: int| 0 <= k < b.len() implies hex_encoded(b)[2 * k] == hex_digit(
            b[k] as int / 16,
        ) && hex_encoded(b)[2 * k + 1] == hex_digit(b[k] as int % 16) by {
            if k < b.len() - 1 {
                assert(b.drop_last()[k] == b[k]);
            }
        }
    }
}

proof fn lemma_hex_digit(d: int)
    requires
        0 <= d < 16,
    ensures
        (hex_digit(d) as u32) < 0x80,
        hex_value((hex_digit(d) as u32) as u8) == Some(d),
{
    if d < 10 {
        assert((hex_digit(d) as u32) == 48 + d);
    } else {
        assert((hex_digit(d) as u32) == 87 + d);
    }
}

pub(crate) proof fn lemma_hex_text(b: Seq<u8>)
    ensures
        hex_encoded(b).len() == 2 * b.len(),
        forall|i: int|
            0 <= i < hex_encoded(b).len() ==> (hex_encoded(b)[i] as u32) < 0x80 && hex_value(
                (hex_encoded(b)[i] as u32) as u8,
            ) == Some(
                if i % 2 == 0 {
                    b[i / 2] as int / 16
                } else {
                    b[i / 2] as int % 16
                },
            ),
{
    let h = hex_encoded(b);
    lemma_hex_encoded_digits(b);
    assert forall|i: int| 0 <= i < h.len() implies (h[i] as u32) < 0x80 && hex_value(
        (h[i] as u32) as u8,
    ) == Some(
        if i % 2 == 0 {
            b[i / 2] as int / 16
        } else {
            b[i / 2] as int % 16
        },
    ) by {
        let k = i / 2;
        if i % 2 == 0 {
            assert(i == 2 * k);
            lemma_hex_digit(b[k] as int / 16);
        } else {
            assert(i == 2 * k + 1);
            lemma_hex_digit(b[k] as int % 16);
        }
    }
}

pub(crate) proof fn lemma_hex_decode_encoded(b: Seq<u8>)
    ensures
        hex_valid(encode_utf8(hex_encoded(b))),
        hex_decoded(encode_utf8(hex_encoded(b))) == b,
{
    let h = hex_encoded(b);
    lemma_hex_text(b);
    lemma_ascii_encode(h);
    let e = encode_utf8(h);
    assert(e.len() == h.len());
    assert forall|i: int| 0 <= i < e.len() implies (#[trigger] hex_value(e[i])) is Some by {
        assert(e[i] == (h[i] as u32) as u8);
    }
    assert(hex_decoded(e) =~= b) by {
        assert forall|k: int| 0 <= k < b.len() implies hex_decoded(e)[k] == b[k] by {
            assert(e[2 * k] == (h[2 * k] as u32) as u8);
            assert(e[2 * k + 1] == (h[2 * k + 1] as u32) as u8);
            assert((2 * k) % 2 == 0 && (2 * k) / 2 == k);
            assert((2 * k + 1) % 2 == 1 && (2 * k + 1) / 2 == k);
        }
    }
}

/// Hexadecimal text made by the hex tool decodes to the bytes it was made
/// from, and those bytes to the text: decoding what was encoded gives the
/// text back.
pub proof fn law_hex_roundtrip(text: Seq<char>)
    ensures
        hex_valid(encode_utf8(hex_encoded(encode_utf8(text)))),
        hex_decoded(encode_utf8(hex_encoded(encode_utf8(text)))) == encode_utf8(text),
        valid_utf8(hex_decoded(encode_utf8(hex_encoded(encode_utf8(text))))),
        decode_utf8(hex_decoded(encode_utf8(hex_encoded(encode_utf8(text))))) == text,
{
    lemma_hex_decode_encoded(encode_utf8(text));
    vstd::utf8::encode_utf8_valid_utf8(text);
    vstd::utf8::encode_utf8_decode_utf8(text);
}

/// Arguments of the hex tool.
#[derive(Debug)]
pub struct HexArgs {
    /// The action to perform: `encode` or `decode`.
    pub action: String,
    /// The string to process.
    pub data: String,
}

/// Tool for hex encoding and decoding.
pub struct HexTool;

impl HexTool {
    /// Encodes the text to hexadecimal, or decodes hexadecimal back to text
    /// (invalid UTF-8 replaced); the action is compared in lowercase.
    pub fn call(&self, args: HexArgs) -> (res: Result<String, Error>)
        ensures
            ({
                let action = lowercase(args.action@);
                let bytes = encode_utf8(args.data@);
                if action == "encode"@ {
                    res matches Ok(s) && s@ == hex_encoded(bytes)
                } else if action == "decode"@ {
                    if hex_valid(bytes) {
                        res matches Ok(s) && s@ == utf8_lossy(hex_decoded(bytes)) && (valid_utf8(
                            hex_decoded(bytes),
                        ) ==> s@ == decode_utf8(hex_decoded(bytes)))
                    } else {
                        res matches Err(Error::Hex(_))
                    }
                } else {
                    res matches Err(Error::Internal(m)) && m@ == invalid_action()
                }
            }),
    {
        let action_text = to_lowercase(args.action.as_str());
        let action = crate::text::chars_of(action_text.as_str());
        if chars_are(action.as_slice(), "encode") {
            Ok(hex_encode(args.data.as_str().as_bytes()))
        } else if chars_are(action.as_slice(), "decode") {
            match hex_decode(args.data.as_str().as_bytes()) {
                Ok(decoded) => Ok(from_utf8_lossy(decoded.as_slice())),
                Err(e) => Err(Error::Hex(e)),
            }
        } else {
            Err(Error::Internal(String::from_str("Invalid action. Use 'encode' or 'decode'.")))
        }
    }
}

/// Arguments of the Base64 tool.
#[derive(Debug)]
pub struct Base64Args {
    /// The action to perform: `encode` or `decode`.
    pub action: String,
    /// The data string to process.
    pub data: String,
}

/// Tool for Base64 encoding and decoding.
pub struct Base64Tool;

impl Base64Tool {
    /// Encodes the text to Base64, or decodes Base64 back to text (invalid
    /// UTF-8 replaced); the action is compared in lowercase.
    pub fn call(&self, args: Base64Args) -> (res: Result<String, Error>)
        ensures
            ({
                let action = lowercase(args.action@);
                let bytes = encode_utf8(args.data@);
                if action == "encode"@ {
                    res matches Ok(s) && s@ == base64_encoded(bytes)
                } else if action == "decode"@ {
                    match base64_decoded(bytes) {
                        Some(d) => res matches Ok(s) && s@ == utf8_lossy(d),
                        None => res matches Err(Error::Internal(m)) && m@.len() >= 16
                            && m@.take(16) == "Invalid Base64: "@,
                    }
                } else {
                    res matches Err(Error::Internal(m)) && m@ == invalid_action()
                }
            }),
    {
        let action_text = to_lowercase(args.action.as_str());
        let action = crate::text::chars_of(action_text.as_str());
        if chars_are(action.as_slice(), "encode") {
            Ok(base64_encode(args.data.as_str().as_bytes()))
        } else if chars_are(action.as_slice(), "decode") {
            match base64_decode(args.data.as_str().as_bytes()) {
                Ok(decoded) => Ok(from_utf8_lossy(decoded.as_slice())),
                Err(e) => {
                    let mut m = String::from_str("Invalid Base64: ");
                    proof {
                        reveal_strlit("Invalid Base64: ");
                    }
                    let ghost prefix = m@;
                    m.append(base64_error_text(&e).as_str());
                    assert(m@.take(16) =~= prefix);
                    Err(Error::Internal(m))
                },
            }
        } else {
            Err(Error::Internal(String::from_str("Invalid action. Use 'encode' or 'decode'.")))
        }
    }
}

/// Arguments of the hash tool.
#[derive(Debug)]
pub struct HashArgs {
    /// The text to hash.
    pub data: String,
    /// Algorithm: `sha256` or `sha512`.
    pub algorithm: String,
}

/// Tool that computes a cryptographic hash of text.
pub struct HashTool;

impl HashTool {
    /// The SHA-256 or SHA-512 digest of the text, in lowercase hexadecimal;
    /// the algorithm name is compared in lowercase.
    pub fn call(&self, args: HashArgs) -> (res: Result<String, Error>)
        ensures
            ({
                let algorithm = lowercase(args.algorithm@);
                let bytes = encode_utf8(args.data@);
                if algorithm == "sha256"@ {
                    res matches Ok(s) && s@ == hex_encoded(sha256_digest(bytes))
                } else if algorithm == "sha512"@ {
                    res matches Ok(s) && s@ == hex_encoded(sha512_digest(bytes))
                } else {
                    res matches Err(Error::Internal(m)) && m@ == "Unsupported algorithm"@
                }
            }),
    {
        let algorithm_text = to_lowercase(args.algorithm.as_str());
        let algorithm = crate::text::chars_of(algorithm_text.as_str());
        if chars_are(algorithm.as_slice(), "sha256") {
            Ok(sha256_hex(args.data.as_str().as_bytes()))
        } else if chars_are(algorithm.as_slice(), "sha512") {
            Ok(sha512_hex(args.data.as_str().as_bytes()))
        } else {
            Err(Error::Internal(String::from_str("Unsupported algorithm")))
        }
    }
}

} // verus!
