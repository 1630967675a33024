use rustychain::encoding::{Base64Args, Base64Tool, HashArgs, HashTool, HexArgs, HexTool};
use rustychain::error::Error;

fn hex(action: &str, data: &str) -> Result<String, Error> {
    HexTool.call(HexArgs { action: action.to_string(), data: data.to_string() })
}

fn b64(action: &str, data: &str) -> Result<String, Error> {
    Base64Tool.call(Base64Args { action: action.to_string(), data: data.to_string() })
}

fn hash(algorithm: &str, data: &str) -> Result<String, Error> {
    HashTool.call(HashArgs { data: data.to_string(), algorithm: algorithm.to_string() })
}

#[test]
fn hex_tool_encodes_and_decodes() {
    assert_eq!(hex("encode", "Hello world!").unwrap(), "48656c6c6f20776f726c6421");
    assert_eq!(hex("DECODE", "48656C6c6f").unwrap(), "Hello");
    let text = "héllo ✓";
    let encoded = hex("encode", text).unwrap();
    assert_eq!(hex("decode", &encoded).unwrap(), text);
    assert_eq!(hex("decode", "ff").unwrap(), "\u{FFFD}");
}

#[test]
fn hex_tool_errors() {
    assert!(matches!(hex("decode", "123"), Err(Error::Hex(hex::FromHexError::OddLength))));
    assert!(matches!(
        hex("decode", "zz"),
        Err(Error::Hex(hex::FromHexError::InvalidHexCharacter { c: 'z', index: 0 }))
    ));
    match hex("rot13", "x") {
        Err(Error::Internal(m)) => assert_eq!(m, "Invalid action. Use 'encode' or 'decode'."),
        other => panic!("unexpected {:?}", other),
    }
}

#[test]
fn base64_tool_encodes_and_decodes() {
    assert_eq!(b64("encode", "hello").unwrap(), "aGVsbG8=");
    assert_eq!(b64("Decode", "aGVsbG8=").unwrap(), "hello");
    match b64("decode", "not base64!") {
        Err(Error::Internal(m)) => assert!(m.starts_with("Invalid Base64: ")),
        other => panic!("unexpected {:?}", other),
    }
    assert!(matches!(b64("zip", "x"), Err(Error::Internal(_))));
}

#[test]
fn hash_tool_digests() {
    assert_eq!(
        hash("sha256", "abc").unwrap(),
        "ba7816bf8f01cfea414140de5dae2223b00361a396177a9cb410ff61f20015ad"
    );
    assert_eq!(
        hash("SHA512", "abc").unwrap(),
        "ddaf35a193617abacc417349ae20413112e6fa4e89a97ea20a9eeee64b55d39a2192992a274fc1a836ba3c23a3feebbd454d4423643ce80e2a9ac94fa54ca49f"
    );
    match hash("md5", "abc") {
        Err(Error::Internal(m)) => assert_eq!(m, "Unsupported algorithm"),
        other => panic!("unexpected {:?}", other),
    }
}
