//! Symmetric encryption and password hashing tools.
//!
//! AES-256-GCM comes from the `aes-gcm` crate and Argon2 from the `argon2`
//! crate; the tools check their arguments, pick the operation, and frame
//! what goes into and comes out of those calls.
use crate::encoding::{
    from_utf8_lossy, hex_decode, hex_decoded, hex_encode, hex_encoded, hex_valid, hex_value,
    lemma_hex_decode_encoded, lemma_hex_text, utf8_lossy,
};
use crate::error::Error;
use crate::os::{lowercase, to_lowercase};
use crate::text::{chars_are, chars_of, extend_chars, find_chars, find_from, string_from_vec};
use aes_gcm::aead::{Aead, KeyInit};
use rand::RngCore;
use vstd::prelude::*;
use vstd::string::StringSliceAdditionalSpecFns;
use vstd::utf8::{decode_utf8, encode_utf8, valid_utf8};

verus! {

/// The AES-256-GCM encryption of `plaintext` under `key` and `nonce`
/// (ciphertext followed by the tag), `None` where it fails.
pub uninterp spec fn aes_gcm_sealed(key: Seq<u8>, nonce: Seq<u8>, plaintext: Seq<u8>) -> Option<
    Seq<u8>,
>;

/// The AES-256-GCM decryption of `ciphertext` under `key` and `nonce`,
/// `None` where the tag does not check.
pub uninterp spec fn aes_gcm_opened(key: Seq<u8>, nonce: Seq<u8>, ciphertext: Seq<u8>) -> Option<
    Seq<u8>,
>;

pub open spec fn opt_bytes(o: Option<Vec<u8>>) -> Option<Seq<u8>> {
    match o {
        Some(v) => Some(v@),
        None => None,
    }
}

/// Encrypts with `aes_gcm::Aes256Gcm` (`Aead::encrypt`, no associated
/// data). It fails only for a plaintext over 2^36 bytes; the ciphertext is
/// the plaintext's length plus a 16-byte tag, and decrypting it under the
/// same key and nonce gives the plaintext back.
#[verifier::external_body]
fn aes_encrypt(key: &[u8], nonce: &[u8], plaintext: &[u8]) -> (res: Option<Vec<u8>>)
    requires
        key@.len() == 32,
        nonce@.len() == 12,
    ensures
        opt_bytes(res) == aes_gcm_sealed(key@, nonce@, plaintext@),
        res is Some <==> plaintext@.len() <= 0x10_0000_0000,
        res matches Some(c) ==> c@.len() == plaintext@.len() + 16 && aes_gcm_opened(
            key@,
            nonce@,
            c@,
        ) == Some(plaintext@),
{
    let cipher = aes_gcm::Aes256Gcm::new(aes_gcm::Key::<aes_gcm::Aes256Gcm>::from_slice(key));
    cipher.encrypt(aes_gcm::Nonce::from_slice(nonce), plaintext).ok()
}

/// Decrypts with `aes_gcm::Aes256Gcm` (`Aead::decrypt`, no associated
/// data); the error's text is `aead::Error`.
#[verifier::external_body]
fn aes_decrypt(key: &[u8], nonce: &[u8], ciphertext: &[u8]) -> (res: Result<Vec<u8>, String>)
    requires
        key@.len() == 32,
        nonce@.len() == 12,
    ensures
        match res {
            Ok(p) => aes_gcm_opened(key@, nonce@, ciphertext@) == Some(p@),
            Err(m) => aes_gcm_opened(key@, nonce@, ciphertext@) is None && m@ == "aead::Error"@,
        },
{
    let cipher = aes_gcm::Aes256Gcm::new(aes_gcm::Key::<aes_gcm::Aes256Gcm>::from_slice(key));
    cipher.decrypt(aes_gcm::Nonce::from_slice(nonce), ciphertext).map_err(|e| e.to_string())
}

/// Twelve random bytes from `rand::rng()`. Nothing is claimed of them but
/// their number.
#[verifier::external_body]
fn random_nonce() -> (res: Vec<u8>)
    ensures
        res@.len() == 12,
{
    let mut n = [0u8;12];
    rand::rng().fill_bytes(&mut n);
    n.to_vec()
}

/// The text before and after the only `:` of `s`, if it has exactly one.
pub open spec fn colon_split(s: Seq<char>) -> Option<(Seq<char>, Seq<char>)> {
    match find_from(s, seq![':'], 0) {
        None => None,
        Some(p) => if find_from(s, seq![':'], p + 1) is Some {
            None
        } else {
            Some((s.subrange(0, p), s.subrange(p + 1, s.len() as int)))
        },
    }
}

/// The bytes of a hexadecimal key.
pub open spec fn key_of(key_hex: Seq<char>) -> Seq<u8> {
    hex_decoded(encode_utf8(key_hex))
}

/// Why decrypting a `nonce:ciphertext` text fails.
pub enum SymmetricFailure {
    /// It is not two parts separated by one `:`.
    Format,
    /// A part is not hexadecimal.
    Hex,
    /// The tag does not check.
    Aead,
}

/// Decrypting the text `s` of the form `nonce:ciphertext`, both parts in
/// hexadecimal, under `key`.
pub open spec fn decrypted(key: Seq<u8>, s: Seq<char>) -> Result<Seq<u8>, SymmetricFailure> {
    match colon_split(s) {
        None => Err(SymmetricFailure::Format),
        Some((a, b)) => if !hex_valid(encode_utf8(a)) || !hex_valid(encode_utf8(b)) {
            Err(SymmetricFailure::Hex)
        } else {
            match aes_gcm_opened(key, hex_decoded(encode_utf8(a)), hex_decoded(encode_utf8(b))) {
                Some(p) => Ok(p),
                None => Err(SymmetricFailure::Aead),
            }
        },
    }
}

/// A text whose nonce part, when hexadecimal, is twelve bytes.
pub open spec fn nonce_part_ok(s: Seq<char>) -> bool {
    match colon_split(s) {
        Some((a, _)) => hex_valid(encode_utf8(a)) ==> hex_decoded(encode_utf8(a)).len() == 12,
        None => true,
    }
}

/// The message of an encrypted text without exactly one `:`.
pub open spec fn format_message() -> Seq<char> {
    "Invalid encrypted format. Expected nonce:ciphertext"@
}

/// Arguments of the symmetric encryption tool.
pub struct SymmetricArgs {
    /// `encrypt` or `decrypt`, in any case.
    pub action: String,
    /// The text to encrypt, or the `nonce:ciphertext` text to decrypt.
    pub text: String,
    /// The 32-byte key in hexadecimal.
    pub key_hex: String,
}

/// AES-256-GCM encryption and decryption of text.
pub struct SymmetricTool;

fn split_colon(cs: &[char]) -> (res: Option<(Vec<char>, Vec<char>)>)
    ensures
        match res {
            Some((a, b)) => colon_split(cs@) == Some((a@, b@)),
            None => colon_split(cs@) is None,
        },
{
    let colon = vec![':'];
    assert(colon@ == seq![':']);
    match find_chars(cs, colon.as_slice(), 0) {
        None => None,
        Some(p) => {
            proof {
                crate::text::lemma_find_from(cs@, seq![':'], 0);
                assert(crate::text::matches_at(cs@, seq![':'], p as int));
                assert(seq![':'].len() == 1);
                assert(p < cs@.len());
                assert(cs@.len() == cs.len());
            }
            if find_chars(cs, colon.as_slice(), p + 1).is_some() {
                None
            } else {
                Some(
                    (
                        crate::text::slice_chars(cs, 0, p),
                        crate::text::slice_chars(cs, p + 1, cs.len()),
                    ),
                )
            }
        },
    }
}

/// The arguments on which the tool does not panic: a hexadecimal key is
/// 32 bytes, and a text to decrypt under it has a 12-byte hexadecimal nonce.
pub open spec fn symmetric_args_ok(action: Seq<char>, text: Seq<char>, key_hex: Seq<char>) -> bool {
    &&& hex_valid(encode_utf8(key_hex)) ==> key_of(key_hex).len() == 32
    &&& lowercase(action) == "decrypt"@ && hex_valid(encode_utf8(key_hex)) ==> nonce_part_ok(text)
}

/// What the tool gives for the action `action_text`, the text `text`
/// and the key `key_hex` when encryption uses `nonce`: a key that is not
/// hexadecimal is a hex error; otherwise, by the lowercased action,
/// `encrypt` gives `nonce:ciphertext` in hexadecimal (which decrypts back to
/// the text's bytes), `decrypt` gives the decrypted bytes read as UTF-8 or
/// the reason decrypting failed, and any other action is an error.
pub open spec fn symmetric_outcome(
    res: Result<String, Error>,
    action_text: Seq<char>,
    text: Seq<char>,
    key_hex: Seq<char>,
    nonce: Seq<u8>,
) -> bool {
    &&& !hex_valid(encode_utf8(key_hex)) ==> (res matches Err(Error::Hex(_)))
    &&& hex_valid(encode_utf8(key_hex)) ==> ({
        let key = key_of(key_hex);
        let action = lowercase(action_text);
        if action == "encrypt"@ {
            match aes_gcm_sealed(key, nonce, encode_utf8(text)) {
                Some(c) => res matches Ok(s) && s@ == hex_encoded(nonce) + seq![':']
                    + hex_encoded(c) && decrypted(key, s@) == Ok::<Seq<u8>, SymmetricFailure>(encode_utf8(text)),
                None => res matches Err(Error::Encryption(m)) && m@ == "aead::Error"@,
            }
        } else if action == "decrypt"@ {
            match decrypted(key, text) {
                Ok(p) => res matches Ok(s) && s@ == utf8_lossy(p) && (valid_utf8(p) ==> s@
                    == decode_utf8(p)),
                Err(SymmetricFailure::Format) => res matches Err(Error::Internal(m)) && m@
                    == format_message(),
                Err(SymmetricFailure::Hex) => res matches Err(Error::Hex(_)),
                Err(SymmetricFailure::Aead) => res matches Err(Error::Encryption(m)) && m@
                    == "aead::Error"@,
            }
        } else {
            res matches Err(Error::Internal(m)) && m@ == "Invalid action"@
        }
    })
}

impl SymmetricTool {
    /// Encrypts with a random nonce, or decrypts: whatever twelve bytes
    /// the nonce is, the answer is the one `call_with_nonce` gives for it
    /// (decrypting and other actions do not depend on it).
    pub fn call(&self, args: SymmetricArgs) -> (res: Result<String, Error>)
        requires
            symmetric_args_ok(args.action@, args.text@, args.key_hex@),
        ensures
            exists|n: Seq<u8>|
                n.len() == 12 && #[trigger] symmetric_outcome(res, args.action@, args.text@, args.key_hex@, n),
    {
        let ghost (a, t, k) = (args.action@, args.text@, args.key_hex@);
        let nonce = random_nonce();
        let res = self.call_with_nonce(args, &nonce);
        assert(symmetric_outcome(res, a, t, k, nonce@));
        res
    }

    /// Decodes the key, then by the lowercased action: `encrypt` encrypts
    /// the text's UTF-8 bytes under `nonce` and gives `nonce:ciphertext` in
    /// hexadecimal; `decrypt` reverses that and reads the bytes as UTF-8
    /// (invalid sequences replaced). Encrypted text decrypts to the bytes
    /// of the text it was made from.
    pub fn call_with_nonce(&self, args: SymmetricArgs, nonce: &Vec<u8>) -> (res: Result<
        String,
        Error,
    >)
        requires
            nonce@.len() == 12,
            symmetric_args_ok(args.action@, args.text@, args.key_hex@),
        ensures
            symmetric_outcome(res, args.action@, args.text@, args.key_hex@, nonce@),
    {
        let key = match hex_decode(args.key_hex.as_str().as_bytes()) {
            Ok(k) => k,
            Err(e) => return Err(Error::Hex(e)),
        };
        let action_text = to_lowercase(args.action.as_str());
        let action = chars_of(action_text.as_str());
        if chars_are(action.as_slice(), "encrypt") {
            let plain = args.text.as_str().as_bytes();
            match aes_encrypt(key.as_slice(), nonce.as_slice(), plain) {
                Some(c) => {
                    let mut out = chars_of(hex_encode(nonce.as_slice()).as_str());
                    out.push(':');
                    let ch = chars_of(hex_encode(c.as_slice()).as_str());
                    extend_chars(&mut out, ch.as_slice());
                    proof {
                        lemma_sealed_text_decrypts(key@, nonce@, c@, plain@);
                    }
                    assert(out@ =~= hex_encoded(nonce@) + seq![':'] + hex_encoded(c@));
                    Ok(string_from_vec(out))
                },
                None => Err(Error::Encryption(string_from_vec(chars_of("aead::Error")))),
            }
        } else if chars_are(action.as_slice(), "decrypt") {
            let text = chars_of(args.text.as_str());
            let (a, b) = match split_colon(text.as_slice()) {
                Some(parts) => parts,
                None => return Err(
                    Error::Internal(
                        string_from_vec(
                            chars_of("Invalid encrypted format. Expected nonce:ciphertext"),
                        ),
                    ),
                ),
            };
            let a_s = string_from_vec(a);
            let b_s = string_from_vec(b);
            let n = match hex_decode(a_s.as_str().as_bytes()) {
                Ok(n) => n,
                Err(e) => return Err(Error::Hex(e)),
            };
            let c = match hex_decode(b_s.as_str().as_bytes()) {
                Ok(c) => c,
                Err(e) => return Err(Error::Hex(e)),
            };
            match aes_decrypt(key.as_slice(), n.as_slice(), c.as_slice()) {
                Ok(p) => Ok(from_utf8_lossy(p.as_slice())),
                Err(m) => Err(Error::Encryption(m)),
            }
        } else {
            Err(Error::Internal(string_from_vec(chars_of("Invalid action"))))
        }
    }
}

impl SymmetricTool {
    /// Runs `call` where the arguments are ones it accepts
    /// (`symmetric_args_ok`), and gives `None` where they are not.
    pub fn try_call(&self, args: SymmetricArgs) -> (res: Option<Result<String, Error>>)
        ensures
            res is None <==> !symmetric_args_ok(args.action@, args.text@, args.key_hex@),
            res matches Some(r) ==> exists|n: Seq<u8>|
                n.len() == 12 && #[trigger] symmetric_outcome(r, args.action@, args.text@, args.key_hex@, n),
    {
        if self.args_ok(&args) {
            Some(self.call(args))
        } else {
            None
        }
    }

    /// Runs `call_with_nonce` where the arguments are ones it accepts
    /// (`symmetric_args_ok`), and gives `None` where they are not.
    pub fn try_call_with_nonce(&self, args: SymmetricArgs, nonce: &Vec<u8>) -> (res: Option<
        Result<String, Error>,
    >)
        requires
            nonce@.len() == 12,
        ensures
            res is None <==> !symmetric_args_ok(args.action@, args.text@, args.key_hex@),
            res matches Some(r) ==> symmetric_outcome(r, args.action@, args.text@, args.key_hex@, nonce@),
    {
        if self.args_ok(&args) {
            Some(self.call_with_nonce(args, nonce))
        } else {
            None
        }
    }

    /// Whether `symmetric_args_ok` holds of the arguments.
    pub fn args_ok(&self, args: &SymmetricArgs) -> (res: bool)
        ensures
            res == symmetric_args_ok(args.action@, args.text@, args.key_hex@),
    {
        let key = match hex_decode(args.key_hex.as_str().as_bytes()) {
            Ok(k) => k,
            Err(_) => return true,
        };
        if key.len() != 32 {
            return false;
        }
        let action_text = to_lowercase(args.action.as_str());
        let action = chars_of(action_text.as_str());
        if !chars_are(action.as_slice(), "decrypt") {
            return true;
        }
        let text = chars_of(args.text.as_str());
        match split_colon(text.as_slice()) {
            None => true,
            Some((a, _)) => {
                let a_s = string_from_vec(a);
                match hex_decode(a_s.as_str().as_bytes()) {
                    Ok(n) => n.len() == 12,
                    Err(_) => true,
                }
            },
        }
    }
}

/// The text `hex(nonce):hex(c)` splits back into its two hexadecimal parts,
/// and so decrypts to what `c` opens to.
proof fn lemma_sealed_text_decrypts(key: Seq<u8>, nonce: Seq<u8>, c: Seq<u8>, plain: Seq<u8>)
    requires
        aes_gcm_opened(key, nonce, c) == Some(plain),
    ensures
        decrypted(key, hex_encoded(nonce) + seq![':'] + hex_encoded(c)) == Ok::<
            Seq<u8>,
            SymmetricFailure,
        >(plain),
{
    let hn = hex_encoded(nonce);
    let hc = hex_encoded(c);
    let s = hn + seq![':'] + hc;
    lemma_hex_text(nonce);
    lemma_hex_text(c);
    lemma_hex_decode_encoded(nonce);
    lemma_hex_decode_encoded(c);
    assert forall|i: int| 0 <= i < hn.len() implies hn[i] != ':' by {
        assert(hex_value((hn[i] as u32) as u8) is Some);
    }
    assert forall|i: int| 0 <= i < hc.len() implies hc[i] != ':' by {
        assert(hex_value((hc[i] as u32) as u8) is Some);
    }
    lemma_first_colon(s, hn.len() as int, 0);
    lemma_no_colon_after(s, hn.len() as int + 1);
    assert(s.subrange(0, hn.len() as int) =~= hn);
    assert(s.subrange(hn.len() as int + 1, s.len() as int) =~= hc);
}

/// With no `:` in `s[i..p]` and one at `p`, the first from `i` is at `p`.
proof fn lemma_first_colon(s: Seq<char>, p: int, i: int)
    requires
        0 <= i <= p < s.len(),
        s[p] == ':',
        forall|j: int| i <= j < p ==> s[j] != ':',
    ensures
        find_from(s, seq![':'], i) == Some(p),
    decreases p - i,
{
    if i < p {
        assert(s.subrange(i, i + 1) != seq![':']) by {
            assert(s.subrange(i, i + 1)[0] == s[i]);
        }
        lemma_first_colon(s, p, i + 1);
    } else {
        assert(s.subrange(i, i + 1) =~= seq![':']);
    }
}

/// With no `:` in `s[i..]`, none is found from `i`.
proof fn lemma_no_colon_after(s: Seq<char>, i: int)
    requires
        0 <= i <= s.len(),
        forall|j: int| i <= j < s.len() ==> s[j] != ':',
    ensures
        find_from(s, seq![':'], i) is None,
    decreases s.len() - i,
{
    if i < s.len() {
        assert(s.subrange(i, i + 1) != seq![':']) by {
            assert(s.subrange(i, i + 1)[0] == s[i]);
        }
        lemma_no_colon_after(s, i + 1);
    }
}


// ---------------------------------------------------------------------------
// Argon2

/// The PHC string of `password` hashed by `argon2::Argon2::default()` with
/// the salt whose Base64 text is `salt_b64`, or the error's text.
pub uninterp spec fn argon2_hashed(password: Seq<u8>, salt_b64: Seq<char>) -> Result<
    Seq<char>,
    Seq<char>,
>;

/// Whether `password` matches the PHC string `encoded` under
/// `argon2::Argon2::default()`, or the text of the error reading it.
pub uninterp spec fn argon2_verified(password: Seq<u8>, encoded: Seq<char>) -> Result<
    bool,
    Seq<char>,
>;

pub open spec fn result_view(r: Result<String, String>) -> Result<Seq<char>, Seq<char>> {
    match r {
        Ok(s) => Ok(s@),
        Err(e) => Err(e@),
    }
}

pub open spec fn bool_result_view(r: Result<bool, String>) -> Result<bool, Seq<char>> {
    match r {
        Ok(b) => Ok(b),
        Err(e) => Err(e@),
    }
}

/// Reads the salt with `password_hash::Salt::from_b64` and hashes with
/// `PasswordHasher::hash_password` of `argon2::Argon2::default()`, giving
/// the hash's PHC string (`to_string`) or the error's text. A hash that is
/// made verifies against the same password.
#[verifier::external_body]
fn argon2_hash(password: &[u8], salt_b64: &str) -> (res: Result<String, String>)
    ensures
        result_view(res) == argon2_hashed(password@, salt_b64@),
        match res {
            Ok(h) => argon2_verified(password@, h@) == Ok::<bool, Seq<char>>(true),
            Err(_) => true,
        },
{
    let salt = argon2::password_hash::Salt::from_b64(salt_b64).map_err(|e| e.to_string())?;
    argon2::PasswordHasher::hash_password(&argon2::Argon2::default(), password, salt).map(
        |h| h.to_string(),
    ).map_err(|e| e.to_string())
}

/// Reads `encoded` with `argon2::PasswordHash::new` and checks the password
/// with `PasswordVerifier::verify_password` of `argon2::Argon2::default()`.
#[verifier::external_body]
fn argon2_verify(password: &[u8], encoded: &str) -> (res: Result<bool, String>)
    ensures
        bool_result_view(res) == argon2_verified(password@, encoded@),
{
    let parsed = argon2::PasswordHash::new(encoded).map_err(|e| e.to_string())?;
    Ok(argon2::PasswordVerifier::verify_password(&argon2::Argon2::default(), password, &parsed).is_ok())
}

/// Arguments of the password hashing tool.
pub struct ArgonArgs {
    /// `hash` or `verify`, in any case.
    pub action: String,
    pub password: String,
    /// The salt, needed to hash.
    pub salt: Option<String>,
    /// A hash made before, needed to verify.
    pub encoded_hash: Option<String>,
}

/// Argon2 password hashing and verification.
pub struct ArgonTool;

impl ArgonTool {
    /// By the lowercased action: `hash` hashes the password with the salt
    /// (its UTF-8 bytes in standard Base64); `verify` answers `valid` or
    /// `invalid` for the password against the hash. A hash that is made
    /// verifies against the same password.
    pub fn call(&self, args: ArgonArgs) -> (res: Result<String, Error>)
        ensures
            ({
                let action = lowercase(args.action@);
                let pw = encode_utf8(args.password@);
                if action == "hash"@ {
                    match args.salt {
                        None => res matches Err(Error::Internal(m)) && m@
                            == "Salt is required for hashing"@,
                        Some(salt) => match argon2_hashed(
                            pw,
                            crate::encoding::base64_encoded(encode_utf8(salt@)),
                        ) {
                            Ok(h) => res matches Ok(s) && s@ == h && argon2_verified(pw, h) == Ok::<
                                bool,
                                Seq<char>,
                            >(true),
                            Err(e) => res matches Err(Error::Argon2(m)) && m@ == e,
                        },
                    }
                } else if action == "verify"@ {
                    match args.encoded_hash {
                        None => res matches Err(Error::Internal(m)) && m@
                            == "Encoded hash is required for verification"@,
                        Some(h) => match argon2_verified(pw, h@) {
                            Ok(true) => res matches Ok(s) && s@ == "valid"@,
                            Ok(false) => res matches Ok(s) && s@ == "invalid"@,
                            Err(e) => res matches Err(Error::Argon2(m)) && m@ == e,
                        },
                    }
                } else {
                    res matches Err(Error::Internal(m)) && m@
                        == "Invalid action. Use 'hash' or 'verify'."@
                }
            }),
    {
        let action_text = to_lowercase(args.action.as_str());
        let action = chars_of(action_text.as_str());
        let pw = args.password.as_str().as_bytes();
        if chars_are(action.as_slice(), "hash") {
            let salt = match &args.salt {
                Some(s) => s,
                None => return Err(
                    Error::Internal(string_from_vec(chars_of("Salt is required for hashing"))),
                ),
            };
            let salt_b64 = crate::encoding::base64_encode(salt.as_str().as_bytes());
            match argon2_hash(pw, salt_b64.as_str()) {
                Ok(h) => Ok(h),
                Err(m) => Err(Error::Argon2(m)),
            }
        } else if chars_are(action.as_slice(), "verify") {
            let h = match &args.encoded_hash {
                Some(h) => h,
                None => return Err(
                    Error::Internal(
                        string_from_vec(chars_of("Encoded hash is required for verification")),
                    ),
                ),
            };
            match argon2_verify(pw, h.as_str()) {
                Ok(true) => Ok(string_from_vec(chars_of("valid"))),
                Ok(false) => Ok(string_from_vec(chars_of("invalid"))),
                Err(m) => Err(Error::Argon2(m)),
            }
        } else {
            Err(
                Error::Internal(
                    string_from_vec(chars_of("Invalid action. Use 'hash' or 'verify'.")),
                ),
            )
        }
    }
}

} // verus!
