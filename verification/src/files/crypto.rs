//! Encryption of secure directories' files with AES-256-GCM.
//!
//! The key is the SHA-256 digest of the password's UTF-8 bytes. An encrypted
//! blob is a fresh 12-byte nonce followed by the AES-GCM ciphertext (with its
//! 16-byte tag).

use vstd::prelude::*;
use aes_gcm::aead::{Aead, KeyInit};
use rand::RngCore;
use sha2::Digest;
use vstd::utf8::encode_utf8;
use crate::text::{chars_of, concat, has_suffix, string_from_chars};

verus! {

/// Length of a nonce.
pub const NONCE_SIZE: usize = 12;

/// Longest plaintext that AES-GCM encrypts (`aes_gcm::P_MAX`).
pub open spec fn max_plaintext() -> int {
    0x10_0000_0000
}

/// The SHA-256 digest of some bytes.
pub uninterp spec fn sha256_digest(data: Seq<u8>) -> Seq<u8>;

/// The AES-256-GCM ciphertext (with tag, no associated data) of a plaintext.
pub uninterp spec fn aes256gcm_seal(key: Seq<u8>, nonce: Seq<u8>, plaintext: Seq<u8>) -> Seq<u8>;

/// The AES-256-GCM decryption of a ciphertext: the plaintext, or `None` when
/// the ciphertext does not authenticate.
pub uninterp spec fn aes256gcm_open(key: Seq<u8>, nonce: Seq<u8>, ciphertext: Seq<u8>) -> Option<
    Seq<u8>,
>;

/// Calls `sha2::Sha256::digest`; the result is named `sha256_digest` of the
/// input and is 32 bytes long (the output type is a 32-byte array).
#[verifier::external_body]
fn sha256(data: &[u8]) -> (r: Vec<u8>)
    ensures
        r@ == sha256_digest(data@),
        r@.len() == 32,
{
    sha2::Sha256::digest(data).to_vec()
}

/// `n` random bytes from `rand::thread_rng().fill_bytes`. Only the length is
/// stated: the bytes are random.
#[verifier::external_body]
fn random_bytes(n: usize) -> (r: Vec<u8>)
    ensures
        r@.len() == n,
{
    let mut bytes = vec![0u8; n];
    rand::thread_rng().fill_bytes(&mut bytes);
    bytes
}

/// `aes_gcm::Error` (the `aead` crate's opaque error), carried through from the
/// AEAD calls to the text that reports it.
#[verifier::external_type_specification]
#[verifier::external_body]
pub struct ExAeadError(aes_gcm::Error);

/// The text of an `aes_gcm::Error` (its `Display` writes `aead::Error`).
#[verifier::external_body]
fn aead_error_text(e: &aes_gcm::Error) -> (r: String)
    ensures
        r@ == "aead::Error"@,
{
    format!("{}", e)
}

/// Calls `Aes256Gcm::encrypt` with this key and nonce and no associated data.
/// The ciphertext is named `aes256gcm_seal` of the inputs; it is the plaintext's
/// length plus the 16-byte tag, and decrypting it with the same key and nonce
/// gives the plaintext back. It fails exactly when the plaintext is longer
/// than `P_MAX` (2^36 bytes).
#[verifier::external_body]
fn aes_seal(key: &[u8], nonce: &[u8], plaintext: &[u8]) -> (r: Result<Vec<u8>, aes_gcm::Error>)
    requires
        key@.len() == 32,
        nonce@.len() == NONCE_SIZE,
    ensures
        match r {
            Ok(c) => c@ == aes256gcm_seal(key@, nonce@, plaintext@) && c@.len() == plaintext@.len()
                + 16 && aes256gcm_open(key@, nonce@, c@) == Some(plaintext@),
            Err(_) => plaintext@.len() > max_plaintext(),
        },
        plaintext@.len() <= max_plaintext() ==> r is Ok,
{
    let cipher = aes_gcm::Aes256Gcm::new(aes_gcm::Key::<aes_gcm::Aes256Gcm>::from_slice(key));
    cipher.encrypt(aes_gcm::Nonce::from_slice(nonce), plaintext)
}

/// Calls `Aes256Gcm::decrypt` with this key and nonce and no associated data;
/// the result is named `aes256gcm_open` of the inputs.
#[verifier::external_body]
fn aes_open(key: &[u8], nonce: &[u8], ciphertext: &[u8]) -> (r: Result<Vec<u8>, aes_gcm::Error>)
    requires
        key@.len() == 32,
        nonce@.len() == NONCE_SIZE,
    ensures
        match r {
            Ok(p) => aes256gcm_open(key@, nonce@, ciphertext@) == Some(p@),
            Err(_) => aes256gcm_open(key@, nonce@, ciphertext@) is None,
        },
{
    let cipher = aes_gcm::Aes256Gcm::new(aes_gcm::Key::<aes_gcm::Aes256Gcm>::from_slice(key));
    cipher.decrypt(aes_gcm::Nonce::from_slice(nonce), ciphertext)
}

/// The key derived from a password: SHA-256 of its UTF-8 bytes.
pub open spec fn derived_key(password: Seq<char>) -> Seq<u8> {
    sha256_digest(encode_utf8(password))
}

/// What decrypting `enc` with `password` gives: the plaintext, or the error message.
pub open spec fn decryption_of(enc: Seq<u8>, password: Seq<char>) -> Result<Seq<u8>, Seq<char>> {
    if enc.len() < NONCE_SIZE {
        Err("Dados criptografados inválidos"@)
    } else {
        match aes256gcm_open(
            derived_key(password),
            enc.subrange(0, NONCE_SIZE as int),
            enc.subrange(NONCE_SIZE as int, enc.len() as int),
        ) {
            Some(p) => Ok(p),
            None => Err("Erro ao descriptografar: aead::Error"@),
        }
    }
}

/// Derives the AES-256 key from a password: the SHA-256 digest of its UTF-8 bytes.
pub fn derive_key(password: &str) -> (k: Vec<u8>)
    ensures
        k@ == derived_key(password@),
        k@.len() == 32,
{
    sha256(password.as_bytes())
}

fn copy_range(data: &[u8], from: usize, to: usize) -> (r: Vec<u8>)
    requires
        from <= to <= data@.len(),
    ensures
        r@ == data@.subrange(from as int, to as int),
{
    let mut r: Vec<u8> = Vec::new();
    let mut i: usize = from;
    while i < to
        invariant
            from <= i <= to <= data@.len(),
            r@ == data@.subrange(from as int, i as int),
        decreases to - i,
    {
        r.push(data[i]);
        i = i + 1;
    }
    r
}

/// Encrypts `data` with the password: a fresh nonce followed by the ciphertext.
/// Whatever nonce is drawn, the result decrypts with the same password back
/// to `data`.
pub fn encrypt(data: &[u8], password: &str) -> (r: Result<Vec<u8>, String>)
    ensures
        match r {
            Ok(out) => {
                &&& out@.len() == NONCE_SIZE + data@.len() + 16
                &&& out@.subrange(NONCE_SIZE as int, out@.len() as int) == aes256gcm_seal(
                    derived_key(password@),
                    out@.subrange(0, NONCE_SIZE as int),
                    data@,
                )
                &&& decryption_of(out@, password@) == Ok::<Seq<u8>, Seq<char>>(data@)
            },
            Err(m) => data@.len() > max_plaintext() && m@ == "Erro ao criptografar: aead::Error"@,
        },
        data@.len() <= max_plaintext() ==> r is Ok,
{
    let key = derive_key(password);
    let nonce = random_bytes(NONCE_SIZE);
    let ciphertext = match aes_seal(&key, &nonce, data) {
        Ok(c) => c,
        Err(e) => {
            let m = concat("Erro ao criptografar: ", aead_error_text(&e).as_str());
            proof {
                reveal_strlit("Erro ao criptografar: ");
                reveal_strlit("aead::Error");
                reveal_strlit("Erro ao criptografar: aead::Error");
                assert(m@ =~= "Erro ao criptografar: aead::Error"@);
            }
            return Err(m);
        },
    };
    let mut result: Vec<u8> = Vec::new();
    let mut i: usize = 0;
    while i < nonce.len()
        invariant
            i <= nonce@.len(),
            result@ == nonce@.subrange(0, i as int),
        decreases nonce@.len() - i,
    {
        result.push(nonce[i]);
        i = i + 1;
    }
    let mut j: usize = 0;
    while j < ciphertext.len()
        invariant
            j <= ciphertext@.len(),
            nonce@.len() == NONCE_SIZE,
            result@ == nonce@ + ciphertext@.subrange(0, j as int),
        decreases ciphertext@.len() - j,
    {
        result.push(ciphertext[j]);
        proof {
            assert(ciphertext@.subrange(0, j + 1) =~= ciphertext@.subrange(0, j as int).push(
                ciphertext@[j as int],
            ));
        }
        j = j + 1;
    }
    proof {
        assert(ciphertext@.subrange(0, ciphertext@.len() as int) =~= ciphertext@);
        assert(result@.subrange(0, NONCE_SIZE as int) =~= nonce@);
        assert(result@.subrange(NONCE_SIZE as int, result@.len() as int) =~= ciphertext@);
    }
    Ok(result)
}

/// Decrypts what [`encrypt`] produced with the password.
pub fn decrypt(encrypted_data: &[u8], password: &str) -> (r: Result<Vec<u8>, String>)
    ensures
        match r {
            Ok(p) => decryption_of(encrypted_data@, password@) == Ok::<Seq<u8>, Seq<char>>(p@),
            Err(m) => decryption_of(encrypted_data@, password@) == Err::<Seq<u8>, Seq<char>>(m@),
        },
{
    if encrypted_data.len() < NONCE_SIZE {
        return Err("Dados criptografados inválidos".to_owned());
    }
    let key = derive_key(password);
    let nonce = copy_range(encrypted_data, 0, NONCE_SIZE);
    let ciphertext = copy_range(encrypted_data, NONCE_SIZE, encrypted_data.len());
    match aes_open(&key, &nonce, &ciphertext) {
        Ok(p) => Ok(p),
        Err(e) => {
            let m = concat("Erro ao descriptografar: ", aead_error_text(&e).as_str());
            proof {
                reveal_strlit("Erro ao descriptografar: ");
                reveal_strlit("aead::Error");
                reveal_strlit("Erro ao descriptografar: aead::Error");
                assert(m@ =~= "Erro ao descriptografar: aead::Error"@);
            }
            Err(m)
        },
    }
}

/// `s` with the suffix taken off as often as it ends with it
/// (`str::trim_end_matches`).
pub open spec fn trim_suffix_all(s: Seq<char>, suffix: Seq<char>) -> Seq<char>
    decreases s.len(),
{
    if suffix.len() > 0 && suffix.len() <= s.len() && s.subrange(
        s.len() - suffix.len(),
        s.len() as int,
    ) == suffix {
        trim_suffix_all(s.subrange(0, s.len() - suffix.len()), suffix)
    } else {
        s
    }
}

/// The name an encrypted file gets: the original name followed by `.f1enc`.
pub fn encrypted_file_name(name: &str) -> (r: String)
    ensures
        r@ == name@ + ".f1enc"@,
{
    concat(name, ".f1enc")
}

/// The name a decrypted file gets: the name with every trailing `.f1enc` removed.
pub fn decrypted_file_name(name: &str) -> (r: String)
    ensures
        r@ == trim_suffix_all(name@, ".f1enc"@),
{
    let suffix = chars_of(".f1enc");
    let mut cs = chars_of(name);
    proof {
        reveal_strlit(".f1enc");
        assert(suffix@.len() == 6);
    }
    while has_suffix(&cs, &suffix)
        invariant
            suffix@ == ".f1enc"@,
            suffix@.len() == 6,
            trim_suffix_all(cs@, suffix@) == trim_suffix_all(name@, ".f1enc"@),
        decreases cs@.len(),
    {
        let keep: usize = cs.len() - suffix.len();
        cs.truncate(keep);
    }
    string_from_chars(&cs)
}

/// Decrypting the name of an encrypted file gives back the original name,
/// unless that name itself ends in `.f1enc` (every trailing `.f1enc` is
/// removed).
pub proof fn law_encrypted_name_round_trip(name: Seq<char>)
    requires
        !(name.len() >= 6 && name.subrange(name.len() - 6, name.len() as int) == ".f1enc"@),
    ensures
        trim_suffix_all(name + ".f1enc"@, ".f1enc"@) == name,
{
    reveal_strlit(".f1enc");
    let s = name + ".f1enc"@;
    assert(s.subrange(s.len() - 6, s.len() as int) =~= ".f1enc"@);
    assert(s.subrange(0, s.len() - 6) =~= name);
    assert(".f1enc"@.len() == 6);
    assert(trim_suffix_all(s, ".f1enc"@) == trim_suffix_all(name, ".f1enc"@));
    assert(trim_suffix_all(name, ".f1enc"@) == name);
}

} // verus!
