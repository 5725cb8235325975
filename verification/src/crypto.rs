//! AES-256-GCM decryption of `BACKUPENC1` files: `BACKUPENC1`, a 12-byte
//! nonce, then the ciphertext with its 16-byte tag; the key is the SHA-256 of
//! the password.
use vstd::prelude::*;

use aes_gcm::aead::{Aead, KeyInit};
use aes_gcm::{Aes256Gcm, Nonce};

use crate::digest::{sha256, sha256_digest};
use crate::text::{chars_of, contains, ends_with, ends_with_chars, slice_chars, string_of};
use vstd::string::StringSliceAdditionalSpecFns;

verus! {

pub const MAGIC: [u8; 10] = [66, 65, 67, 75, 85, 80, 69, 78, 67, 49];

pub const NONCE_LEN: usize = 12;

pub open spec fn magic() -> Seq<u8> {
    seq![66u8, 65u8, 67u8, 75u8, 85u8, 80u8, 69u8, 78u8, 67u8, 49u8]
}

/// What AES-256-GCM decryption of `ciphertext` (with tag) gives under `key` and
/// `nonce`; `None` when the tag does not verify.
pub uninterp spec fn aes256gcm_open(key: Seq<u8>, nonce: Seq<u8>, ciphertext: Seq<u8>) -> Option<
    Seq<u8>,
>;

/// `Aes256Gcm::new_from_slice(key)` then `decrypt(nonce, ciphertext)`; the
/// plaintext is the ciphertext without its 16-byte tag.
#[verifier::external_body]
fn aes256gcm_decrypt(key: &[u8], nonce: &[u8], ciphertext: &[u8]) -> (r: Option<Vec<u8>>)
    requires
        key@.len() == 32,
        nonce@.len() == 12,
    ensures
        r is Some <==> aes256gcm_open(key@, nonce@, ciphertext@) is Some,
        r matches Some(p) ==> p@ == aes256gcm_open(key@, nonce@, ciphertext@)->0,
        r matches Some(p) ==> p@.len() + 16 == ciphertext@.len(),
{
    match Aes256Gcm::new_from_slice(key) {
        Ok(cipher) => cipher.decrypt(Nonce::from_slice(nonce), ciphertext).ok(),
        Err(_) => None,
    }
}

/// Why a file could not be decrypted.
#[derive(Debug, Clone, PartialEq, Eq)]
pub enum DecryptError {
    TooShort,
    BadMagic,
    WrongPassword,
}

impl DecryptError {
    pub open spec fn text(&self) -> Seq<char> {
        match self {
            DecryptError::TooShort => "File too short for BACKUPENC1 format"@,
            DecryptError::BadMagic => "Not a BACKUPENC1 file (bad magic header)"@,
            DecryptError::WrongPassword => "Decryption failed (wrong password or corrupted file)"@,
        }
    }

    /// The message shown for this error.
    pub fn message(&self) -> (r: String)
        ensures
            r@ == self.text(),
    {
        match self {
            DecryptError::TooShort => string_of(&chars_of("File too short for BACKUPENC1 format")),
            DecryptError::BadMagic => string_of(
                &chars_of("Not a BACKUPENC1 file (bad magic header)"),
            ),
            DecryptError::WrongPassword => string_of(
                &chars_of("Decryption failed (wrong password or corrupted file)"),
            ),
        }
    }
}

/// The decryption key for a password.
pub open spec fn derive_key(password: &str) -> Seq<u8> {
    sha256_digest(password.spec_bytes())
}

/// The plaintext of a `BACKUPENC1` file.
pub fn decrypt_bytes(data: &[u8], password: &str) -> (r: Result<Vec<u8>, DecryptError>)
    ensures
        data@.len() < 38 ==> r == Err::<Vec<u8>, DecryptError>(DecryptError::TooShort),
        data@.len() >= 38 && data@.take(10) != magic() ==> r == Err::<Vec<u8>, DecryptError>(
            DecryptError::BadMagic,
        ),
        data@.len() >= 38 && data@.take(10) == magic() ==> ({
            let opened = aes256gcm_open(
                derive_key(password),
                data@.subrange(10, 22),
                data@.skip(22),
            );
            &&& opened is None ==> r == Err::<Vec<u8>, DecryptError>(DecryptError::WrongPassword)
            &&& opened is Some ==> r is Ok && r->Ok_0@ == opened->0
        }),
        r matches Ok(p) ==> p@.len() + 38 == data@.len(),
{
    if data.len() < 10 + NONCE_LEN + 16 {
        return Err(DecryptError::TooShort);
    }
    let mut i: usize = 0;
    while i < 10
        invariant
            i <= 10,
            data@.len() >= 38,
            forall|j: int| 0 <= j < i ==> data@[j] == magic()[j],
        decreases 10 - i,
    {
        if data[i] != MAGIC[i] {
            assert(data@.take(10)[i as int] != magic()[i as int]);
            return Err(DecryptError::BadMagic);
        }
        i = i + 1;
    }
    assert(data@.take(10) =~= magic());
    let nonce = &data[10..22];
    let ciphertext = &data[22..data.len()];
    assert(ciphertext@ =~= data@.skip(22));
    let key = sha256(password.as_bytes());
    match aes256gcm_decrypt(key.as_slice(), nonce, ciphertext) {
        Some(plain) => Ok(plain),
        None => Err(DecryptError::WrongPassword),
    }
}

/// The file name without its `.aes` suffix (`backup_foo.zip.aes` → `backup_foo.zip`).
pub fn plaintext_filename(encrypted_name: &str) -> (r: Option<String>)
    ensures
        ends_with(encrypted_name@, ".aes"@) ==> r is Some && r->0@ == encrypted_name@.take(
            encrypted_name@.len() - 4,
        ),
        !ends_with(encrypted_name@, ".aes"@) ==> r is None,
{
    let v = chars_of(encrypted_name);
    let suf = chars_of(".aes");
    proof {
        reveal_strlit(".aes");
    }
    if ends_with_chars(&v, &suf) {
        let base = slice_chars(&v, 0, v.len() - 4);
        Some(string_of(&base))
    } else {
        None
    }
}

/// Whether an error says the password is wrong.
pub fn is_wrong_password(err: &DecryptError) -> (r: bool)
    ensures
        r == contains(err.text(), "wrong password"@),
{
    let m = err.message();
    let mv = chars_of(m.as_str());
    let pat = chars_of("wrong password");
    crate::text::contains_chars(&mv, &pat)
}

} // verus!
