//! Envelope encryption of the credentials at rest.
//!
//! A random data key (DEK) encrypts every value. The data key itself is wrapped under a key that
//! is derived from the user's passphrase (KEK), so the costly derivation happens once per unlock,
//! and a new passphrase only wraps the same data key anew. The cipher is ChaCha20-Poly1305, the
//! derivation Argon2id; each value and each wrap has a fresh random nonce.
//!
//! Every failure is the same [`EnvelopeError`]: a wrong key, damaged data and an unknown format
//! cannot be told apart from outside.
use argon2::Argon2;
use chacha20poly1305::aead::{Aead, KeyInit};
use chacha20poly1305::{ChaCha20Poly1305, Key, Nonce};
use rand::Rng;
use vstd::prelude::*;

verus! {

/// The length of a key in bytes.
pub const KEY_LEN: usize = 32;

/// The length of a nonce in bytes.
pub const NONCE_LEN: usize = 12;

/// The length of a salt in bytes.
pub const SALT_LEN: usize = 16;

/// The length in bytes of the tag that the cipher adds to a text.
pub const TAG_LEN: usize = 16;

/// The longest text that the cipher takes, in bytes: as many blocks of 64 as its counter has left
/// behind the one for the tag's key.
pub const MAX_TEXT_LEN: u64 = 0x3f_ffff_ff80;

/// What a wrapped data key begins with.
pub const WRAP_MAGIC: [u8; 8] = [0x51, 0x46, 0x53, 0x44, 0x45, 0x4b, 0x30, 0x31];

/// A failure of the envelope. It tells nothing of what failed.
#[derive(Debug, Clone, Copy, PartialEq, Eq, Structural)]
pub struct EnvelopeError;

impl EnvelopeError {
    /// The message for people.
    pub fn message(&self) -> (r: &'static str)
        ensures
            r@ == "envelope crypto operation failed (wrong key or corrupt data)"@,
    {
        "envelope crypto operation failed (wrong key or corrupt data)"
    }
}

// ---- the outside functions -------------------------------------------------------------------

/// The error of `argon2`.
#[verifier::external_type_specification]
#[verifier::external_body]
pub struct ExArgonError(argon2::Error);

/// The error of the cipher.
#[verifier::external_type_specification]
#[verifier::external_body]
pub struct ExCipherError(chacha20poly1305::Error);

/// The lengths of a passphrase and a salt that Argon2 takes.
pub open spec fn kdf_takes(passphrase: Seq<u8>, salt: Seq<u8>) -> bool {
    passphrase.len() <= 0xffff_ffff && 8 <= salt.len() <= 0xffff_ffff
}

/// The key that Argon2id derives from a passphrase and a salt, with the default parameters and 32
/// bytes of output.
pub uninterp spec fn argon2id_key(passphrase: Seq<u8>, salt: Seq<u8>) -> Seq<u8>;

/// Calls `Argon2::hash_password_into` on the default instance, with 32 bytes of output. It fails
/// exactly where the passphrase is longer than 2^32 - 1 bytes or the salt is shorter than 8 or
/// longer than that; the key is a function of the passphrase and the salt alone.
#[verifier::external_body]
fn argon2id(passphrase: &[u8], salt: &[u8]) -> (r: Result<[u8; 32], argon2::Error>)
    ensures
        match r {
            Ok(k) => kdf_takes(passphrase@, salt@) && k@ == argon2id_key(passphrase@, salt@),
            Err(_) => !kdf_takes(passphrase@, salt@),
        },
{
    let mut key = [0u8; 32];
    Argon2::default().hash_password_into(passphrase, salt, &mut key)?;
    Ok(key)
}

/// What ChaCha20-Poly1305 makes of a text: the encrypted text and its tag.
pub uninterp spec fn encrypted(key: Seq<u8>, nonce: Seq<u8>, text: Seq<u8>) -> Seq<u8>;

/// The text that ChaCha20-Poly1305 finds in an encrypted one; none where the tag does not fit.
pub uninterp spec fn decrypted(key: Seq<u8>, nonce: Seq<u8>, bytes: Seq<u8>) -> Option<Seq<u8>>;

/// Calls `Aead::encrypt` of `ChaCha20Poly1305`, without associated data. A text that is not longer
/// than [`MAX_TEXT_LEN`] is always encrypted; the result is a function of key, nonce and text, is
/// as long as the text and the tag, and decrypts to the text.
#[verifier::external_body]
fn aead_encrypt(key: &[u8; 32], nonce: &[u8; 12], text: &[u8]) -> (r: Result<
    Vec<u8>,
    chacha20poly1305::Error,
>)
    requires
        text@.len() <= MAX_TEXT_LEN,
    ensures
        r is Ok,
        r matches Ok(bytes) ==> bytes@ == encrypted(key@, nonce@, text@) && bytes@.len()
            == text@.len() + TAG_LEN && decrypted(key@, nonce@, bytes@) == Some(text@),
{
    ChaCha20Poly1305::new(Key::from_slice(key)).encrypt(Nonce::from_slice(nonce), text)
}

/// Calls `Aead::decrypt` of `ChaCha20Poly1305`, without associated data. Whether it succeeds, and
/// with which text, is a function of key, nonce and bytes; the text is shorter than the bytes by
/// the tag, so there is none in fewer bytes than that. The bytes are those that encrypting the text
/// gives: the tag is made anew and compared. That bytes which were changed, or another key, find no
/// text at all is overwhelmingly likely, but not certain, so it is not claimed.
#[verifier::external_body]
fn aead_decrypt(key: &[u8; 32], nonce: &[u8; 12], bytes: &[u8]) -> (r: Result<
    Vec<u8>,
    chacha20poly1305::Error,
>)
    requires
        bytes@.len() <= MAX_TEXT_LEN + TAG_LEN,
    ensures
        r matches Ok(text) ==> decrypted(key@, nonce@, bytes@) == Some(text@) && text@.len()
            + TAG_LEN == bytes@.len() && encrypted(key@, nonce@, text@) == bytes@,
        r is Err ==> decrypted(key@, nonce@, bytes@) is None,
{
    ChaCha20Poly1305::new(Key::from_slice(key)).decrypt(Nonce::from_slice(nonce), bytes)
}

/// Calls `Rng::fill_bytes` of the thread's generator. Nothing can be said of the bytes.
#[verifier::external_body]
fn random_bytes<const N: usize>() -> (r: [u8; N]) {
    let mut bytes = [0u8; N];
    rand::rng().fill_bytes(&mut bytes);
    bytes
}

// ---- keys and salts --------------------------------------------------------------------------

/// Whether the generator gave these bytes.
pub closed spec fn drawn<const N: usize>(r: [u8; N]) -> bool {
    call_ensures(random_bytes::<N>, (), r)
}

/// Whether the generator gave the bytes of this sequence.
pub open spec fn drawn_bytes<const N: usize>(s: Seq<u8>) -> bool {
    exists|r: [u8; N]| #[trigger] drawn::<N>(r) && r@ == s
}

/// A fresh random data key.
#[must_use]
pub fn generate_dek() -> (r: [u8; 32])
    ensures
        drawn::<32>(r),
{
    random_bytes::<32>()
}

/// A fresh random salt.
#[must_use]
pub fn generate_salt() -> (r: [u8; 16])
    ensures
        drawn::<16>(r),
{
    random_bytes::<16>()
}

/// Derives the key of a passphrase and a salt.
///
/// # Errors
/// [`EnvelopeError`] for a salt of fewer than 8 bytes, and for a passphrase or a salt of 2^32 bytes
/// or more.
pub fn derive_kek(passphrase: &[u8], salt: &[u8]) -> (r: Result<[u8; 32], EnvelopeError>)
    ensures
        r is Ok <==> kdf_takes(passphrase@, salt@),
        r matches Ok(k) ==> k@ == argon2id_key(passphrase@, salt@),
{
    match argon2id(passphrase, salt) {
        Ok(key) => Ok(key),
        Err(_) => Err(EnvelopeError),
    }
}

// ---- values ----------------------------------------------------------------------------------

/// Seals a value under a data key with this nonce.
///
/// # Errors
/// [`EnvelopeError`] for a value longer than [`MAX_TEXT_LEN`].
pub fn seal_with(dek: &[u8; 32], nonce: &[u8; 12], plaintext: &[u8]) -> (r: Result<
    Vec<u8>,
    EnvelopeError,
>)
    ensures
        r is Ok <==> plaintext@.len() <= MAX_TEXT_LEN,
        r matches Ok(bytes) ==> bytes@ == encrypted(dek@, nonce@, plaintext@) && bytes@.len()
            == plaintext@.len() + TAG_LEN && decrypted(dek@, nonce@, bytes@) == Some(plaintext@),
{
    if plaintext.len() as u64 > MAX_TEXT_LEN {
        return Err(EnvelopeError);
    }
    match aead_encrypt(dek, nonce, plaintext) {
        Ok(bytes) => Ok(bytes),
        Err(_) => Err(EnvelopeError),
    }
}

/// Seals a value under a data key with a fresh random nonce, and returns the nonce with it. What
/// was sealed opens again to the value.
///
/// # Errors
/// [`EnvelopeError`] for a value longer than [`MAX_TEXT_LEN`].
pub fn seal(dek: &[u8; 32], plaintext: &[u8]) -> (r: Result<([u8; 12], Vec<u8>), EnvelopeError>)
    ensures
        r is Ok <==> plaintext@.len() <= MAX_TEXT_LEN,
        r matches Ok((nonce, bytes)) ==> bytes@ == encrypted(dek@, nonce@, plaintext@)
            && bytes@.len() == plaintext@.len() + TAG_LEN && opened(dek@, nonce@, bytes@) == Some(
            plaintext@,
        ) && drawn::<12>(nonce),
{
    let nonce: [u8; 12] = random_bytes::<12>();
    match seal_with(dek, &nonce, plaintext) {
        Ok(bytes) => Ok((nonce, bytes)),
        Err(e) => Err(e),
    }
}

/// What opening a sealed value gives.
pub open spec fn opened(dek: Seq<u8>, nonce: Seq<u8>, bytes: Seq<u8>) -> Option<Seq<u8>> {
    if nonce.len() == NONCE_LEN && bytes.len() <= MAX_TEXT_LEN + TAG_LEN {
        decrypted(dek, nonce, bytes)
    } else {
        None
    }
}

/// The first bytes of a slice as a nonce.
fn nonce_from(bytes: &[u8], from: usize) -> (r: [u8; 12])
    requires
        from + NONCE_LEN <= bytes@.len(),
    ensures
        r@ == bytes@.subrange(from as int, from + NONCE_LEN),
{
    let n: usize = bytes.len();
    let mut r: [u8; 12] = [0u8; 12];
    let mut i: usize = 0;
    while i < 12
        invariant
            i <= 12,
            from + 12 <= n == bytes@.len(),
            forall|j: int| 0 <= j < i ==> r@[j] == bytes@[from + j],
        decreases 12 - i,
    {
        r[i] = bytes[from + i];
        i = i + 1;
    }
    assert(r@ =~= bytes@.subrange(from as int, from + NONCE_LEN));
    r
}

/// The bytes of a vector as a key.
fn key_from(bytes: &Vec<u8>) -> (r: [u8; 32])
    requires
        bytes@.len() == KEY_LEN,
    ensures
        r@ == bytes@,
{
    let mut r: [u8; 32] = [0u8; 32];
    let mut i: usize = 0;
    while i < 32
        invariant
            i <= 32,
            bytes@.len() == 32,
            forall|j: int| 0 <= j < i ==> r@[j] == bytes@[j],
        decreases 32 - i,
    {
        r[i] = bytes[i];
        i = i + 1;
    }
    assert(r@ =~= bytes@);
    r
}

/// The bytes of a slice from an index on.
fn bytes_from(bytes: &[u8], from: usize) -> (r: Vec<u8>)
    requires
        from <= bytes@.len(),
    ensures
        r@ == bytes@.subrange(from as int, bytes@.len() as int),
{
    let mut r: Vec<u8> = Vec::new();
    let mut i: usize = from;
    while i < bytes.len()
        invariant
            from <= i <= bytes@.len(),
            r@ == bytes@.subrange(from as int, i as int),
        decreases bytes.len() - i,
    {
        r.push(bytes[i]);
        i = i + 1;
        assert(r@ =~= bytes@.subrange(from as int, i as int));
    }
    r
}

/// Opens a sealed value. What opens is what sealing the value with the nonce gives, so bytes that
/// were changed never open to the value that was sealed.
///
/// # Errors
/// [`EnvelopeError`] for a nonce of another length than [`NONCE_LEN`], and where the key is not the
/// one that sealed or the bytes are not those that it made.
pub fn open(dek: &[u8; 32], nonce: &[u8], ciphertext: &[u8]) -> (r: Result<
    Vec<u8>,
    EnvelopeError,
>)
    ensures
        r is Ok <==> opened(dek@, nonce@, ciphertext@) is Some,
        r matches Ok(text) ==> opened(dek@, nonce@, ciphertext@) == Some(text@) && ciphertext@
            == encrypted(dek@, nonce@, text@),
        nonce@.len() != NONCE_LEN ==> r is Err,
{
    if nonce.len() != NONCE_LEN || ciphertext.len() as u64 > MAX_TEXT_LEN + 16 {
        return Err(EnvelopeError);
    }
    let n: [u8; 12] = nonce_from(nonce, 0);
    assert(n@ =~= nonce@);
    match aead_decrypt(dek, &n, ciphertext) {
        Ok(text) => Ok(text),
        Err(_) => Err(EnvelopeError),
    }
}

// ---- the data key ----------------------------------------------------------------------------

/// A wrapped data key: what it begins with, the nonce, the sealed key.
pub open spec fn wrapping(kek: Seq<u8>, nonce: Seq<u8>, dek: Seq<u8>) -> Seq<u8> {
    WRAP_MAGIC@ + nonce + encrypted(kek, nonce, dek)
}

/// The data key in a wrap, if the wrap has the format and opens under the key.
pub open spec fn unwrapped(kek: Seq<u8>, wrapped: Seq<u8>) -> Option<Seq<u8>> {
    if wrapped.len() < 20 || wrapped.take(8) != WRAP_MAGIC@ {
        None
    } else {
        match opened(kek, wrapped.subrange(8, 20), wrapped.subrange(20, wrapped.len() as int)) {
            Some(dek) => if dek.len() == KEY_LEN {
                Some(dek)
            } else {
                None
            },
            None => None,
        }
    }
}

/// Wraps a data key under the passphrase's key with this nonce.
///
/// # Errors
/// None in practice: a key is never too long to be sealed.
pub fn wrap_dek_with(kek: &[u8; 32], nonce: &[u8; 12], dek: &[u8; 32]) -> (r: Result<
    Vec<u8>,
    EnvelopeError,
>)
    ensures
        r is Ok,
        r matches Ok(w) ==> w@ == wrapping(kek@, nonce@, dek@) && unwrapped(kek@, w@) == Some(dek@),
{
    let sealed: Vec<u8> = match seal_with(kek, nonce, dek.as_slice()) {
        Ok(s) => s,
        Err(e) => return Err(e),
    };
    let mut w: Vec<u8> = Vec::new();
    w.extend_from_slice(WRAP_MAGIC.as_slice());
    w.extend_from_slice(nonce.as_slice());
    w.extend_from_slice(sealed.as_slice());
    assert(w@ =~= wrapping(kek@, nonce@, dek@));
    assert(w@.take(8) =~= WRAP_MAGIC@);
    assert(w@.subrange(8, 20) =~= nonce@);
    assert(w@.subrange(20, w@.len() as int) =~= sealed@);
    Ok(w)
}

/// Wraps a data key under the passphrase's key with a fresh random nonce. What was wrapped unwraps
/// again to the data key.
///
/// # Errors
/// None in practice: a key is never too long to be sealed.
pub fn wrap_dek(kek: &[u8; 32], dek: &[u8; 32]) -> (r: Result<Vec<u8>, EnvelopeError>)
    ensures
        r is Ok,
        r matches Ok(w) ==> unwrapped(kek@, w@) == Some(dek@) && exists|nonce: [u8; 12]| #[trigger]
            drawn::<12>(nonce) && w@ == wrapping(kek@, nonce@, dek@),
{
    let nonce: [u8; 12] = random_bytes::<12>();
    assert(drawn::<12>(nonce));
    wrap_dek_with(kek, &nonce, dek)
}

/// Unwraps a data key. What unwraps is what wrapping the key with its nonce gives, so a wrap that
/// was changed never unwraps to the key that was wrapped with the same nonce.
///
/// # Errors
/// [`EnvelopeError`] for an unknown format, for bytes that are cut off, and where the key is not
/// the one that wrapped or the bytes are not those that it made.
pub fn unwrap_dek(kek: &[u8; 32], wrapped: &[u8]) -> (r: Result<[u8; 32], EnvelopeError>)
    ensures
        r is Ok <==> unwrapped(kek@, wrapped@) is Some,
        r matches Ok(dek) ==> unwrapped(kek@, wrapped@) == Some(dek@) && wrapped@ == wrapping(
            kek@,
            wrapped@.subrange(8, 20),
            dek@,
        ),
        wrapped@.len() < 20 || wrapped@.take(8) != WRAP_MAGIC@ ==> r is Err,
{
    if wrapped.len() < 20 {
        return Err(EnvelopeError);
    }
    let mut i: usize = 0;
    while i < 8
        invariant
            i <= 8,
            wrapped@.len() >= 20,
            forall|j: int| 0 <= j < i ==> wrapped@[j] == WRAP_MAGIC@[j],
        decreases 8 - i,
    {
        if wrapped[i] != WRAP_MAGIC[i] {
            assert(wrapped@.take(8)[i as int] != WRAP_MAGIC@[i as int]);
            return Err(EnvelopeError);
        }
        i = i + 1;
    }
    assert(wrapped@.take(8) =~= WRAP_MAGIC@);
    let nonce: [u8; 12] = nonce_from(wrapped, 8);
    let sealed: Vec<u8> = bytes_from(wrapped, 20);
    let text: Vec<u8> = match open(kek, nonce.as_slice(), sealed.as_slice()) {
        Ok(t) => t,
        Err(e) => return Err(e),
    };
    if text.len() != KEY_LEN {
        return Err(EnvelopeError);
    }
    assert(wrapped@ =~= wrapping(kek@, wrapped@.subrange(8, 20), text@));
    Ok(key_from(&text))
}

// ---- laws ------------------------------------------------------------------------------------

/// What a key was wrapped as unwraps to the key, and what a value was sealed as opens to the value.
pub proof fn law_wraps_and_seals_read_back(
    kek: [u8; 32],
    dek: [u8; 32],
    wrapped: Vec<u8>,
    text: &[u8],
    nonce: [u8; 12],
    bytes: Vec<u8>,
)
    requires
        call_ensures(wrap_dek, (&kek, &dek), Ok::<Vec<u8>, EnvelopeError>(wrapped)),
        call_ensures(seal, (&dek, text), Ok::<([u8; 12], Vec<u8>), EnvelopeError>((nonce, bytes))),
    ensures
        unwrapped(kek@, wrapped@) == Some(dek@),
        opened(dek@, nonce@, bytes@) == Some(text@),
{
}

/// A new passphrase for the same data key touches no value: a value that was sealed opens, with the
/// nonce and the bytes that were made then, under the key that the new wrap unwraps to.
pub proof fn law_rewrapping_keeps_the_values(
    new_kek: [u8; 32],
    dek: [u8; 32],
    new_wrap: Vec<u8>,
    text: &[u8],
    nonce: [u8; 12],
    bytes: Vec<u8>,
)
    requires
        call_ensures(seal, (&dek, text), Ok::<([u8; 12], Vec<u8>), EnvelopeError>((nonce, bytes))),
        call_ensures(wrap_dek, (&new_kek, &dek), Ok::<Vec<u8>, EnvelopeError>(new_wrap)),
    ensures
        unwrapped(new_kek@, new_wrap@) is Some,
        opened(unwrapped(new_kek@, new_wrap@)->Some_0, nonce@, bytes@) == Some(text@),
{
}

/// Bytes without the format are never taken for a wrapped key, whatever the key.
pub proof fn law_unknown_format_never_unwraps(kek: Seq<u8>, wrapped: Seq<u8>)
    requires
        wrapped.len() < 20 || wrapped.take(8) != WRAP_MAGIC@,
    ensures
        unwrapped(kek, wrapped) is None,
{
}

} // verus!
