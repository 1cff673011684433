//! Encrypting and decrypting the text of a block with ChaCha20-Poly1305. The
//! password is the key, so it must have 32 bytes; the nonce has 12.

use vstd::prelude::*;
use vstd::string::{StrSliceExecFns, StringSliceAdditionalSpecFns};
use vstd::utf8::{decode_utf8, valid_utf8};
use chacha20poly1305::aead::{Aead, NewAead};
use chacha20poly1305::{ChaCha20Poly1305, Key, Nonce};
use rand::{Rng, SeedableRng};
use crate::text_crypt::parse::{EncryptedCryptBlock, EncryptedCryptBlockView};

verus! {

/// The number of bytes of a key.
pub const KEY_LEN: usize = 32;

/// The number of bytes of a nonce.
pub const NONCE_LEN: usize = 12;

/// The name of the algorithm, as encrypted blocks carry it.
pub const ALGORITHM: &'static str = "ChaCha20Poly1305";

/// What ChaCha20-Poly1305 makes of a plaintext under a key and a nonce:
/// the ciphertext with its tag, or nothing where it fails.
pub uninterp spec fn chacha20poly1305_sealed(key: Seq<u8>, nonce: Seq<u8>, plaintext: Seq<u8>) -> Option<Seq<u8>>;

/// What ChaCha20-Poly1305 makes of a ciphertext under a key and a nonce:
/// the plaintext, or nothing where the ciphertext is not authentic.
pub uninterp spec fn chacha20poly1305_opened(key: Seq<u8>, nonce: Seq<u8>, ciphertext: Seq<u8>) -> Option<Seq<u8>>;

/// `ChaCha20Poly1305::new` and `Aead::encrypt`. The cipher refuses a plaintext
/// of `u32::MAX` blocks of 64 bytes or more, and no other.
#[verifier::external_body]
pub(crate) fn seal(key: &Vec<u8>, nonce: &Vec<u8>, plaintext: &Vec<u8>) -> (sealed: Option<Vec<u8>>)
    requires
        key.len() == KEY_LEN,
        nonce.len() == NONCE_LEN,
    ensures
        sealed is Some <==> chacha20poly1305_sealed(key@, nonce@, plaintext@) is Some,
        sealed is Some ==> sealed->0@ == chacha20poly1305_sealed(key@, nonce@, plaintext@)->0,
        fits_cipher(plaintext@.len()) ==> sealed is Some,
{
    let cipher = ChaCha20Poly1305::new(Key::from_slice(key.as_slice()));
    cipher.encrypt(Nonce::from_slice(nonce.as_slice()), plaintext.as_slice()).ok()
}

/// `ChaCha20Poly1305::new` and `Aead::decrypt`.
#[verifier::external_body]
pub(crate) fn open(key: &Vec<u8>, nonce: &Vec<u8>, ciphertext: &Vec<u8>) -> (opened: Option<Vec<u8>>)
    requires
        key.len() == KEY_LEN,
        nonce.len() == NONCE_LEN,
    ensures
        opened is Some <==> chacha20poly1305_opened(key@, nonce@, ciphertext@) is Some,
        opened is Some ==> opened->0@ == chacha20poly1305_opened(key@, nonce@, ciphertext@)->0,
{
    let cipher = ChaCha20Poly1305::new(Key::from_slice(key.as_slice()));
    cipher.decrypt(Nonce::from_slice(nonce.as_slice()), ciphertext.as_slice()).ok()
}

/// `ChaCha20Rng::from_entropy` and `Rng::fill`: as many random bytes as asked
/// for.
#[verifier::external_body]
fn random_bytes(count: usize) -> (bytes: Vec<u8>)
    ensures
        bytes.len() == count,
{
    let mut bytes = vec![0u8; count];
    rand_chacha::ChaCha20Rng::from_entropy().fill(&mut bytes[..]);
    bytes
}

/// `String::from_utf8`: the text that the bytes encode, or nothing where they
/// are not UTF-8.
#[verifier::external_body]
pub(crate) fn utf8_text(bytes: Vec<u8>) -> (text: Option<String>)
    ensures
        text is Some <==> valid_utf8(bytes@),
        text is Some ==> text->0@ == decode_utf8(bytes@),
{
    String::from_utf8(bytes).ok()
}

/// Why a text could not be encrypted.
#[derive(Debug, Clone, Copy, PartialEq, Eq, Structural)]
pub enum CryptoEncryptError {
    /// The cipher failed.
    Encryption,
}

/// Why a block could not be decrypted.
#[derive(Debug, Clone, Copy, PartialEq, Eq, Structural)]
pub enum CryptoDecryptError {
    /// The ciphertext is not authentic under the key and the nonce.
    Decryption,
    /// The plaintext is not UTF-8.
    Utf8FromBytes,
}

impl CryptoEncryptError {
    /// The message of the error.
    pub fn message(self) -> (r: &'static str)
        ensures
            r@ == "Failed encryption"@,
    {
        "Failed encryption"
    }
}

impl CryptoDecryptError {
    /// The message of the error.
    pub fn message(self) -> (r: &'static str)
        ensures
            r@ == (match self {
                CryptoDecryptError::Decryption => "Failed decryption"@,
                CryptoDecryptError::Utf8FromBytes => "Failed parsing utf-8 from decrypted bytes"@,
            }),
    {
        match self {
            CryptoDecryptError::Decryption => "Failed decryption",
            CryptoDecryptError::Utf8FromBytes => "Failed parsing utf-8 from decrypted bytes",
        }
    }
}

/// A new random nonce.
pub fn generate_random_nonce() -> (nonce: Vec<u8>)
    ensures
        nonce.len() == NONCE_LEN,
{
    random_bytes(NONCE_LEN)
}

/// The block that encrypting `contents` under `password` and `nonce` gives.
pub open spec fn encrypt_spec(password: Seq<u8>, nonce: Seq<u8>, contents: Seq<u8>) -> Result<
    EncryptedCryptBlockView,
    CryptoEncryptError,
> {
    match chacha20poly1305_sealed(password, nonce, contents) {
        Some(ciphertext) => Ok(
            EncryptedCryptBlockView { algorithm: ALGORITHM@, nonce, ciphertext },
        ),
        None => Err(CryptoEncryptError::Encryption),
    }
}

/// Encrypts `contents` under `password` and the given nonce.
pub fn encrypt_with_nonce(password: &str, contents: &str, nonce: Vec<u8>) -> (r: Result<
    EncryptedCryptBlock,
    CryptoEncryptError,
>)
    requires
        password.spec_bytes().len() == KEY_LEN,
        nonce.len() == NONCE_LEN,
    ensures
        r is Ok <==> encrypt_spec(password.spec_bytes(), nonce@, contents.spec_bytes()) is Ok,
        r is Ok ==> r->Ok_0@ == encrypt_spec(
            password.spec_bytes(),
            nonce@,
            contents.spec_bytes(),
        )->Ok_0,
        r is Err ==> r->Err_0 == CryptoEncryptError::Encryption,
        fits_cipher(contents.spec_bytes().len()) ==> r is Ok,
{
    let key = password.as_bytes_vec();
    let plaintext = contents.as_bytes_vec();
    match seal(&key, &nonce, &plaintext) {
        Some(ciphertext) => Ok(
            EncryptedCryptBlock { algorithm: ALGORITHM.to_owned(), nonce, ciphertext },
        ),
        None => Err(CryptoEncryptError::Encryption),
    }
}

/// Encrypts `contents` under `password` and a new random nonce. It succeeds
/// on every text that the cipher takes; where it fails, the cipher refused
/// the text under the nonce that was drawn.
pub fn encrypt(password: &str, contents: &str) -> (r: Result<EncryptedCryptBlock, CryptoEncryptError>)
    requires
        password.spec_bytes().len() == KEY_LEN,
    ensures
        r matches Ok(block) ==> block@.nonce.len() == NONCE_LEN && Ok::<_, CryptoEncryptError>(
            block@,
        ) == encrypt_spec(password.spec_bytes(), block@.nonce, contents.spec_bytes()),
        r is Err ==> r->Err_0 == CryptoEncryptError::Encryption,
        fits_cipher(contents.spec_bytes().len()) ==> r is Ok,
        r is Err ==> exists|nonce: Seq<u8>|
            nonce.len() == NONCE_LEN && #[trigger] encrypt_spec(
                password.spec_bytes(),
                nonce,
                contents.spec_bytes(),
            ) is Err,
{
    let nonce = generate_random_nonce();
    let ghost drawn = nonce@;
    let r = encrypt_with_nonce(password, contents, nonce);
    proof {
        if r is Err {
            assert(encrypt_spec(password.spec_bytes(), drawn, contents.spec_bytes()) is Err);
        }
    }
    r
}

/// The number of bytes of one block of the cipher's key stream.
pub const BLOCK_LEN: usize = 64;

/// The number of whole blocks from which on the cipher refuses a plaintext.
pub const MAX_BLOCKS: usize = 0xffff_ffff;

/// Whether the cipher takes a plaintext of `len` bytes: one of fewer than
/// [`MAX_BLOCKS`] whole blocks.
pub open spec fn fits_cipher(len: nat) -> bool {
    len / (BLOCK_LEN as nat) < MAX_BLOCKS
}

/// The text that decrypting under `password` gives for a nonce and a
/// ciphertext.
pub open spec fn decrypt_spec(password: Seq<u8>, nonce: Seq<u8>, ciphertext: Seq<u8>) -> Result<
    Seq<char>,
    CryptoDecryptError,
> {
    match chacha20poly1305_opened(password, nonce, ciphertext) {
        None => Err(CryptoDecryptError::Decryption),
        Some(plaintext) => if valid_utf8(plaintext) {
            Ok(decode_utf8(plaintext))
        } else {
            Err(CryptoDecryptError::Utf8FromBytes)
        },
    }
}

/// Decrypts an armored block under `password`.
pub fn decrypt(password: &str, encrypted: &EncryptedCryptBlock) -> (r: Result<
    String,
    CryptoDecryptError,
>)
    requires
        password.spec_bytes().len() == KEY_LEN,
        encrypted@.nonce.len() == NONCE_LEN,
    ensures
        r is Ok <==> decrypt_spec(password.spec_bytes(), encrypted@.nonce, encrypted@.ciphertext) is Ok,
        r is Ok ==> r->Ok_0@ == decrypt_spec(
            password.spec_bytes(),
            encrypted@.nonce,
            encrypted@.ciphertext,
        )->Ok_0,
        r is Err ==> r->Err_0 == decrypt_spec(
            password.spec_bytes(),
            encrypted@.nonce,
            encrypted@.ciphertext,
        )->Err_0,
{
    let key = password.as_bytes_vec();
    match open(&key, &encrypted.nonce, &encrypted.ciphertext) {
        None => Err(CryptoDecryptError::Decryption),
        Some(plaintext) => match utf8_text(plaintext) {
            Some(text) => Ok(text),
            None => Err(CryptoDecryptError::Utf8FromBytes),
        },
    }
}

/// Whether `password` can serve as a key.
pub fn is_key(password: &str) -> (r: bool)
    ensures
        r == (password.spec_bytes().len() == KEY_LEN),
{
    password.as_bytes().len() == KEY_LEN
}

} // verus!
