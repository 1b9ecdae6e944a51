//! Save-file encryption. The cipher comes from the `magic-crypt` crate:
//! AES-256 in CBC mode with PKCS7 padding, key and IV both derived from the
//! key phrase alone, so every value here is a function of the key phrase
//! and the input bytes.

use vstd::prelude::*;
use magic_crypt::MagicCrypt256;
use magic_crypt::MagicCryptError;
use magic_crypt::MagicCryptTrait;

verus! {

#[verifier::external_type_specification]
#[verifier::external_body]
pub struct ExMagicCrypt256(MagicCrypt256);

#[verifier::external_type_specification]
#[verifier::external_body]
pub struct ExMagicCryptError(MagicCryptError);

/// What the cipher built from `key` makes of `data`: AES-256-CBC with
/// PKCS7 padding, deterministic in `key` and `data`.
pub uninterp spec fn enc_of(key: Seq<char>, data: Seq<u8>) -> Seq<u8>;

/// What a cipher value holds: the key phrase it was built from.
pub uninterp spec fn cipher_key(c: MagicCrypt256) -> Seq<char>;

/// The library's own decryption error: the bytes were not produced by this
/// cipher.
#[derive(Clone, Copy, Debug, PartialEq, Eq, Structural)]
pub struct CryptoError;

/// A cipher bound to the key phrase it was built from.
pub struct Crypto {
    /// The underlying cipher value, opaque to the verifier.
    pub cipher: MagicCrypt256,
}

impl Crypto {
    /// The key phrase this cipher was built from.
    pub open spec fn key_spec(self) -> Seq<char> {
        cipher_key(self.cipher)
    }

    /// Relies on `MagicCrypt256::new` (magic-crypt): the cipher's key is
    /// the SHA-256 of the key phrase and its IV is fixed, so the cipher is
    /// a function of the key phrase alone.
    #[verifier::external_body]
    pub fn new(key: &str) -> (c: Crypto)
        ensures
            cipher_key(c.cipher) == key@,
    {
        Crypto { cipher: MagicCrypt256::new(key, None::<&[u8]>) }
    }

    /// Relies on `MagicCrypt256::encrypt_bytes_to_bytes` (magic-crypt):
    /// AES-256-CBC/PKCS7 with key and IV derived from the key phrase, so
    /// the ciphertext depends on the key phrase and the data alone.
    #[verifier::external_body]
    pub fn encrypt(&self, data: &[u8]) -> (r: Vec<u8>)
        ensures
            r@ == enc_of(self.key_spec(), data@),
    {
        self.cipher.encrypt_bytes_to_bytes(data)
    }

    /// Relies on `MagicCrypt256::decrypt_bytes_to_bytes` (magic-crypt):
    /// CBC decryption with PKCS7 unpadding inverts the encryption under
    /// the same cipher, so a ciphertext this cipher produced decrypts to
    /// the bytes it was produced from.
    #[verifier::external_body]
    fn decrypt_raw(&self, data: &[u8]) -> (r: Result<Vec<u8>, MagicCryptError>)
        ensures
            forall|d: Seq<u8>|
                data@ == enc_of(self.key_spec(), d) ==> r is Ok && r->Ok_0@ == d,
    {
        self.cipher.decrypt_bytes_to_bytes(data)
    }

    /// Decrypt bytes this cipher once produced; anything else is refused
    /// with the library's own error.
    pub fn decrypt(&self, data: &[u8]) -> (r: Result<Vec<u8>, CryptoError>)
        ensures
            forall|d: Seq<u8>|
                data@ == enc_of(self.key_spec(), d) ==> r is Ok && r->Ok_0@ == d,
    {
        match self.decrypt_raw(data) {
            Ok(v) => Ok(v),
            Err(_) => Err(CryptoError),
        }
    }
}

} // verus!
