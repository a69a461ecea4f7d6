use vstd::prelude::*;
use vstd::slice::slice_subrange;

use pqcrypto_traits::kem::{Ciphertext as _, PublicKey as _, SecretKey as _, SharedSecret as _};
use aes_gcm::aead::{Aead, KeyInit};
use rand::RngCore;

verus! {

/// Byte length of a public key of the KEM parameter set in use (Kyber-1024).
pub const PUBLIC_KEY_BYTES: usize = 1568;

/// Byte length of a secret key.
pub const SECRET_KEY_BYTES: usize = 3168;

/// Where the secret key holds a copy of the public key.
pub const PUBLIC_KEY_OFFSET: usize = 1536;

/// Byte length of the random input that an encapsulation draws.
pub const ENCAPSULATION_COINS_BYTES: usize = 32;

/// Byte length of an encapsulation.
pub const ENCAPSULATION_BYTES: usize = 1568;

/// Byte length of a shared secret; it is at least the symmetric key's length.
pub const SHARED_SECRET_BYTES: usize = 32;

/// Byte length of the symmetric key, taken from the front of the key material.
pub const SYMMETRIC_KEY_BYTES: usize = 32;

/// Byte length of a nonce (96 bits).
pub const NONCE_BYTES: usize = 12;

/// Byte length of the integrity tag appended to a sealed message.
pub const TAG_BYTES: usize = 16;

/// The longest plaintext the cipher seals (2^36 bytes).
pub const MAX_PLAINTEXT_BYTES: u64 = 68719476736;

/// The shared secret that Kyber-1024 decapsulation recovers from an
/// encapsulation and a secret key. Nothing here relates it to
/// `kem_encapsulated`: Kyber decapsulates correctly only with overwhelming
/// probability (a failure rate near 2^-174 over keys and randomness), so for a
/// given key some of the 2^256 random inputs do not round-trip.
pub uninterp spec fn kem_shared_secret(encapsulation: Seq<u8>, secret_key: Seq<u8>) -> Seq<u8>;

/// What deterministic Kyber-1024 encapsulation (`crypto_kem_enc_derand`)
/// returns for a public key and 32 bytes of randomness: (encapsulation, secret).
pub uninterp spec fn kem_encapsulated(public_key: Seq<u8>, coins: Seq<u8>) -> (Seq<u8>, Seq<u8>);

/// The secret key carries the public key it belongs to.
pub open spec fn carries_public_key(public_key: Seq<u8>, secret_key: Seq<u8>) -> bool {
    secret_key.subrange(PUBLIC_KEY_OFFSET as int, (PUBLIC_KEY_OFFSET + PUBLIC_KEY_BYTES) as int)
        == public_key
}

/// An encapsulation and secret that encapsulating to a public key can yield.
pub open spec fn encapsulation_of(public_key: Seq<u8>, encapsulation: Seq<u8>, secret: Seq<u8>) -> bool {
    exists|coins: Seq<u8>|
        coins.len() == ENCAPSULATION_COINS_BYTES && #[trigger] kem_encapsulated(public_key, coins)
            == (encapsulation, secret)
}

/// The AES-256-GCM ciphertext, tag appended, of a message under a key and nonce.
pub uninterp spec fn aead_sealed(key: Seq<u8>, nonce: Seq<u8>, message: Seq<u8>) -> Seq<u8>;

/// What AES-256-GCM decryption returns: the message where the tag verifies.
pub uninterp spec fn aead_opened(key: Seq<u8>, nonce: Seq<u8>, ciphertext: Seq<u8>) -> Option<Seq<u8>>;

/// Relies on `pqcrypto_kyber::kyber1024::keypair`: a fresh random key pair, whose
/// byte forms have the parameter set's fixed lengths; the secret key holds a
/// copy of the public key after its first 1536 bytes.
#[verifier::external_body]
fn kem_keypair() -> (r: (Vec<u8>, Vec<u8>))
    ensures
        r.0@.len() == PUBLIC_KEY_BYTES,
        r.1@.len() == SECRET_KEY_BYTES,
        carries_public_key(r.0@, r.1@),
{
    let (pk, sk) = pqcrypto_kyber::kyber1024::keypair();
    (pk.as_bytes().to_vec(), sk.as_bytes().to_vec())
}

/// Relies on `kyber1024::PublicKey::from_bytes`, which refuses exactly the slices
/// of another length, and on `kyber1024::encapsulate`, which returns the shared
/// secret first and the encapsulation second: it draws 32 random bytes and
/// encapsulates deterministically with them. Returns (encapsulation, secret).
#[verifier::external_body]
fn kem_encapsulate(public_key: &[u8]) -> (r: Option<(Vec<u8>, Vec<u8>)>)
    ensures
        r.is_some() == (public_key@.len() == PUBLIC_KEY_BYTES),
        r matches Some(p) ==> p.0@.len() == ENCAPSULATION_BYTES && p.1@.len() == SHARED_SECRET_BYTES,
        r matches Some(p) ==> exists|coins: Seq<u8>|
            coins.len() == ENCAPSULATION_COINS_BYTES && #[trigger] kem_encapsulated(public_key@, coins)
                == (p.0@, p.1@),
{
    match pqcrypto_kyber::kyber1024::PublicKey::from_bytes(public_key) {
        Ok(pk) => {
            let (ss, ct) = pqcrypto_kyber::kyber1024::encapsulate(&pk);
            Some((ct.as_bytes().to_vec(), ss.as_bytes().to_vec()))
        },
        Err(_) => None,
    }
}

/// Relies on `kyber1024::Ciphertext::from_bytes` and `SecretKey::from_bytes`,
/// which refuse exactly the slices of another length, and on
/// `kyber1024::decapsulate`, which is deterministic.
#[verifier::external_body]
fn kem_decapsulate(encapsulation: &[u8], secret_key: &[u8]) -> (r: Option<Vec<u8>>)
    ensures
        r.is_some() == (encapsulation@.len() == ENCAPSULATION_BYTES && secret_key@.len()
            == SECRET_KEY_BYTES),
        r matches Some(ss) ==> ss@ == kem_shared_secret(encapsulation@, secret_key@) && ss@.len()
            == SHARED_SECRET_BYTES,
{
    let ct = pqcrypto_kyber::kyber1024::Ciphertext::from_bytes(encapsulation).ok()?;
    let sk = pqcrypto_kyber::kyber1024::SecretKey::from_bytes(secret_key).ok()?;
    Some(pqcrypto_kyber::kyber1024::decapsulate(&ct, &sk).as_bytes().to_vec())
}

/// Relies on `aes_gcm::Aes256Gcm`'s `encrypt`: it fails only on a message longer
/// than 2^36 bytes, and otherwise returns the ciphertext with a 16-byte tag.
#[verifier::external_body]
fn aes_encrypt(key: &[u8], nonce: &[u8], message: &[u8]) -> (r: Option<Vec<u8>>)
    requires
        key@.len() == SYMMETRIC_KEY_BYTES,
        nonce@.len() == NONCE_BYTES,
    ensures
        r.is_some() == (message@.len() <= MAX_PLAINTEXT_BYTES),
        r matches Some(c) ==> c@ == aead_sealed(key@, nonce@, message@) && c@.len()
            == message@.len() + TAG_BYTES,
{
    let cipher = aes_gcm::Aes256Gcm::new(aes_gcm::Key::<aes_gcm::Aes256Gcm>::from_slice(key));
    cipher.encrypt(aes_gcm::Nonce::from_slice(nonce), message).ok()
}

/// Relies on `aes_gcm::Aes256Gcm`'s `decrypt`: it returns the message that
/// `encrypt` sealed under the same key and nonce, and fails where the tag does
/// not verify. What it opens is the counter-mode inverse of the ciphertext under
/// a verified tag, so sealing it again gives the same ciphertext back.
#[verifier::external_body]
fn aes_decrypt(key: &[u8], nonce: &[u8], ciphertext: &[u8]) -> (r: Option<Vec<u8>>)
    requires
        key@.len() == SYMMETRIC_KEY_BYTES,
        nonce@.len() == NONCE_BYTES,
    ensures
        opt_bytes(r) == aead_opened(key@, nonce@, ciphertext@),
        forall|m: Seq<u8>|
            m.len() <= MAX_PLAINTEXT_BYTES && #[trigger] aead_sealed(key@, nonce@, m)
                == ciphertext@ ==> opt_bytes(r) == Some(m),
        r matches Some(m) ==> (m@.len() <= MAX_PLAINTEXT_BYTES ==> aead_sealed(key@, nonce@, m@)
            == ciphertext@),
{
    let cipher = aes_gcm::Aes256Gcm::new(aes_gcm::Key::<aes_gcm::Aes256Gcm>::from_slice(key));
    cipher.decrypt(aes_gcm::Nonce::from_slice(nonce), ciphertext).ok()
}

/// Relies on `rand::rngs::OsRng` through `RngCore::fill_bytes`: overwrites the
/// buffer with random bytes and keeps its length.
#[verifier::external_body]
fn fill_random(buf: &mut Vec<u8>)
    ensures
        final(buf)@.len() == old(buf)@.len(),
{
    rand::rngs::OsRng.fill_bytes(buf.as_mut_slice());
}

/// A fresh random nonce.
fn random_nonce() -> (r: Vec<u8>)
    ensures
        r@.len() == NONCE_BYTES,
{
    let mut nonce: Vec<u8> = Vec::new();
    let mut i: usize = 0;
    while i < NONCE_BYTES
        invariant
            i <= NONCE_BYTES,
            nonce@.len() == i,
        decreases NONCE_BYTES - i,
    {
        nonce.push(0u8);
        i = i + 1;
    }
    fill_random(&mut nonce);
    nonce
}

pub open spec fn opt_bytes(o: Option<Vec<u8>>) -> Option<Seq<u8>> {
    match o {
        Some(v) => Some(v@),
        None => None,
    }
}

/// What can go wrong in the hybrid cipher.
#[derive(PartialEq, Eq, Structural, Clone, Copy, Debug)]
pub enum CryptoError {
    /// A public or secret key of the wrong length.
    InvalidKey,
    /// An encapsulation of the wrong length.
    InvalidCiphertext,
    /// Key material shorter than the symmetric key.
    InsufficientKeyMaterial,
    /// The cipher refused to seal (a wrong nonce length, an oversized message).
    EncryptionFailure,
    /// The tag did not verify, or the inputs were malformed.
    DecryptionFailure,
}

/// The outputs of an encapsulation, named so that they cannot be swapped.
pub struct Encapsulated {
    /// Sent along with the message; only the secret key can open it.
    pub encapsulation: Vec<u8>,
    /// Kept by the sender, to key the cipher.
    pub shared_secret: Vec<u8>,
}

/// A participant's KEM key pair.
pub struct UserKeys {
    pub public_key: Vec<u8>,
    pub secret_key: Vec<u8>,
}

/// The symmetric key taken from key material: its first 32 bytes.
pub open spec fn symmetric_key(key_material: Seq<u8>) -> Seq<u8> {
    key_material.subrange(0, SYMMETRIC_KEY_BYTES as int)
}

/// What `seal` returns.
pub open spec fn seal_result(key_material: Seq<u8>, nonce: Seq<u8>, plaintext: Seq<u8>) -> Result<
    Seq<u8>,
    CryptoError,
> {
    if key_material.len() < SYMMETRIC_KEY_BYTES {
        Err(CryptoError::InsufficientKeyMaterial)
    } else if nonce.len() != NONCE_BYTES || plaintext.len() > MAX_PLAINTEXT_BYTES {
        Err(CryptoError::EncryptionFailure)
    } else {
        Ok(aead_sealed(symmetric_key(key_material), nonce, plaintext))
    }
}

/// What `open` returns.
pub open spec fn open_result(key_material: Seq<u8>, nonce: Seq<u8>, ciphertext: Seq<u8>) -> Result<
    Seq<u8>,
    CryptoError,
> {
    if key_material.len() < SYMMETRIC_KEY_BYTES {
        Err(CryptoError::InsufficientKeyMaterial)
    } else if nonce.len() != NONCE_BYTES {
        Err(CryptoError::DecryptionFailure)
    } else {
        match aead_opened(symmetric_key(key_material), nonce, ciphertext) {
            Some(m) => Ok(m),
            None => Err(CryptoError::DecryptionFailure),
        }
    }
}

pub open spec fn res_bytes(r: Result<Vec<u8>, CryptoError>) -> Result<Seq<u8>, CryptoError> {
    match r {
        Ok(v) => Ok(v@),
        Err(e) => Err(e),
    }
}

/// Generates a fresh KEM key pair: (public key, secret key).
pub fn generate_keypair() -> (r: (Vec<u8>, Vec<u8>))
    ensures
        r.0@.len() == PUBLIC_KEY_BYTES,
        r.1@.len() == SECRET_KEY_BYTES,
        carries_public_key(r.0@, r.1@),
{
    kem_keypair()
}

/// Encapsulates a fresh shared secret to a public key.
pub fn encapsulate(public_key: &[u8]) -> (r: Result<Encapsulated, CryptoError>)
    ensures
        match r {
            Ok(e) => public_key@.len() == PUBLIC_KEY_BYTES && e.encapsulation@.len()
                == ENCAPSULATION_BYTES && e.shared_secret@.len() == SHARED_SECRET_BYTES
                && encapsulation_of(public_key@, e.encapsulation@, e.shared_secret@),
            Err(err) => public_key@.len() != PUBLIC_KEY_BYTES && err == CryptoError::InvalidKey,
        },
{
    match kem_encapsulate(public_key) {
        Some((encapsulation, shared_secret)) => Ok(Encapsulated { encapsulation, shared_secret }),
        None => Err(CryptoError::InvalidKey),
    }
}

/// Recovers the shared secret of an encapsulation with a secret key.
pub fn decapsulate(encapsulation: &[u8], secret_key: &[u8]) -> (r: Result<Vec<u8>, CryptoError>)
    ensures
        match r {
            Ok(ss) => encapsulation@.len() == ENCAPSULATION_BYTES && secret_key@.len()
                == SECRET_KEY_BYTES && ss@ == kem_shared_secret(encapsulation@, secret_key@)
                && ss@.len() == SHARED_SECRET_BYTES,
            Err(e) => if encapsulation@.len() != ENCAPSULATION_BYTES {
                e == CryptoError::InvalidCiphertext
            } else {
                secret_key@.len() != SECRET_KEY_BYTES && e == CryptoError::InvalidKey
            },
        },
{
    if encapsulation.len() != ENCAPSULATION_BYTES {
        return Err(CryptoError::InvalidCiphertext);
    }
    match kem_decapsulate(encapsulation, secret_key) {
        Some(ss) => Ok(ss),
        None => Err(CryptoError::InvalidKey),
    }
}

/// Seals a message under the first 32 bytes of the key material and a nonce.
pub fn seal(key_material: &[u8], nonce: &[u8], plaintext: &[u8]) -> (r: Result<Vec<u8>, CryptoError>)
    ensures
        res_bytes(r) == seal_result(key_material@, nonce@, plaintext@),
        r matches Ok(c) ==> c@.len() == plaintext@.len() + TAG_BYTES,
{
    if key_material.len() < SYMMETRIC_KEY_BYTES {
        return Err(CryptoError::InsufficientKeyMaterial);
    }
    if nonce.len() != NONCE_BYTES {
        return Err(CryptoError::EncryptionFailure);
    }
    let key = slice_subrange(key_material, 0, SYMMETRIC_KEY_BYTES);
    match aes_encrypt(key, nonce, plaintext) {
        Some(c) => Ok(c),
        None => Err(CryptoError::EncryptionFailure),
    }
}

/// Opens a sealed message. A ciphertext that `seal` made from `m` with the same
/// key material and nonce opens to `m`; and whatever opens is exactly what
/// sealing the opened message gives, so a ciphertext altered in any bit never
/// opens to the message of the unaltered one.
pub fn open(key_material: &[u8], nonce: &[u8], ciphertext: &[u8]) -> (r: Result<Vec<u8>, CryptoError>)
    ensures
        res_bytes(r) == open_result(key_material@, nonce@, ciphertext@),
        forall|m: Seq<u8>|
            #[trigger] seal_result(key_material@, nonce@, m) == Ok::<Seq<u8>, CryptoError>(
                ciphertext@,
            ) ==> res_bytes(r) == Ok::<Seq<u8>, CryptoError>(m),
        r matches Ok(m) ==> (m@.len() <= MAX_PLAINTEXT_BYTES ==> seal_result(
            key_material@,
            nonce@,
            m@,
        ) == Ok::<Seq<u8>, CryptoError>(ciphertext@)),
{
    if key_material.len() < SYMMETRIC_KEY_BYTES {
        return Err(CryptoError::InsufficientKeyMaterial);
    }
    if nonce.len() != NONCE_BYTES {
        return Err(CryptoError::DecryptionFailure);
    }
    let key = slice_subrange(key_material, 0, SYMMETRIC_KEY_BYTES);
    let r = match aes_decrypt(key, nonce, ciphertext) {
        Some(m) => Ok(m),
        None => Err(CryptoError::DecryptionFailure),
    };
    assert forall|m: Seq<u8>|
        #[trigger] seal_result(key_material@, nonce@, m) == Ok::<Seq<u8>, CryptoError>(
            ciphertext@,
        ) implies res_bytes(r) == Ok::<Seq<u8>, CryptoError>(m) by {
        assert(aead_sealed(key@, nonce@, m) == ciphertext@);
    }
    r
}

/// Encrypts a message to a receiver's public key: encapsulates a fresh shared
/// secret, seals the message under it with a fresh nonce, and returns
/// (sealed message, nonce, encapsulation).
pub fn send_message(message: &[u8], receiver_pk: &[u8]) -> (r: Result<
    (Vec<u8>, Vec<u8>, Vec<u8>),
    CryptoError,
>)
    ensures
        match r {
            Ok((c, n, e)) => receiver_pk@.len() == PUBLIC_KEY_BYTES && n@.len() == NONCE_BYTES
                && e@.len() == ENCAPSULATION_BYTES && c@.len() == message@.len() + TAG_BYTES
                && exists|ss: Seq<u8>|
                #![trigger encapsulation_of(receiver_pk@, e@, ss)]
                ss.len() == SHARED_SECRET_BYTES && encapsulation_of(receiver_pk@, e@, ss)
                    && seal_result(ss, n@, message@) == Ok::<Seq<u8>, CryptoError>(c@),
            Err(err) => if receiver_pk@.len() != PUBLIC_KEY_BYTES {
                err == CryptoError::InvalidKey
            } else {
                message@.len() > MAX_PLAINTEXT_BYTES && err == CryptoError::EncryptionFailure
            },
        },
{
    let encapsulated = match encapsulate(receiver_pk) {
        Ok(e) => e,
        Err(err) => return Err(err),
    };
    let nonce = random_nonce();
    match seal(encapsulated.shared_secret.as_slice(), nonce.as_slice(), message) {
        Ok(c) => {
            assert(seal_result(encapsulated.shared_secret@, nonce@, message@) == Ok::<
                Seq<u8>,
                CryptoError,
            >(c@));
            Ok((c, nonce, encapsulated.encapsulation))
        },
        Err(e) => Err(e),
    }
}

/// What `receive_message` returns.
pub open spec fn receive_result(
    ciphertext: Seq<u8>,
    nonce: Seq<u8>,
    encapsulation: Seq<u8>,
    secret_key: Seq<u8>,
) -> Result<Seq<u8>, CryptoError> {
    if encapsulation.len() != ENCAPSULATION_BYTES {
        Err(CryptoError::InvalidCiphertext)
    } else if secret_key.len() != SECRET_KEY_BYTES {
        Err(CryptoError::InvalidKey)
    } else {
        open_result(kem_shared_secret(encapsulation, secret_key), nonce, ciphertext)
    }
}

/// Decrypts a message: recovers the shared secret from the encapsulation with
/// the secret key, then opens the sealed message under it.
pub fn receive_message(ciphertext: &[u8], nonce: &[u8], kyber_ct: &[u8], sk: &[u8]) -> (r: Result<
    Vec<u8>,
    CryptoError,
>)
    ensures
        res_bytes(r) == receive_result(ciphertext@, nonce@, kyber_ct@, sk@),
        kyber_ct@.len() == ENCAPSULATION_BYTES && sk@.len() == SECRET_KEY_BYTES ==> kem_shared_secret(
            kyber_ct@,
            sk@,
        ).len() == SHARED_SECRET_BYTES,
        forall|m: Seq<u8>|
            kyber_ct@.len() == ENCAPSULATION_BYTES && sk@.len() == SECRET_KEY_BYTES
                && #[trigger] seal_result(kem_shared_secret(kyber_ct@, sk@), nonce@, m) == Ok::<
                Seq<u8>,
                CryptoError,
            >(ciphertext@) ==> res_bytes(r) == Ok::<Seq<u8>, CryptoError>(m),
{
    let shared_secret = match decapsulate(kyber_ct, sk) {
        Ok(ss) => ss,
        Err(e) => return Err(e),
    };
    open(shared_secret.as_slice(), nonce, ciphertext)
}

} // verus!
