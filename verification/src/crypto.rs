//! Trusted bindings to the cryptographic primitives.
//!
//! Every function here is believed, not proved: each wraps one operation
//! of an outside cryptography crate and states no more than that crate's
//! documentation promises.  Results that no short formula can pin down
//! (digests, signatures, derived keys) are given uninterpreted names, so
//! that verified callers can reason about equality of results without the
//! library pretending to know the algorithms themselves.

use vstd::prelude::*;

use aws_lc_rs::signature::KeyPair;
use sha2::Digest;

use crate::errors::{AttestErrors, AttestResult};
use crate::order::bytes_lt;
use crate::order::lemma_bytes_lt_asymm;
use crate::order::lemma_bytes_lt_total;

verus! {

/// The SHA-256 digest of a byte string.
pub uninterp spec fn sha256_of(data: Seq<u8>) -> Seq<u8>;

/// The Ed25519 signature issued by the key pair encoded by the PKCS#8
/// document `der` over `msg`.  Ed25519 signing is deterministic.
pub uninterp spec fn ed25519_sign_of(der: Seq<u8>, msg: Seq<u8>) -> Seq<u8>;

/// The raw public key of the key pair encoded by the PKCS#8 document
/// `der`.
pub uninterp spec fn ed25519_pub_of(der: Seq<u8>) -> Seq<u8>;

/// Whether `sig` is a valid Ed25519 signature over `msg` under the raw
/// public key `pubkey`.  Verification is deterministic.
pub uninterp spec fn ed25519_verifies(pubkey: Seq<u8>, msg: Seq<u8>, sig: Seq<u8>) -> bool;

/// The session key obtained by running the X25519 agreement between the
/// key pairs whose public shares are `a` and `b`, then deriving 32 bytes
/// with SSKDF-HMAC-SHA256 under an all-zero salt and the fixed session
/// info string.  The agreement is symmetric, so this is only ever applied
/// with its arguments in one canonical order.
pub uninterp spec fn dh_session_kdf(a: Seq<u8>, b: Seq<u8>) -> Seq<u8>;

/// The 32 bytes derived by SSKDF-HMAC-SHA256 from the given key
/// material, salt and info.  The derivation is deterministic.
pub uninterp spec fn sskdf_of(ikm: Seq<u8>, salt: Seq<u8>, info: Seq<u8>) -> Seq<u8>;

/// The plaintext recovered by AES-256-GCM decryption of `ct` (ciphertext
/// followed by its tag) under `key` and `nonce` with empty associated
/// data, or `None` if authentication fails.  Decryption is deterministic.
pub uninterp spec fn aead_open_of(key: Seq<u8>, nonce: Seq<u8>, ct: Seq<u8>) -> Option<Seq<u8>>;

/// The session key of the exchange between the holders of the public
/// shares `a` and `b`, written with the shares in a canonical order so
/// that both ends of the exchange denote the same value.
pub open spec fn session_key_of(a: Seq<u8>, b: Seq<u8>) -> Seq<u8> {
    if bytes_lt(b, a) {
        dh_session_kdf(b, a)
    } else {
        dh_session_kdf(a, b)
    }
}

/// The canonical orientation makes the session key symmetric in the two
/// shares: both ends of the exchange derive the same key.
pub proof fn lemma_session_key_symmetric(a: Seq<u8>, b: Seq<u8>)
    ensures
        session_key_of(a, b) == session_key_of(b, a),
{
    lemma_bytes_lt_total(a, b);
    if bytes_lt(a, b) {
        lemma_bytes_lt_asymm(a, b);
    }
    if bytes_lt(b, a) {
        lemma_bytes_lt_asymm(b, a);
    }
}

/// Relies on sha2's `Sha256`: a 32-byte digest, a function of the data
/// alone.
#[verifier::external_body]
pub(crate) fn sha256(data: &Vec<u8>) -> (r: Vec<u8>)
    ensures
        r@ == sha256_of(data@),
        r@.len() == 32,
{
    sha2::Sha256::digest(data.as_slice()).to_vec()
}

#[verifier::external_type_specification]
#[verifier::external_body]
pub struct ExEd25519KeyPair(aws_lc_rs::signature::Ed25519KeyPair);

/// An Ed25519 signing key, kept together with the PKCS#8 document it was
/// parsed from; contracts speak of the key through those bytes.
pub struct SigningKey {
    inner: aws_lc_rs::signature::Ed25519KeyPair,
    der: Vec<u8>,
}

impl View for SigningKey {
    type V = Seq<u8>;

    closed spec fn view(&self) -> Seq<u8> {
        self.der@
    }
}

impl SigningKey {
    /// Relies on aws-lc-rs's `Ed25519KeyPair::from_pkcs8`: parses a
    /// PKCS#8 v1 or v2 Ed25519 private key document, rejecting malformed
    /// input.
    #[verifier::external_body]
    pub fn from_pkcs8(der: Vec<u8>) -> (r: AttestResult<SigningKey>)
        ensures
            r is Ok ==> r.unwrap()@ == der@,
            r matches Err(e) ==> e == AttestErrors::CryptoError,
    {
        match aws_lc_rs::signature::Ed25519KeyPair::from_pkcs8(der.as_slice()) {
            Ok(inner) => Ok(SigningKey { inner, der }),
            Err(_) => Err(AttestErrors::CryptoError),
        }
    }

    /// Relies on aws-lc-rs's `Ed25519KeyPair::try_sign`: a deterministic
    /// 64-byte Ed25519 signature that verifies under the pair's public
    /// key.
    #[verifier::external_body]
    pub fn sign(&self, msg: &Vec<u8>) -> (r: AttestResult<Vec<u8>>)
        ensures
            r is Ok ==> r.unwrap()@ == ed25519_sign_of(self@, msg@),
            r is Ok ==> r.unwrap()@.len() == 64,
            r is Ok ==> ed25519_verifies(ed25519_pub_of(self@), msg@, r.unwrap()@),
            r matches Err(e) ==> e == AttestErrors::CryptoError,
    {
        match self.inner.try_sign(msg.as_slice()) {
            Ok(sig) => Ok(sig.as_ref().to_vec()),
            Err(_) => Err(AttestErrors::CryptoError),
        }
    }

    /// Relies on aws-lc-rs's `KeyPair::public_key`: the pair's raw
    /// 32-byte public key.
    #[verifier::external_body]
    pub fn public_key_bytes(&self) -> (r: Vec<u8>)
        ensures
            r@ == ed25519_pub_of(self@),
            r@.len() == 32,
    {
        self.inner.public_key().as_ref().to_vec()
    }
}

/// Relies on aws-lc-rs's `UnparsedPublicKey::verify` with the `ED25519`
/// algorithm: deterministic signature verification over raw key bytes.
#[verifier::external_body]
pub fn ed25519_verify(pubkey: &Vec<u8>, msg: &Vec<u8>, sig: &Vec<u8>) -> (r: bool)
    ensures
        r == ed25519_verifies(pubkey@, msg@, sig@),
{
    let key = aws_lc_rs::signature::UnparsedPublicKey::new(
        &aws_lc_rs::signature::ED25519,
        pubkey.as_slice(),
    );
    key.verify(msg.as_slice(), sig.as_slice()).is_ok()
}

#[verifier::external_type_specification]
#[verifier::external_body]
pub struct ExEphemeralPrivateKey(aws_lc_rs::agreement::EphemeralPrivateKey);

/// One side's ephemeral X25519 key pair, kept together with its public
/// share; contracts speak of the pair through that share.
pub struct EphemeralShare {
    secret: aws_lc_rs::agreement::EphemeralPrivateKey,
    pub_bytes: Vec<u8>,
}

impl View for EphemeralShare {
    type V = Seq<u8>;

    closed spec fn view(&self) -> Seq<u8> {
        self.pub_bytes@
    }
}

impl EphemeralShare {
    /// The public share, to be sent to the peer.
    pub fn public_bytes(&self) -> (r: Vec<u8>)
        ensures
            r@ == self@,
    {
        crate::strbytes::copy_bytes(&self.pub_bytes)
    }
}

/// Relies on aws-lc-rs's `EphemeralPrivateKey::generate` with `X25519`
/// and `compute_public_key`: a fresh random key pair with a 32-byte
/// public share.  Nothing more can be said of a random value.
#[verifier::external_body]
pub fn compute_local_share() -> (r: AttestResult<EphemeralShare>)
    ensures
        r is Ok ==> r.unwrap()@.len() == 32,
        r matches Err(e) ==> e == AttestErrors::CryptoError,
{
    let rng = aws_lc_rs::rand::SystemRandom::new();
    let secret = aws_lc_rs::agreement::EphemeralPrivateKey::generate(&aws_lc_rs::agreement::X25519, &rng).map_err(|_| AttestErrors::CryptoError)?;
    let public = secret.compute_public_key().map_err(|_| AttestErrors::CryptoError)?;
    Ok(EphemeralShare { secret, pub_bytes: public.as_ref().to_vec() })
}

/// Relies on aws-lc-rs's `agree_ephemeral` over `X25519` followed by
/// `sskdf_hmac` (SHA-256, all-zero salt, info `"Sidecar_session"`): the
/// X25519 agreement is symmetric in the two key pairs, so the derived key
/// is a function of the unordered pair of public shares, here written in
/// canonical order.  The all-zero salt and the session info string are
/// the protocol's fixed session-derivation parameters, absorbed into the
/// meaning of `dh_session_kdf`.  The private key is consumed by the
/// agreement.
#[verifier::external_body]
pub fn derive_key_from_shares(local: EphemeralShare, remote_share: Vec<u8>) -> (r: AttestResult<
    Vec<u8>,
>)
    ensures
        r is Ok ==> r.unwrap()@.len() == 32,
        r is Ok && bytes_lt(remote_share@, local@) ==> r.unwrap()@ == dh_session_kdf(
            remote_share@,
            local@,
        ),
        r is Ok && !bytes_lt(remote_share@, local@) ==> r.unwrap()@ == dh_session_kdf(
            local@,
            remote_share@,
        ),
        r matches Err(e) ==> e == AttestErrors::CryptoError,
{
    let peer = aws_lc_rs::agreement::UnparsedPublicKey::new(&aws_lc_rs::agreement::X25519, remote_share);
    let salt = [0u8; 32];
    let info = "Sidecar_session".as_bytes();
    let mut derived = [0u8; 32];
    let alg = aws_lc_rs::kdf::get_sskdf_hmac_algorithm(aws_lc_rs::kdf::SskdfHmacAlgorithmId::Sha256).ok_or(AttestErrors::CryptoError)?;
    let kdf = |secret: &[u8]| aws_lc_rs::kdf::sskdf_hmac(alg, secret, info, &salt, &mut derived).map_err(|_| AttestErrors::CryptoError);
    aws_lc_rs::agreement::agree_ephemeral(local.secret, &peer, AttestErrors::CryptoError, kdf)?;
    Ok(derived.to_vec())
}

/// Relies on aws-lc-rs's `sskdf_hmac` with SHA-256: a deterministic
/// 32-byte key derived from the key material, salt and info.
#[verifier::external_body]
pub fn sskdf_hmac_sha256(ikm: &Vec<u8>, salt: &Vec<u8>, info: &Vec<u8>) -> (r: AttestResult<
    Vec<u8>,
>)
    ensures
        r is Ok ==> r.unwrap()@ == sskdf_of(ikm@, salt@, info@),
        r is Ok ==> r.unwrap()@.len() == 32,
        r matches Err(e) ==> e == AttestErrors::CryptoError,
{
    let alg = aws_lc_rs::kdf::get_sskdf_hmac_algorithm(aws_lc_rs::kdf::SskdfHmacAlgorithmId::Sha256).ok_or(AttestErrors::CryptoError)?;
    let mut derived = [0u8; 32];
    aws_lc_rs::kdf::sskdf_hmac(alg, ikm.as_slice(), info.as_slice(), salt.as_slice(), &mut derived).map_err(|_| AttestErrors::CryptoError)?;
    Ok(derived.to_vec())
}

/// Relies on aws-lc-rs's `rand::fill`: `n` bytes drawn from the system's
/// secure random source.  Nothing can be promised of their values.
#[verifier::external_body]
pub(crate) fn fill_random(n: usize) -> (r: AttestResult<Vec<u8>>)
    ensures
        r is Ok ==> r.unwrap()@.len() == n,
        r matches Err(e) ==> e == AttestErrors::CryptoError,
{
    let mut buf = vec![0u8; n];
    match aws_lc_rs::rand::fill(buf.as_mut_slice()) {
        Ok(()) => Ok(buf),
        Err(_) => Err(AttestErrors::CryptoError),
    }
}

#[verifier::external_type_specification]
#[verifier::external_body]
pub struct ExRandomizedNonceKey(aws_lc_rs::aead::RandomizedNonceKey);

/// An AES-256-GCM key, kept together with its raw 32 bytes; contracts
/// speak of the key through those bytes.
pub struct AeadKey {
    inner: aws_lc_rs::aead::RandomizedNonceKey,
    key_bytes: Vec<u8>,
}

impl View for AeadKey {
    type V = Seq<u8>;

    closed spec fn view(&self) -> Seq<u8> {
        self.key_bytes@
    }
}

impl AeadKey {
    /// Relies on aws-lc-rs's `RandomizedNonceKey::new` with
    /// `AES_256_GCM`: accepts exactly 32 bytes of key material, and
    /// rejects every other length.
    #[verifier::external_body]
    pub fn new(key_bytes: Vec<u8>) -> (r: AttestResult<AeadKey>)
        ensures
            key_bytes@.len() == 32 ==> r is Ok,
            r is Ok ==> r.unwrap()@ == key_bytes@,
            r matches Err(e) ==> e == AttestErrors::CryptoError,
    {
        match aws_lc_rs::aead::RandomizedNonceKey::new(
            &aws_lc_rs::aead::AES_256_GCM,
            key_bytes.as_slice(),
        ) {
            Ok(inner) => Ok(AeadKey { inner, key_bytes }),
            Err(_) => Err(AttestErrors::CryptoError),
        }
    }

    /// Relies on aws-lc-rs's
    /// `RandomizedNonceKey::seal_in_place_append_tag` with empty
    /// associated data: encrypts under a random 12-byte nonce, appends
    /// the 16-byte tag, and the result decrypts back to the plaintext
    /// under the same key and nonce.
    #[verifier::external_body]
    pub fn seal(&self, msg: &Vec<u8>) -> (r: AttestResult<(Vec<u8>, Vec<u8>)>)
        ensures
            r is Ok ==> r.unwrap().0@.len() == 12,
            r is Ok ==> r.unwrap().1@.len() == msg@.len() + 16,
            r is Ok ==> aead_open_of(self@, r.unwrap().0@, r.unwrap().1@) == Some(msg@),
            r matches Err(e) ==> e == AttestErrors::CryptoError,
    {
        let mut cipher = msg.clone();
        match self.inner.seal_in_place_append_tag(aws_lc_rs::aead::Aad::empty(), &mut cipher) {
            Ok(nonce) => Ok((nonce.as_ref().to_vec(), cipher)),
            Err(_) => Err(AttestErrors::CryptoError),
        }
    }

    /// Relies on aws-lc-rs's `RandomizedNonceKey::open_in_place` with
    /// empty associated data: deterministic authenticated decryption,
    /// failing exactly when the ciphertext does not authenticate.
    #[verifier::external_body]
    pub fn open(&self, nonce: &Vec<u8>, ct: &Vec<u8>) -> (r: AttestResult<Vec<u8>>)
        requires
            nonce@.len() == 12,
        ensures
            r is Ok ==> aead_open_of(self@, nonce@, ct@) == Some(r.unwrap()@),
            r is Ok ==> r.unwrap()@.len() + 16 == ct@.len(),
            r is Err ==> aead_open_of(self@, nonce@, ct@) is None,
            r matches Err(e) ==> e == AttestErrors::CryptoError,
    {
        let mut nonce_arr = [0u8; 12];
        nonce_arr.copy_from_slice(nonce.as_slice());
        let nonce_val = aws_lc_rs::aead::Nonce::assume_unique_for_key(nonce_arr);
        let mut buf = ct.clone();
        match self.inner.open_in_place(nonce_val, aws_lc_rs::aead::Aad::empty(), &mut buf) {
            Ok(plain) => Ok(plain.to_vec()),
            Err(_) => Err(AttestErrors::CryptoError),
        }
    }
}



} // verus!
