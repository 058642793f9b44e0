//! The local identity: an Ed25519 signing key, an X25519 encryption secret,
//! the hex public keys shared with friends, and the hashed phone number.
use ed25519_dalek::{Signature, Signer, SigningKey, Verifier, VerifyingKey};
use rand::rngs::OsRng;
use sha2::{Digest, Sha256};
use vstd::prelude::*;
use vstd::string::StringSliceAdditionalSpecFns;
use vstd::utf8::encode_utf8;
use x25519_dalek::StaticSecret;

use crate::crypto::{key_bytes_from_hex, key_from_hex, lemma_key_from_hex_round_trip, x25519_public, x25519_public_key};
use crate::error::{CoreError, CoreResult};
use crate::hex::{
    decode, decode_splits_char, decoded, encode, hex_encode, hex_round_trip, is_lower_hex_char,
    lemma_hex_encode_shape, pairs_valid,
};
use crate::text::{chars_of, opt_view, owned, string_of, trim, trim_seq};

verus! {

/// Default post lifetime: 7 days.
pub const POST_TTL_SECS: i64 = 604800;

/// Message lifetime: 7 days.
pub const MESSAGE_TTL_SECS: i64 = 604800;

/// Ed25519 public key of a 32-byte secret key.
pub uninterp spec fn ed25519_public_key(secret: Seq<u8>) -> Seq<u8>;

/// Ed25519 signature of a message under a 32-byte secret key.
pub uninterp spec fn ed25519_signature(secret: Seq<u8>, message: Seq<u8>) -> Seq<u8>;

/// Why 32 bytes are not an Ed25519 public key, if they are not one.
pub uninterp spec fn ed25519_key_error(public: Seq<u8>) -> Option<Seq<char>>;

/// Whether a 64-byte signature of a message verifies under a public key.
pub uninterp spec fn ed25519_verifies(public: Seq<u8>, message: Seq<u8>, signature: Seq<u8>) -> bool;

/// SHA-256 digest of some bytes.
pub uninterp spec fn sha256(data: Seq<u8>) -> Seq<u8>;

/// A fresh Ed25519 secret key from the OS RNG (`SigningKey::generate`).
#[verifier::external_body]
fn generate_signing_secret() -> (r: [u8; 32]) {
    SigningKey::generate(&mut OsRng).to_bytes()
}

/// A fresh X25519 secret from the OS RNG (`StaticSecret::random_from_rng`).
#[verifier::external_body]
fn generate_encryption_secret() -> (r: [u8; 32]) {
    StaticSecret::random_from_rng(OsRng).to_bytes()
}

/// Public key of an Ed25519 secret key (`SigningKey::verifying_key`); it is
/// always a valid public key.
#[verifier::external_body]
fn ed25519_public(secret: &[u8; 32]) -> (r: [u8; 32])
    ensures
        r@ == ed25519_public_key(secret@),
        ed25519_key_error(r@) is None,
{
    SigningKey::from_bytes(secret).verifying_key().to_bytes()
}

/// Ed25519 signature (`Signer::sign` of `SigningKey`).
#[verifier::external_body]
fn ed25519_sign(secret: &[u8; 32], message: &[u8]) -> (r: [u8; 64])
    ensures
        r@ == ed25519_signature(secret@, message@),
{
    SigningKey::from_bytes(secret).sign(message).to_bytes()
}

/// Parse of an Ed25519 public key (`VerifyingKey::from_bytes`): an error
/// names bytes that are not a curve point; the public key of a secret key
/// always parses.
#[verifier::external_body]
fn ed25519_key_check(public: &[u8; 32]) -> (r: Result<(), String>)
    ensures
        r is Ok <==> ed25519_key_error(public@) is None,
        r matches Err(e) ==> ed25519_key_error(public@) == Some(e@),
        forall|secret: Seq<u8>|
            secret.len() == 32 && public@ == ed25519_public_key(secret) ==> r is Ok,
{
    match VerifyingKey::from_bytes(public) {
        Ok(_) => Ok(()),
        Err(e) => Err(e.to_string()),
    }
}

/// Ed25519 verification (`Verifier::verify` of `VerifyingKey`): a signature
/// made with a secret key verifies under that key's public key.
#[verifier::external_body]
fn ed25519_verify(public: &[u8; 32], message: &[u8], signature: &[u8; 64]) -> (r: bool)
    requires
        ed25519_key_error(public@) is None,
    ensures
        r == ed25519_verifies(public@, message@, signature@),
        forall|secret: Seq<u8>|
            secret.len() == 32 && public@ == ed25519_public_key(secret) && signature@
                == ed25519_signature(secret, message@) ==> r,
{
    match VerifyingKey::from_bytes(public) {
        Ok(key) => key.verify(message, &Signature::from_bytes(signature)).is_ok(),
        Err(_) => false,
    }
}

/// SHA-256 (`sha2::Sha256::digest`).
#[verifier::external_body]
fn sha256_digest(data: &[u8]) -> (r: [u8; 32])
    ensures
        r@ == sha256(data@),
{
    Sha256::digest(data).into()
}

} // verus!

verus! {

/// The ASCII digits of a text, in order.
pub open spec fn ascii_digits(s: Seq<char>) -> Seq<char> {
    s.filter(|c: char| '0' <= c && c <= '9')
}

/// Hash of a phone number: hex SHA-256 of its digits, so that any way of
/// writing the same number hashes alike.
pub open spec fn phone_hash_of(phone: Seq<char>) -> Seq<char> {
    hex_encode(sha256(encode_utf8(ascii_digits(phone))))
}

/// Two ways of writing a phone number with the same digits hash alike.
pub proof fn phone_hash_ignores_formatting(a: Seq<char>, b: Seq<char>)
    requires
        ascii_digits(a) == ascii_digits(b),
    ensures
        phone_hash_of(a) == phone_hash_of(b),
{
}

/// Hex SHA-256 of the digits of `phone`.
pub fn hash_phone(phone: &str) -> (r: String)
    ensures
        r@ == phone_hash_of(phone@),
        r@.len() == 64,
        forall|i: int| 0 <= i < r@.len() ==> is_lower_hex_char(#[trigger] r@[i]),
{
    let chars = chars_of(phone);
    let mut digits: Vec<char> = Vec::new();
    let mut i: usize = 0;
    while i < chars.len()
        invariant
            i <= chars@.len(),
            chars@ == phone@,
            digits@ == ascii_digits(chars@.take(i as int)),
        decreases chars@.len() - i,
    {
        let c = chars[i];
        proof {
            assert(chars@.take(i + 1) =~= chars@.take(i as int).push(c));
            chars@.take(i as int).lemma_filter_push(c, |c: char| '0' <= c && c <= '9');
        }
        if '0' <= c && c <= '9' {
            digits.push(c);
        }
        i = i + 1;
    }
    proof {
        assert(chars@.take(chars@.len() as int) =~= chars@);
    }
    let normalized = string_of(digits.as_slice());
    let digest = sha256_digest(normalized.as_str().as_bytes());
    proof {
        lemma_hex_encode_shape(digest@);
    }
    encode(&digest)
}

/// A device identity. Its secret keys stay private to it.
#[derive(Clone)]
pub struct Identity {
    pub signing_pubkey: String,
    pub encryption_pubkey: String,
    pub phone_hash: Option<String>,
    pub display_name: String,
    pub bio: String,
    pub(crate) signing_key: Option<[u8; 32]>,
    pub(crate) encryption_secret: Option<[u8; 32]>,
}

/// What an identity holds, as plain values.
pub struct IdentityView {
    pub signing_pubkey: Seq<char>,
    pub encryption_pubkey: Seq<char>,
    pub phone_hash: Option<Seq<char>>,
    pub display_name: Seq<char>,
    pub bio: Seq<char>,
    pub signing_secret: Option<Seq<u8>>,
    pub encryption_secret: Option<Seq<u8>>,
}

impl View for Identity {
    type V = IdentityView;

    closed spec fn view(&self) -> IdentityView {
        IdentityView {
            signing_pubkey: self.signing_pubkey@,
            encryption_pubkey: self.encryption_pubkey@,
            phone_hash: opt_view(self.phone_hash),
            display_name: self.display_name@,
            bio: self.bio@,
            signing_secret: key_view(self.signing_key),
            encryption_secret: key_view(self.encryption_secret),
        }
    }
}

/// The bytes of an optional 32-byte key.
pub open spec fn key_view(k: Option<[u8; 32]>) -> Option<Seq<u8>> {
    match k {
        Some(a) => Some(a@),
        None => None,
    }
}

/// Outcome of reading an optional secret key from hex text.
pub open spec fn secret_from_hex(hex: Option<String>, wrong_length: Seq<char>) -> Result<
    Option<Seq<u8>>,
    Seq<char>,
> {
    match hex {
        None => Ok(None),
        Some(h) => match key_from_hex(encode_utf8(h@), wrong_length) {
            Ok(k) => Ok(Some(k)),
            Err(m) => Err(m),
        },
    }
}

/// Hex text that decoding reads without splitting a character.
pub open spec fn hex_readable(hex: Option<String>) -> bool {
    match hex {
        None => true,
        Some(h) => !decode_splits_char(encode_utf8(h@)),
    }
}

/// Outcome of checking a signature against a hex public key.
pub open spec fn verify_outcome(public_hex: Seq<u8>, message: Seq<u8>, signature: Seq<u8>) -> Result<
    bool,
    Seq<char>,
> {
    match key_from_hex(public_hex, "invalid signing pubkey"@) {
        Err(m) => Err(m),
        Ok(pk) => match ed25519_key_error(pk) {
            Some(m) => Err(m),
            None => if signature.len() != 64 {
                Err("invalid signature length"@)
            } else {
                Ok(ed25519_verifies(pk, message, signature))
            },
        },
    }
}

fn secret_bytes_from_hex(hex: &Option<String>, wrong_length: &str) -> (r: CoreResult<Option<[u8; 32]>>)
    requires
        hex_readable(*hex),
    ensures
        match secret_from_hex(*hex, wrong_length@) {
            Ok(k) => r matches Ok(a) && key_view(a) == k,
            Err(m) => r matches Err(CoreError::Crypto(e)) && e@ == m,
        },
{
    match hex {
        None => Ok(None),
        Some(h) => {
            let k = key_bytes_from_hex(h.as_str(), wrong_length)?;
            Ok(Some(k))
        },
    }
}

fn signature_array(bytes: &[u8]) -> (r: [u8; 64])
    requires
        bytes@.len() == 64,
    ensures
        r@ == bytes@,
{
    let mut out = [0u8; 64];
    let mut i: usize = 0;
    while i < 64
        invariant
            bytes@.len() == 64,
            i <= 64,
            forall|j: int| 0 <= j < i ==> out@[j] == bytes@[j],
        decreases 64 - i,
    {
        out[i] = bytes[i];
        i = i + 1;
    }
    assert(out@ =~= bytes@);
    out
}

fn array_to_vec(bytes: &[u8; 64]) -> (r: Vec<u8>)
    ensures
        r@ == bytes@,
{
    let mut out: Vec<u8> = Vec::new();
    let mut i: usize = 0;
    while i < 64
        invariant
            i <= 64,
            out@ == bytes@.take(i as int),
        decreases 64 - i,
    {
        out.push(bytes[i]);
        i = i + 1;
        proof {
            assert(out@ =~= bytes@.take(i as int));
        }
    }
    assert(bytes@.take(64) =~= bytes@);
    out
}

impl Identity {
    /// What the view of an identity is made of.
    pub(crate) proof fn lemma_view_fields(&self)
        ensures
            self@.signing_pubkey == self.signing_pubkey@,
            self@.encryption_pubkey == self.encryption_pubkey@,
            self@.phone_hash == opt_view(self.phone_hash),
            self@.display_name == self.display_name@,
            self@.bio == self.bio@,
            self@.signing_secret == key_view(self.signing_key),
            self@.encryption_secret == key_view(self.encryption_secret),
    {
    }

    /// A new identity with fresh random keys; its public keys are the hex
    /// public keys of those secrets.
    pub fn generate(display_name: &str) -> (id: Self)
        ensures
            id@.signing_secret matches Some(s) && s.len() == 32 && ed25519_public_key(s).len()
                == 32 && id@.signing_pubkey == hex_encode(ed25519_public_key(s)),
            id@.encryption_secret matches Some(e) && e.len() == 32 && x25519_public_key(e).len()
                == 32 && id@.encryption_pubkey == hex_encode(x25519_public_key(e)),
            !decode_splits_char(encode_utf8(id@.signing_pubkey)),
            !decode_splits_char(encode_utf8(id@.encryption_pubkey)),
            id@.phone_hash is None,
            id@.display_name == display_name@,
            id@.bio == Seq::<char>::empty(),
    {
        let signing = generate_signing_secret();
        let encryption = generate_encryption_secret();
        let signing_public = ed25519_public(&signing);
        let encryption_public = x25519_public(&encryption);
        proof {
            hex_round_trip(signing_public@);
            hex_round_trip(encryption_public@);
        }
        Identity {
            signing_pubkey: encode(&signing_public),
            encryption_pubkey: encode(&encryption_public),
            phone_hash: None,
            display_name: owned(display_name),
            bio: String::new(),
            signing_key: Some(signing),
            encryption_secret: Some(encryption),
        }
    }

    /// An identity restored from storage; secret keys come as hex text.
    pub fn from_persisted(
        signing_pubkey: String,
        encryption_pubkey: String,
        phone_hash: Option<String>,
        display_name: String,
        bio: String,
        signing_key_hex: Option<String>,
        encryption_secret_hex: Option<String>,
    ) -> (r: CoreResult<Self>)
        requires
            hex_readable(signing_key_hex),
            hex_readable(encryption_secret_hex),
        ensures
            match secret_from_hex(signing_key_hex, "invalid signing key length"@) {
                Err(m) => r matches Err(CoreError::Crypto(e)) && e@ == m,
                Ok(sk) => match secret_from_hex(
                    encryption_secret_hex,
                    "invalid encryption secret length"@,
                ) {
                    Err(m) => r matches Err(CoreError::Crypto(e)) && e@ == m,
                    Ok(ek) => r matches Ok(id) && id@.signing_secret == sk && id@.encryption_secret
                        == ek && id@.signing_pubkey == signing_pubkey@ && id@.encryption_pubkey
                        == encryption_pubkey@ && id@.phone_hash == opt_view(phone_hash)
                        && id@.display_name == display_name@ && id@.bio == bio@,
                },
            },
    {
        let signing_key = secret_bytes_from_hex(&signing_key_hex, "invalid signing key length")?;
        let encryption_secret = secret_bytes_from_hex(
            &encryption_secret_hex,
            "invalid encryption secret length",
        )?;
        Ok(
            Identity {
                signing_pubkey,
                encryption_pubkey,
                phone_hash,
                display_name,
                bio,
                signing_key,
                encryption_secret,
            },
        )
    }

    /// Set up with a name and both secret keys.
    pub fn is_initialized(&self) -> (r: bool)
        ensures
            r == (self@.display_name.len() > 0 && self@.signing_secret is Some
                && self@.encryption_secret is Some),
    {
        !self.display_name.as_str().is_empty() && self.signing_key.is_some()
            && self.encryption_secret.is_some()
    }

    /// Record the hash of `phone` and return it.
    pub fn bind_phone(&mut self, phone: &str) -> (r: String)
        ensures
            r@ == phone_hash_of(phone@),
            final(self)@ == (IdentityView { phone_hash: Some(r@), ..old(self)@ }),
    {
        let hash = hash_phone(phone);
        self.phone_hash = Some(hash.clone());
        hash
    }

    /// The signing secret key, or an error before one is set up.
    pub fn signing_key(&self) -> (r: CoreResult<[u8; 32]>)
        ensures
            match self@.signing_secret {
                Some(s) => r matches Ok(k) && k@ == s,
                None => r matches Err(CoreError::IdentityNotInitialized),
            },
    {
        match self.signing_key {
            Some(k) => Ok(k),
            None => Err(CoreError::IdentityNotInitialized),
        }
    }

    /// The encryption secret, or an error before one is set up.
    pub fn encryption_secret(&self) -> (r: CoreResult<[u8; 32]>)
        ensures
            match self@.encryption_secret {
                Some(s) => r matches Ok(k) && k@ == s,
                None => r matches Err(CoreError::IdentityNotInitialized),
            },
    {
        match self.encryption_secret {
            Some(k) => Ok(k),
            None => Err(CoreError::IdentityNotInitialized),
        }
    }

    /// Ed25519 signature of `message` with this identity's signing key.
    pub fn sign(&self, message: &[u8]) -> (r: CoreResult<Vec<u8>>)
        ensures
            match self@.signing_secret {
                Some(s) => r matches Ok(sig) && sig@ == ed25519_signature(s, message@)
                    && sig@.len() == 64,
                None => r matches Err(CoreError::IdentityNotInitialized),
            },
    {
        let key = self.signing_key()?;
        let sig = ed25519_sign(&key, message);
        Ok(array_to_vec(&sig))
    }

    /// Whether `signature` is a valid signature of `message` under the hex
    /// public key; errors for a malformed key or signature. What an identity
    /// signs verifies under its public key.
    pub fn verify_signature(signing_pubkey_hex: &str, message: &[u8], signature: &[u8]) -> (r:
        CoreResult<bool>)
        requires
            !decode_splits_char(signing_pubkey_hex.spec_bytes()),
        ensures
            match verify_outcome(signing_pubkey_hex.spec_bytes(), message@, signature@) {
                Ok(b) => r matches Ok(v) && v == b,
                Err(m) => r matches Err(CoreError::Crypto(e)) && e@ == m,
            },
            forall|secret: Seq<u8>|
                secret.len() == 32 && ed25519_public_key(secret).len() == 32
                    && signing_pubkey_hex@ == hex_encode(#[trigger] ed25519_public_key(secret))
                    && signature@.len() == 64 && signature@ == ed25519_signature(secret, message@)
                    ==> (r matches Ok(v) && v),
    {
        let public = match key_bytes_from_hex(signing_pubkey_hex, "invalid signing pubkey") {
            Ok(k) => k,
            Err(e) => {
                proof {
                    assert forall|secret: Seq<u8>|
                        secret.len() == 32 && ed25519_public_key(secret).len() == 32
                            && signing_pubkey_hex@ == hex_encode(
                            #[trigger] ed25519_public_key(secret),
                        ) implies false by {
                        lemma_key_from_hex_round_trip(
                            ed25519_public_key(secret),
                            "invalid signing pubkey"@,
                        );
                    }
                }
                return Err(e);
            },
        };
        proof {
            assert forall|secret: Seq<u8>|
                secret.len() == 32 && ed25519_public_key(secret).len() == 32
                    && signing_pubkey_hex@ == hex_encode(
                    #[trigger] ed25519_public_key(secret),
                ) implies public@ == ed25519_public_key(secret) by {
                lemma_key_from_hex_round_trip(ed25519_public_key(secret), "invalid signing pubkey"@);
            }
        }
        match ed25519_key_check(&public) {
            Ok(()) => {},
            Err(e) => return Err(CoreError::Crypto(e)),
        }
        if signature.len() != 64 {
            return Err(CoreError::Crypto(owned("invalid signature length")));
        }
        let sig = signature_array(signature);
        Ok(ed25519_verify(&public, message, &sig))
    }
}

/// A new identity for `display_name`, unless this device already has a
/// profile (an initialized identity in memory, or one in storage).
pub fn initialize_identity(current: &Identity, store_has_profile: bool, display_name: &str) -> (r:
    CoreResult<Identity>)
    ensures
        current@.display_name.len() > 0 && current@.signing_secret is Some
            && current@.encryption_secret is Some ==> r matches Err(
            CoreError::ProfileAlreadyExists,
        ),
        !(current@.display_name.len() > 0 && current@.signing_secret is Some
            && current@.encryption_secret is Some) && store_has_profile ==> r matches Err(
            CoreError::ProfileAlreadyExists,
        ),
        !(current@.display_name.len() > 0 && current@.signing_secret is Some
            && current@.encryption_secret is Some) && !store_has_profile ==> (r matches Ok(id)
            && id@.display_name == display_name@ && id@.signing_secret is Some
            && id@.encryption_secret is Some && id@.phone_hash is None),
{
    if current.is_initialized() {
        return Err(CoreError::ProfileAlreadyExists);
    }
    if store_has_profile {
        return Err(CoreError::ProfileAlreadyExists);
    }
    Ok(Identity::generate(display_name))
}

/// Whether a profile update may go ahead: the new name must not be blank
/// and the identity must be set up.
pub fn check_profile_update(identity: &Identity, display_name: &str) -> (r: CoreResult<()>)
    ensures
        r is Ok <==> trim_seq(display_name@).len() > 0 && identity@.display_name.len() > 0
            && identity@.signing_secret is Some && identity@.encryption_secret is Some,
        r matches Err(e) ==> e is IdentityNotInitialized,
{
    let t = trim(display_name);
    if t.as_str().is_empty() {
        return Err(CoreError::IdentityNotInitialized);
    }
    if !identity.is_initialized() {
        return Err(CoreError::IdentityNotInitialized);
    }
    Ok(())
}

/// Set the profile's name and bio, both trimmed.
pub fn apply_profile_update(identity: &mut Identity, display_name: &str, bio: &str)
    ensures
        final(identity)@ == (IdentityView {
            display_name: trim_seq(display_name@),
            bio: trim_seq(bio@),
            ..old(identity)@
        }),
{
    identity.display_name = trim(display_name);
    identity.bio = trim(bio);
}


} // verus!
