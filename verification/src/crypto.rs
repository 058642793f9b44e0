//! End-to-end encryption between two identities: an X25519 key agreement
//! gives a ChaCha20-Poly1305 key; ciphertexts carry their 12-byte nonce in
//! front.
use chacha20poly1305::aead::{Aead, KeyInit};
use chacha20poly1305::{ChaCha20Poly1305, Key, Nonce};
use rand::RngCore;
use vstd::prelude::*;
use vstd::string::StringSliceAdditionalSpecFns;
use vstd::utf8::encode_utf8;
use x25519_dalek::{PublicKey as X25519Public, StaticSecret};

use crate::error::{CoreError, CoreResult};
use crate::hex::{decode, decode_splits_char, decoded, hex_encode, hex_round_trip, pairs_valid};
use crate::text::owned;

verus! {

/// X25519 public key of a 32-byte secret.
pub uninterp spec fn x25519_public_key(secret: Seq<u8>) -> Seq<u8>;

/// X25519 shared secret of a 32-byte secret and a 32-byte public key.
pub uninterp spec fn x25519_shared_secret(secret: Seq<u8>, public: Seq<u8>) -> Seq<u8>;

/// ChaCha20-Poly1305 ciphertext (with its 16-byte tag) of a plaintext.
pub uninterp spec fn chacha_seal(key: Seq<u8>, nonce: Seq<u8>, plaintext: Seq<u8>) -> Seq<u8>;

/// ChaCha20-Poly1305 plaintext of a ciphertext, if it authenticates.
pub uninterp spec fn chacha_open(key: Seq<u8>, nonce: Seq<u8>, ciphertext: Seq<u8>) -> Option<
    Seq<u8>,
>;

/// A message of `n` bytes is short enough for one ChaCha20 counter run.
pub open spec fn aead_len_ok(n: int) -> bool {
    n / 64 < 4294967295
}

/// Public key of an X25519 secret (`x25519_dalek::PublicKey::from`).
#[verifier::external_body]
pub(crate) fn x25519_public(secret: &[u8; 32]) -> (r: [u8; 32])
    ensures
        r@ == x25519_public_key(secret@),
{
    X25519Public::from(&StaticSecret::from(*secret)).to_bytes()
}

/// Key agreement (`x25519_dalek::StaticSecret::diffie_hellman`). Both sides
/// of an exchange reach the same secret: mine with their public key equals
/// theirs with mine.
#[verifier::external_body]
fn x25519_diffie_hellman(secret: &[u8; 32], public: &[u8; 32]) -> (r: [u8; 32])
    ensures
        r@ == x25519_shared_secret(secret@, public@),
        forall|theirs: Seq<u8>|
            theirs.len() == 32 && public@ == x25519_public_key(theirs) ==> r@
                == x25519_shared_secret(theirs, x25519_public_key(secret@)),
{
    *StaticSecret::from(*secret).diffie_hellman(&X25519Public::from(*public)).as_bytes()
}

/// Twelve random bytes from the thread RNG (`rand::RngCore::fill_bytes`).
#[verifier::external_body]
fn random_nonce() -> (r: [u8; 12]) {
    let mut nonce = [0u8; 12];
    rand::thread_rng().fill_bytes(&mut nonce);
    nonce
}

/// ChaCha20-Poly1305 encryption (`Aead::encrypt`): fails only for a
/// plaintext too long for the 32-bit block counter, with the text of
/// `aead::Error`.
#[verifier::external_body]
fn chacha_encrypt(key: &[u8; 32], nonce: &[u8; 12], plaintext: &[u8]) -> (r: Result<Vec<u8>, String>)
    ensures
        r is Ok <==> aead_len_ok(plaintext@.len() as int),
        r matches Ok(c) ==> c@ == chacha_seal(key@, nonce@, plaintext@) && c@.len()
            == plaintext@.len() + 16,
        r matches Err(e) ==> e@ == "aead::Error"@,
{
    let cipher = ChaCha20Poly1305::new(Key::from_slice(key));
    match cipher.encrypt(Nonce::from_slice(nonce), plaintext) {
        Ok(c) => Ok(c),
        Err(e) => Err(e.to_string()),
    }
}

/// A decryption result that holds exactly `p`.
pub open spec fn opens_to(r: Result<Vec<u8>, String>, p: Seq<u8>) -> bool {
    r matches Ok(q) && q@ == p
}

/// ChaCha20-Poly1305 decryption (`Aead::decrypt`): the plaintext when the
/// ciphertext authenticates under the key and nonce; a ciphertext sealed
/// with the same key and nonce opens to its plaintext.
#[verifier::external_body]
fn chacha_decrypt(key: &[u8; 32], nonce: &[u8; 12], ciphertext: &[u8]) -> (r: Result<Vec<u8>, String>)
    ensures
        r matches Ok(p) ==> chacha_open(key@, nonce@, ciphertext@) == Some(p@),
        r matches Err(e) ==> chacha_open(key@, nonce@, ciphertext@) is None && e@ == "aead::Error"@,
        forall|p: Seq<u8>|
            aead_len_ok(p.len() as int) && ciphertext@ == chacha_seal(key@, nonce@, p)
                ==> opens_to(r, p),
{
    let cipher = ChaCha20Poly1305::new(Key::from_slice(key));
    match cipher.decrypt(Nonce::from_slice(nonce), ciphertext) {
        Ok(p) => Ok(p),
        Err(e) => Err(e.to_string()),
    }
}

/// Outcome of reading a 32-byte public key from hex text, with the error
/// given for a key of the wrong length.
pub open spec fn key_from_hex(hex: Seq<u8>, wrong_length: Seq<char>) -> Result<
    Seq<u8>,
    Seq<char>,
> {
    if hex.len() % 2 != 0 {
        Err("odd length hex"@)
    } else if !pairs_valid(hex) {
        Err("invalid digit found in string"@)
    } else if decoded(hex).len() != 32 {
        Err(wrong_length)
    } else {
        Ok(decoded(hex))
    }
}

/// Hex text of a 32-byte key reads back as that key.
pub proof fn lemma_key_from_hex_round_trip(key: Seq<u8>, wrong_length: Seq<char>)
    requires
        key.len() == 32,
    ensures
        key_from_hex(encode_utf8(hex_encode(key)), wrong_length) == Ok::<Seq<u8>, Seq<char>>(key),
        !decode_splits_char(encode_utf8(hex_encode(key))),
{
    hex_round_trip(key);
}

pub(crate) fn key_bytes_from_hex(hex: &str, wrong_length: &str) -> (r: CoreResult<[u8; 32]>)
    requires
        !decode_splits_char(hex.spec_bytes()),
    ensures
        match key_from_hex(hex.spec_bytes(), wrong_length@) {
            Ok(k) => r matches Ok(a) && a@ == k,
            Err(m) => r matches Err(CoreError::Crypto(e)) && e@ == m,
        },
{
    let bytes = match decode(hex) {
        Ok(b) => b,
        Err(e) => return Err(CoreError::Crypto(e)),
    };
    if bytes.len() != 32 {
        return Err(CoreError::Crypto(owned(wrong_length)));
    }
    let mut key = [0u8; 32];
    let mut i: usize = 0;
    while i < 32
        invariant
            bytes@.len() == 32,
            i <= 32,
            forall|j: int| 0 <= j < i ==> key@[j] == bytes@[j],
        decreases 32 - i,
    {
        key[i] = bytes[i];
        i = i + 1;
    }
    assert(key@ =~= bytes@);
    Ok(key)
}

/// The ciphertext for `plaintext` under `nonce`: the nonce, then the sealed
/// plaintext under the secret shared with the recipient.
pub open spec fn sealed_for(
    sender_secret: Seq<u8>,
    recipient_public: Seq<u8>,
    nonce: Seq<u8>,
    plaintext: Seq<u8>,
) -> Seq<u8> {
    nonce + chacha_seal(x25519_shared_secret(sender_secret, recipient_public), nonce, plaintext)
}

/// Encrypt `plaintext` for the holder of `recipient_pubkey_hex` under the
/// given nonce.
pub fn encrypt_with_nonce(
    sender_secret: &[u8; 32],
    recipient_pubkey_hex: &str,
    plaintext: &[u8],
    nonce: [u8; 12],
) -> (r: CoreResult<Vec<u8>>)
    requires
        !decode_splits_char(recipient_pubkey_hex.spec_bytes()),
    ensures
        match key_from_hex(recipient_pubkey_hex.spec_bytes(), "invalid encryption pubkey"@) {
            Err(m) => r matches Err(CoreError::Crypto(e)) && e@ == m,
            Ok(pk) => if aead_len_ok(plaintext@.len() as int) {
                r matches Ok(c) && c@ == sealed_for(sender_secret@, pk, nonce@, plaintext@)
            } else {
                r matches Err(CoreError::Crypto(e)) && e@ == "aead::Error"@
            },
        },
        r matches Ok(c) ==> c@.len() >= 12 && c@.take(12) == nonce@,
{
    let recipient = key_bytes_from_hex(recipient_pubkey_hex, "invalid encryption pubkey")?;
    let shared = x25519_diffie_hellman(sender_secret, &recipient);
    let ciphertext = match chacha_encrypt(&shared, &nonce, plaintext) {
        Ok(c) => c,
        Err(e) => return Err(CoreError::Crypto(e)),
    };
    let mut out: Vec<u8> = Vec::new();
    let mut i: usize = 0;
    while i < 12
        invariant
            i <= 12,
            out@ == nonce@.take(i as int),
        decreases 12 - i,
    {
        out.push(nonce[i]);
        i = i + 1;
        proof {
            assert(out@ =~= nonce@.take(i as int));
        }
    }
    let mut j: usize = 0;
    while j < ciphertext.len()
        invariant
            j <= ciphertext@.len(),
            out@ == nonce@ + ciphertext@.take(j as int),
        decreases ciphertext@.len() - j,
    {
        out.push(ciphertext[j]);
        j = j + 1;
        proof {
            assert(out@ =~= nonce@ + ciphertext@.take(j as int));
        }
    }
    proof {
        assert(nonce@.take(12) =~= nonce@);
        assert(ciphertext@.take(ciphertext@.len() as int) =~= ciphertext@);
        assert(out@.take(12) =~= nonce@);
    }
    Ok(out)
}

/// Encrypt `plaintext` for the holder of `recipient_pubkey_hex` under a
/// fresh random nonce.
pub fn encrypt_for_recipient(
    sender_secret: &[u8; 32],
    recipient_pubkey_hex: &str,
    plaintext: &[u8],
) -> (r: CoreResult<Vec<u8>>)
    requires
        !decode_splits_char(recipient_pubkey_hex.spec_bytes()),
    ensures
        match key_from_hex(recipient_pubkey_hex.spec_bytes(), "invalid encryption pubkey"@) {
            Err(m) => r matches Err(CoreError::Crypto(e)) && e@ == m,
            Ok(pk) => if aead_len_ok(plaintext@.len() as int) {
                r matches Ok(c) && c@.len() >= 12 && c@ == sealed_for(
                    sender_secret@,
                    pk,
                    c@.take(12),
                    plaintext@,
                )
            } else {
                r matches Err(CoreError::Crypto(e)) && e@ == "aead::Error"@
            },
        },
{
    let nonce = random_nonce();
    encrypt_with_nonce(sender_secret, recipient_pubkey_hex, plaintext, nonce)
}

/// Outcome of decrypting `ciphertext` from the holder of the public key in
/// `sender_hex` with `recipient_secret`.
pub open spec fn decrypt_outcome(
    recipient_secret: Seq<u8>,
    sender_hex: Seq<u8>,
    ciphertext: Seq<u8>,
) -> Result<Seq<u8>, Seq<char>> {
    if ciphertext.len() < 12 {
        Err("ciphertext too short"@)
    } else {
        match key_from_hex(sender_hex, "invalid sender pubkey"@) {
            Err(m) => Err(m),
            Ok(pk) => match chacha_open(
                x25519_shared_secret(recipient_secret, pk),
                ciphertext.take(12),
                ciphertext.skip(12),
            ) {
                Some(p) => Ok(p),
                None => Err("aead::Error"@),
            },
        }
    }
}

/// Decrypt a ciphertext sent by the holder of `sender_pubkey_hex`. Whatever
/// that sender encrypted for this recipient comes back unchanged.
pub fn decrypt_from_sender(
    recipient_secret: &[u8; 32],
    sender_pubkey_hex: &str,
    ciphertext: &[u8],
) -> (r: CoreResult<Vec<u8>>)
    requires
        !decode_splits_char(sender_pubkey_hex.spec_bytes()),
    ensures
        match decrypt_outcome(recipient_secret@, sender_pubkey_hex.spec_bytes(), ciphertext@) {
            Ok(p) => r matches Ok(v) && v@ == p,
            Err(m) => r matches Err(CoreError::Crypto(e)) && e@ == m,
        },
        forall|sender_secret: Seq<u8>, nonce: Seq<u8>, plaintext: Seq<u8>|
            sender_secret.len() == 32 && x25519_public_key(sender_secret).len() == 32 && nonce.len()
                == 12 && aead_len_ok(plaintext.len() as int) && sender_pubkey_hex@ == hex_encode(x25519_public_key(sender_secret))
                && ciphertext@ == #[trigger] sealed_for(
                sender_secret,
                x25519_public_key(recipient_secret@),
                nonce,
                plaintext,
            ) ==> (r matches Ok(v) && v@ == plaintext),
{
    if ciphertext.len() < 12 {
        return Err(CoreError::Crypto(owned("ciphertext too short")));
    }
    let sender = match key_bytes_from_hex(sender_pubkey_hex, "invalid sender pubkey") {
        Ok(k) => k,
        Err(e) => {
            proof {
                assert forall|sender_secret: Seq<u8>|
                    sender_secret.len() == 32 && x25519_public_key(sender_secret).len() == 32
                        && sender_pubkey_hex@ == hex_encode(
                        #[trigger] x25519_public_key(sender_secret),
                    ) implies false by {
                    lemma_key_from_hex_round_trip(
                        x25519_public_key(sender_secret),
                        "invalid sender pubkey"@,
                    );
                }
            }
            return Err(e);
        },
    };
    let shared = x25519_diffie_hellman(recipient_secret, &sender);
    let mut nonce = [0u8; 12];
    let mut i: usize = 0;
    while i < 12
        invariant
            ciphertext@.len() >= 12,
            i <= 12,
            forall|j: int| 0 <= j < i ==> nonce@[j] == ciphertext@[j],
        decreases 12 - i,
    {
        nonce[i] = ciphertext[i];
        i = i + 1;
    }
    assert(nonce@ =~= ciphertext@.take(12));
    let mut body: Vec<u8> = Vec::new();
    let mut j: usize = 12;
    while j < ciphertext.len()
        invariant
            12 <= j <= ciphertext@.len(),
            body@ == ciphertext@.subrange(12, j as int),
        decreases ciphertext@.len() - j,
    {
        body.push(ciphertext[j]);
        j = j + 1;
        proof {
            assert(body@ =~= ciphertext@.subrange(12, j as int));
        }
    }
    assert(body@ =~= ciphertext@.skip(12));
    let opened = chacha_decrypt(&shared, &nonce, body.as_slice());
    let ghost plain = opened;
    let r = match opened {
        Ok(p) => Ok(p),
        Err(e) => Err(CoreError::Crypto(e)),
    };
    proof {
        assert forall|sender_secret: Seq<u8>, n: Seq<u8>, plaintext: Seq<u8>|
            sender_secret.len() == 32 && x25519_public_key(sender_secret).len() == 32 && n.len()
                == 12 && aead_len_ok(plaintext.len() as int) && sender_pubkey_hex@ == hex_encode(x25519_public_key(sender_secret))
                && ciphertext@ == #[trigger] sealed_for(
                sender_secret,
                x25519_public_key(recipient_secret@),
                n,
                plaintext,
            ) implies (r matches Ok(v) && v@ == plaintext) by {
            let pk = x25519_public_key(sender_secret);
            lemma_key_from_hex_round_trip(pk, "invalid sender pubkey"@);
            assert(sender@ == pk);
            assert(shared@ == x25519_shared_secret(sender_secret, x25519_public_key(recipient_secret@)));
            let sealed = chacha_seal(shared@, n, plaintext);
            assert(ciphertext@.take(12) =~= n);
            assert(ciphertext@.skip(12) =~= sealed);
            assert(body@ == chacha_seal(shared@, nonce@, plaintext));
            assert(opens_to(plain, plaintext));
        }
    }
    r
}

} // verus!
