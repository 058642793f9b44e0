//! Signed friend invites: their JSON payload, the links that carry it, and
//! the checks a receiver makes.
use vstd::prelude::*;
use vstd::utf8::encode_utf8;

use crate::base64url::{b64_decode, b64_decode_bytes, b64_encode, b64_encode_bytes, lemma_b64_no_ws};
use crate::error::{CoreError, CoreResult};
use crate::hex::{decode, decode_splits_char, decoded, encode, hex_encode, hex_round_trip, pairs_valid};
use crate::identity::{ed25519_public_key, ed25519_signature, verify_outcome, Identity};
use crate::json::{
    json_opt_str, json_str, json_str_list, push_json_opt_str, push_json_str, push_json_str_list,
    push_raw,
};
use crate::storage::{ConnectionState, Contact};
use crate::text::{
    chars_from, chars_of, utf8_bytes, lemma_trim_before_body, skip_ws, occurs_at, contains_seq, copy_strings, decimal, decimal_string, find,
    first_occurrence, has_prefix, lemma_first_occurrence, opt_view, owned, split_chars, split_seq,
    starts_with, string_of, take_chars, take_prefix, trim, trim_seq, views,
};
use crate::text::is_ws;
use crate::time::{
    is_after, later, now_utc, plus_seconds, representable, rfc3339, rfc3339_text, UtcTime,
    MAX_TIMESTAMP,
};
use crate::uid::new_uuid_v4;

verus! {

broadcast use crate::text::group_views;

/// Invite links expire after 15 minutes.
pub const INVITE_TTL_SECS: i64 = 900;

/// Format version of invites.
pub const INVITE_VERSION: u8 = 1;

/// Prefix of app invite links.
pub open spec fn invite_scheme() -> Seq<char> {
    "inertia://invite/"@
}

/// What separates a web origin from the payload in a web invite link.
pub open spec fn web_invite_prefix() -> Seq<char> {
    "/invite#"@
}

/// An invite to become friends, signed by its issuer.
#[derive(Debug, Clone)]
pub struct FriendInvite {
    pub version: u8,
    pub display_name: String,
    pub signing_pubkey: String,
    pub encryption_pubkey: String,
    pub peer_id: Option<String>,
    pub multiaddrs: Vec<String>,
    pub created_at: UtcTime,
    pub expires_at: UtcTime,
    pub nonce: String,
    pub signature: String,
}

/// Whether the invite's instants are ones chrono can hold.
pub open spec fn times_ok(i: FriendInvite) -> bool {
    representable(i.created_at) && representable(i.expires_at)
}

/// The JSON fields that the signature covers, without braces.
pub open spec fn signed_fields(i: FriendInvite) -> Seq<char> {
    "\"version\":"@ + decimal(i.version as nat) + ",\"display_name\":"@ + json_str(
        i.display_name@,
    ) + ",\"signing_pubkey\":"@ + json_str(i.signing_pubkey@) + ",\"encryption_pubkey\":"@
        + json_str(i.encryption_pubkey@) + ",\"peer_id\":"@ + json_opt_str(opt_view(i.peer_id))
        + ",\"multiaddrs\":"@ + json_str_list(views(i.multiaddrs@)) + ",\"created_at\":"@
        + json_str(rfc3339(i.created_at.secs, i.created_at.nanos)) + ",\"expires_at\":"@
        + json_str(rfc3339(i.expires_at.secs, i.expires_at.nanos)) + ",\"nonce\":"@ + json_str(
        i.nonce@,
    )
}

/// The JSON text that the signature covers.
pub open spec fn signing_text(i: FriendInvite) -> Seq<char> {
    "{"@ + signed_fields(i) + "}"@
}

/// The JSON text of the whole invite.
pub open spec fn invite_json(i: FriendInvite) -> Seq<char> {
    "{"@ + signed_fields(i) + ",\"signature\":"@ + json_str(i.signature@) + "}"@
}

/// The base64 payload an invite link carries.
pub open spec fn payload_text(i: FriendInvite) -> Seq<char> {
    b64_encode(encode_utf8(invite_json(i)))
}

/// The link for an invite: a web link under `origin`, or an app link.
pub open spec fn link_text(i: FriendInvite, origin: Option<Seq<char>>) -> Seq<char> {
    match origin {
        Some(o) => o + web_invite_prefix() + payload_text(i),
        None => invite_scheme() + payload_text(i),
    }
}

#[verifier::rlimit(40)]
fn push_signed_fields(out: &mut Vec<char>, i: &FriendInvite)
    requires
        times_ok(*i),
    ensures
        final(out)@ == old(out)@ + signed_fields(*i),
{
    let ghost start = out@;
    push_raw(out, "\"version\":");
    let v = decimal_string(i.version as usize);
    push_raw(out, v.as_str());
    push_raw(out, ",\"display_name\":");
    push_json_str(out, i.display_name.as_str());
    push_raw(out, ",\"signing_pubkey\":");
    push_json_str(out, i.signing_pubkey.as_str());
    push_raw(out, ",\"encryption_pubkey\":");
    push_json_str(out, i.encryption_pubkey.as_str());
    push_raw(out, ",\"peer_id\":");
    push_json_opt_str(out, &i.peer_id);
    push_raw(out, ",\"multiaddrs\":");
    push_json_str_list(out, i.multiaddrs.as_slice());
    push_raw(out, ",\"created_at\":");
    let c = rfc3339_text(i.created_at);
    push_json_str(out, c.as_str());
    push_raw(out, ",\"expires_at\":");
    let e = rfc3339_text(i.expires_at);
    push_json_str(out, e.as_str());
    push_raw(out, ",\"nonce\":");
    push_json_str(out, i.nonce.as_str());
    assert(out@ =~= start + signed_fields(*i));
}


impl FriendInvite {
    /// UTF-8 bytes of the JSON text that the signature covers.
    pub fn signing_bytes(&self) -> (r: CoreResult<Vec<u8>>)
        requires
            times_ok(*self),
        ensures
            r matches Ok(b) && b@ == encode_utf8(signing_text(*self)),
    {
        let mut out: Vec<char> = Vec::new();
        push_raw(&mut out, "{");
        push_signed_fields(&mut out, self);
        push_raw(&mut out, "}");
        assert(out@ =~= signing_text(*self));
        Ok(utf8_bytes(&out))
    }

    /// The invite's JSON text in URL-safe unpadded base64.
    pub fn to_payload(&self) -> (r: CoreResult<String>)
        requires
            times_ok(*self),
        ensures
            r matches Ok(p) && p@ == payload_text(*self),
    {
        let mut out: Vec<char> = Vec::new();
        push_raw(&mut out, "{");
        push_signed_fields(&mut out, self);
        push_raw(&mut out, ",\"signature\":");
        push_json_str(&mut out, self.signature.as_str());
        push_raw(&mut out, "}");
        assert(out@ =~= invite_json(*self));
        let bytes = utf8_bytes(&out);
        Ok(b64_encode_bytes(bytes.as_slice()))
    }

    /// A web link under `web_origin`, or an app link.
    pub fn to_link(&self, web_origin: Option<&str>) -> (r: CoreResult<String>)
        requires
            times_ok(*self),
        ensures
            r matches Ok(l) && l@ == link_text(
                *self,
                match web_origin {
                    Some(o) => Some(o@),
                    None => None,
                },
            ),
    {
        let payload = self.to_payload()?;
        let mut out: Vec<char> = Vec::new();
        match web_origin {
            Some(origin) => {
                push_raw(&mut out, origin);
                push_raw(&mut out, "/invite#");
            },
            None => {
                push_raw(&mut out, "inertia://invite/");
            },
        }
        push_raw(&mut out, payload.as_str());
        Ok(string_of(out.as_slice()))
    }

    /// The contact this invite stands for, not yet seen online.
    pub fn to_contact(&self) -> (c: Contact)
        ensures
            c.id@ == self.signing_pubkey@,
            c.phone_hash is None,
            c.display_name@ == self.display_name@,
            opt_view(c.peer_id) == opt_view(self.peer_id),
            c.signing_pubkey@ == self.signing_pubkey@,
            c.encryption_pubkey@ == self.encryption_pubkey@,
            c.last_seen is None,
            c.connection_state == ConnectionState::Offline,
            views(c.multiaddrs@) == views(self.multiaddrs@),
    {
        Contact {
            id: self.signing_pubkey.clone(),
            phone_hash: None,
            display_name: self.display_name.clone(),
            peer_id: copy_opt_string(&self.peer_id),
            signing_pubkey: self.signing_pubkey.clone(),
            encryption_pubkey: self.encryption_pubkey.clone(),
            last_seen: None,
            connection_state: ConnectionState::Offline,
            multiaddrs: copy_strings(self.multiaddrs.as_slice()),
        }
    }

    /// Short code from the signing key for checking an invite out of band.
    pub fn safety_code(&self) -> (r: String)
        ensures
            r@ == take_chars(self.signing_pubkey@, 8),
    {
        take_prefix(self.signing_pubkey.as_str(), 8)
    }
}

fn copy_opt_string(o: &Option<String>) -> (r: Option<String>)
    ensures
        opt_view(r) == opt_view(*o),
{
    match o {
        Some(s) => Some(s.clone()),
        None => None,
    }
}


/// The value of the first `d=` parameter among query parts.
pub open spec fn d_param(parts: Seq<Seq<char>>) -> Option<Seq<char>>
    decreases parts.len(),
{
    if parts.len() == 0 {
        None
    } else if has_prefix(parts[0], "d="@) {
        Some(parts[0].skip("d="@.len() as int))
    } else {
        d_param(parts.drop_first())
    }
}

/// The `d=` parameter of the query of a link, if any.
pub open spec fn query_payload(t: Seq<char>) -> Option<Seq<char>> {
    let pieces = split_seq(t, seq!['?']);
    if pieces.len() > 1 {
        d_param(split_seq(pieces[1], seq!['&']))
    } else {
        None
    }
}

/// The payload an invite link or pasted text carries: after the app
/// scheme, after the web prefix, in a non-empty fragment, in a `d=` query
/// parameter, or the trimmed text itself.
pub open spec fn payload_of(input: Seq<char>) -> Seq<char> {
    let t = trim_seq(input);
    let hash = first_occurrence(t, seq!['#']);
    if has_prefix(t, invite_scheme()) {
        t.skip(invite_scheme().len() as int)
    } else if contains_seq(t, web_invite_prefix()) {
        t.skip(first_occurrence(t, web_invite_prefix()) + web_invite_prefix().len())
    } else if contains_seq(t, seq!['#']) && t.skip(hash + 1).len() > 0 {
        t.skip(hash + 1)
    } else {
        match query_payload(t) {
            Some(p) => p,
            None => t,
        }
    }
}

fn find_first(s: &Vec<char>, n: &Vec<char>) -> (r: Option<usize>)
    ensures
        match r {
            Some(i) => contains_seq(s@, n@) && i == first_occurrence(s@, n@) && i + n@.len()
                <= s@.len(),
            None => !contains_seq(s@, n@),
        },
{
    let r = find(s, n);
    if let Some(i) = r {
        proof {
            lemma_first_occurrence(s@, n@, i as int);
        }
    }
    r
}

fn d_param_exec(parts: &Vec<String>) -> (r: Option<String>)
    ensures
        opt_view(r) == d_param(views(parts@)),
{
    let d = chars_of("d=");
    let mut i: usize = 0;
    assert(views(parts@).subrange(0, parts@.len() as int) =~= views(parts@));
    while i < parts.len()
        invariant
            i <= parts@.len(),
            d@ == "d="@,
            d_param(views(parts@)) == d_param(views(parts@).subrange(i as int, parts@.len() as int)),
        decreases parts@.len() - i,
    {
        let part = chars_of(parts[i].as_str());
        let ghost rest = views(parts@).subrange(i as int, parts@.len() as int);
        assert(rest[0] == parts@[i as int]@);
        if starts_with(&part, &d) {
            return Some(chars_from(&part, d.len()));
        }
        proof {
            assert(rest.drop_first() =~= views(parts@).subrange(i + 1, parts@.len() as int));
        }
        i = i + 1;
    }
    None
}

/// The payload that an invite link or pasted text carries.
#[verifier::rlimit(40)]
pub fn extract_payload(input: &str) -> (r: CoreResult<String>)
    ensures
        r matches Ok(p) && p@ == payload_of(input@),
{
    let t = trim(input);
    let tv = chars_of(t.as_str());
    let tlen = tv.len();
    let scheme = chars_of("inertia://invite/");
    if starts_with(&tv, &scheme) {
        return Ok(chars_from(&tv, scheme.len()));
    }
    let web = chars_of("/invite#");
    if let Some(idx) = find_first(&tv, &web) {
        assert(idx + web@.len() <= tlen);
        return Ok(chars_from(&tv, idx + web.len()));
    }
    let mut hash_mark: Vec<char> = Vec::new();
    hash_mark.push('#');
    assert(hash_mark@ =~= seq!['#']);
    if let Some(h) = find_first(&tv, &hash_mark) {
        assert(h + 1 <= tlen);
        let fragment = chars_from(&tv, h + 1);
        if !fragment.as_str().is_empty() {
            return Ok(fragment);
        }
    }
    let mut question: Vec<char> = Vec::new();
    question.push('?');
    assert(question@ =~= seq!['?']);
    let pieces = split_chars(t.as_str(), &question);
    if pieces.len() > 1 {
        let mut amp: Vec<char> = Vec::new();
        amp.push('&');
        assert(amp@ =~= seq!['&']);
        let parts = split_chars(pieces[1].as_str(), &amp);
        assert(views(pieces@)[1] == pieces@[1]@);
        assert(query_payload(t@) == d_param(views(parts@)));
        if let Some(v) = d_param_exec(&parts) {
            return Ok(v);
        }
    }
    assert(query_payload(t@) is None);
    Ok(t)
}

/// The JSON bytes that an invite link or pasted text carries, decoded from
/// base64.
pub fn decode_payload(input: &str) -> (r: CoreResult<Vec<u8>>)
    ensures
        match b64_decode(encode_utf8(payload_of(input@))) {
            Ok(b) => r matches Ok(v) && v@ == b,
            Err(m) => r matches Err(CoreError::Crypto(e)) && e@ == m,
        },
        forall|b: Seq<u8>|
            payload_of(input@) == #[trigger] b64_encode(b) ==> (r matches Ok(v) && v@ == b),
{
    let payload = extract_payload(input)?;
    match b64_decode_bytes(payload.as_str().as_bytes()) {
        Ok(v) => Ok(v),
        Err(e) => Err(CoreError::Crypto(e)),
    }
}

/// Outcome of the signature check of an invite, after its version and
/// expiry passed: the hex signature is read, then checked against the
/// issuer's hex signing key over the signed JSON.
pub open spec fn signature_check(i: FriendInvite) -> Result<(), Seq<char>> {
    let sig_hex = encode_utf8(i.signature@);
    if sig_hex.len() % 2 != 0 {
        Err("odd length hex"@)
    } else if !pairs_valid(sig_hex) {
        Err("invalid digit found in string"@)
    } else {
        match verify_outcome(
            encode_utf8(i.signing_pubkey@),
            encode_utf8(signing_text(i)),
            decoded(sig_hex),
        ) {
            Err(m) => Err(m),
            Ok(true) => Ok(()),
            Ok(false) => Err("invalid invite signature"@),
        }
    }
}

/// The hex fields of an invite read without splitting a character.
pub open spec fn hex_fields_readable(i: FriendInvite) -> bool {
    !decode_splits_char(encode_utf8(i.signature@)) && !decode_splits_char(
        encode_utf8(i.signing_pubkey@),
    )
}

/// `inv` carries the public key of the 32-byte Ed25519 `secret` and that
/// key's signature over its signed JSON.
pub open spec fn signed_by(inv: FriendInvite, secret: Seq<u8>) -> bool {
    &&& secret.len() == 32
    &&& ed25519_public_key(secret).len() == 32
    &&& inv.signing_pubkey@ == hex_encode(ed25519_public_key(secret))
    &&& ed25519_signature(secret, encode_utf8(signing_text(inv))).len() == 64
    &&& inv.signature@ == hex_encode(ed25519_signature(secret, encode_utf8(signing_text(inv))))
}

/// The invite that `identity` issues at `now` with `nonce`, if it holds a
/// signing key: version 1, the identity's name and keys, the given peer and
/// addresses, expiring 15 minutes after `now`, signed over its JSON.
pub open spec fn issued(
    inv: FriendInvite,
    identity: Identity,
    peer_id: Option<Seq<char>>,
    multiaddrs: Seq<Seq<char>>,
    now: UtcTime,
    nonce: Seq<char>,
    secret: Seq<u8>,
) -> bool {
    &&& inv.version == INVITE_VERSION
    &&& inv.display_name@ == identity@.display_name
    &&& inv.signing_pubkey@ == identity@.signing_pubkey
    &&& inv.encryption_pubkey@ == identity@.encryption_pubkey
    &&& opt_view(inv.peer_id) == peer_id
    &&& views(inv.multiaddrs@) == multiaddrs
    &&& inv.created_at == now
    &&& inv.expires_at == (UtcTime { secs: (now.secs + INVITE_TTL_SECS) as i64, nanos: now.nanos })
    &&& inv.nonce@ == nonce
    &&& inv.signature@ == hex_encode(ed25519_signature(secret, encode_utf8(signing_text(inv))))
    &&& ed25519_signature(secret, encode_utf8(signing_text(inv))).len() == 64
    &&& times_ok(inv)
}

/// An invite issued by an identity whose public key is that of its signing
/// secret is signed by that secret, well formed and readable: `verify_at`
/// passes it at any instant up to its expiry.
pub proof fn issued_invite_verifies(
    inv: FriendInvite,
    identity: Identity,
    peer_id: Option<Seq<char>>,
    multiaddrs: Seq<Seq<char>>,
    now: UtcTime,
    nonce: Seq<char>,
    secret: Seq<u8>,
)
    requires
        issued(inv, identity, peer_id, multiaddrs, now, nonce, secret),
        secret.len() == 32,
        ed25519_public_key(secret).len() == 32,
        identity@.signing_pubkey == hex_encode(ed25519_public_key(secret)),
    ensures
        signed_by(inv, secret),
        inv.version == INVITE_VERSION,
        times_ok(inv),
        hex_fields_readable(inv),
{
    hex_round_trip(ed25519_public_key(secret));
    hex_round_trip(ed25519_signature(secret, encode_utf8(signing_text(inv))));
}

impl FriendInvite {
    /// Issue an invite from `identity` at `now` with the given nonce.
    pub fn new_at(
        identity: &Identity,
        peer_id: Option<String>,
        multiaddrs: Vec<String>,
        now: UtcTime,
        nonce: String,
    ) -> (r: CoreResult<Self>)
        requires
            representable(now),
            now.secs + INVITE_TTL_SECS <= MAX_TIMESTAMP,
        ensures
            match identity@.signing_secret {
                None => r matches Err(CoreError::IdentityNotInitialized),
                Some(sk) => r matches Ok(inv) && issued(
                    inv,
                    *identity,
                    opt_view(peer_id),
                    views(multiaddrs@),
                    now,
                    nonce@,
                    sk,
                ),
            },
    {
        let mut invite = FriendInvite {
            version: INVITE_VERSION,
            display_name: identity.display_name.clone(),
            signing_pubkey: identity.signing_pubkey.clone(),
            encryption_pubkey: identity.encryption_pubkey.clone(),
            peer_id,
            multiaddrs,
            created_at: now,
            expires_at: plus_seconds(now, INVITE_TTL_SECS),
            nonce,
            signature: String::new(),
        };
        proof {
            identity.lemma_view_fields();
        }
        let bytes = invite.signing_bytes()?;
        let sig = identity.sign(bytes.as_slice())?;
        let ghost unsigned = invite;
        invite.signature = encode(sig.as_slice());
        assert(signing_text(invite) == signing_text(unsigned));
        Ok(invite)
    }

    /// Issue an invite from `identity` now, with a fresh random nonce. Fails
    /// when the clock reads so late that the expiry is past the last
    /// instant chrono can hold.
    pub fn new(identity: &Identity, peer_id: Option<String>, multiaddrs: Vec<String>) -> (r:
        CoreResult<Self>)
        ensures
            identity@.signing_secret is None ==> r is Err,
            r matches Err(e) ==> (e matches CoreError::IdentityNotInitialized
                && identity@.signing_secret is None) || (e matches CoreError::Invite(m) && m@
                == "clock out of range"@),
            r matches Ok(inv) ==> identity@.signing_secret matches Some(sk) && issued(
                inv,
                *identity,
                opt_view(peer_id),
                views(multiaddrs@),
                inv.created_at,
                inv.nonce@,
                sk,
            ),
    {
        let now = now_utc();
        if now.secs > MAX_TIMESTAMP - INVITE_TTL_SECS {
            return Err(CoreError::Invite(owned("clock out of range")));
        }
        let nonce = new_uuid_v4();
        Self::new_at(identity, peer_id, multiaddrs, now, nonce)
    }

    /// Check an invite at `now`: its version, its expiry, then its
    /// signature. An invite its issuer signed passes until it expires.
    pub fn verify_at(&self, now: UtcTime) -> (r: CoreResult<()>)
        requires
            times_ok(*self),
            hex_fields_readable(*self),
        ensures
            if self.version != INVITE_VERSION {
                r matches Err(CoreError::Crypto(e)) && e@ == "unsupported invite version"@
            } else if later(now, self.expires_at) {
                r matches Err(CoreError::Invite(e)) && e@ == "invite has expired"@
            } else {
                match signature_check(*self) {
                    Ok(()) => r is Ok,
                    Err(m) => r matches Err(CoreError::Crypto(e)) && e@ == m,
                }
            },
            forall|secret: Seq<u8>|
                #[trigger] signed_by(*self, secret) && self.version == INVITE_VERSION && !later(
                    now,
                    self.expires_at,
                ) ==> r is Ok,
    {
        if self.version != INVITE_VERSION {
            return Err(CoreError::Crypto(owned("unsupported invite version")));
        }
        if is_after(now, self.expires_at) {
            return Err(CoreError::Invite(owned("invite has expired")));
        }
        let sig = match decode(self.signature.as_str()) {
            Ok(b) => b,
            Err(e) => {
                proof {
                    assert forall|secret: Seq<u8>|
                        ed25519_signature(secret, encode_utf8(signing_text(*self))).len() == 64
                            && self.signature@ == hex_encode(
                            #[trigger] ed25519_signature(secret, encode_utf8(signing_text(*self))),
                        ) implies false by {
                        hex_round_trip(ed25519_signature(secret, encode_utf8(signing_text(*self))));
                    }
                }
                return Err(CoreError::Crypto(e));
            },
        };
        proof {
            assert forall|secret: Seq<u8>|
                self.signature@ == hex_encode(
                    #[trigger] ed25519_signature(secret, encode_utf8(signing_text(*self))),
                ) implies ed25519_signature(secret, encode_utf8(signing_text(*self))) == decoded(
                encode_utf8(self.signature@),
            ) by {
                hex_round_trip(ed25519_signature(secret, encode_utf8(signing_text(*self))));
            }
        }
        let bytes = self.signing_bytes()?;
        let valid = Identity::verify_signature(
            self.signing_pubkey.as_str(),
            bytes.as_slice(),
            sig.as_slice(),
        )?;
        if !valid {
            return Err(CoreError::Crypto(owned("invalid invite signature")));
        }
        Ok(())
    }

    /// Check an invite now.
    pub fn verify(&self) -> (r: CoreResult<()>)
        requires
            times_ok(*self),
            hex_fields_readable(*self),
        ensures
            r matches Err(CoreError::Crypto(e)) && e@ == "unsupported invite version"@
                <== self.version != INVITE_VERSION,
            self.version == INVITE_VERSION ==> exists|now: UtcTime|
                {
                    &&& representable(now)
                    &&& if later(now, self.expires_at) {
                        r matches Err(CoreError::Invite(e)) && e@ == "invite has expired"@
                    } else {
                        match signature_check(*self) {
                            Ok(()) => r is Ok,
                            Err(m) => r matches Err(CoreError::Crypto(e)) && e@ == m,
                        }
                    }
                },
    {
        let now = now_utc();
        self.verify_at(now)
    }
}

proof fn lemma_no_scheme_prefix(o: Seq<char>, rest: Seq<char>)
    requires
        !has_prefix(o + seq!['/'], invite_scheme()),
    ensures
        !has_prefix(o + web_invite_prefix() + rest, invite_scheme()),
{
    reveal_strlit("inertia://invite/");
    reveal_strlit("/invite#");
    let t = o + web_invite_prefix() + rest;
    let sc = invite_scheme();
    let l = o.len() as int;
    assert(sc =~= seq!['i', 'n', 'e', 'r', 't', 'i', 'a', ':', '/', '/', 'i', 'n', 'v', 'i', 't', 'e', '/']);
    assert(sc.len() == 17);
    if has_prefix(t, sc) {
        assert(t.subrange(0, 17) == sc);
        if l >= 17 {
            assert((o + seq!['/']).subrange(0, 17) =~= t.subrange(0, 17));
            assert(has_prefix(o + seq!['/'], sc));
        } else if l == 16 {
            assert(o + seq!['/'] =~= t.subrange(0, 17));
            assert((o + seq!['/']).subrange(0, 17) =~= o + seq!['/']);
            assert(has_prefix(o + seq!['/'], sc));
        } else {
            assert(t[l] == '/');
            assert(sc[l] == t[l]);
            assert(sc =~= seq!['i', 'n', 'e', 'r', 't', 'i', 'a', ':', '/', '/', 'i', 'n', 'v', 'i', 't', 'e', '/']);
            if l == 8 {
                assert(t[9] == 'i');
                assert(sc[9] == t[9]);
            } else if l == 9 {
                assert(t[16] == '#');
                assert(sc[16] == t[16]);
            } else if l == 0 {
                assert(sc[0] != '/');
            } else if l == 1 {
                assert(sc[1] != '/');
            } else if l == 2 {
                assert(sc[2] != '/');
            } else if l == 3 {
                assert(sc[3] != '/');
            } else if l == 4 {
                assert(sc[4] != '/');
            } else if l == 5 {
                assert(sc[5] != '/');
            } else if l == 6 {
                assert(sc[6] != '/');
            } else if l == 7 {
                assert(sc[7] != '/');
            } else if l == 10 {
                assert(sc[10] != '/');
            } else if l == 11 {
                assert(sc[11] != '/');
            } else if l == 12 {
                assert(sc[12] != '/');
            } else if l == 13 {
                assert(sc[13] != '/');
            } else if l == 14 {
                assert(sc[14] != '/');
            } else if l == 15 {
                assert(sc[15] != '/');
            }
        }
    }
}

proof fn lemma_prefix_first_at(o: Seq<char>, rest: Seq<char>, full: Seq<char>)
    requires
        !contains_seq(o, web_invite_prefix()),
        full.len() >= o.len(),
        o =~= full.skip(full.len() - o.len()),
    ensures
        first_occurrence(o + web_invite_prefix() + rest, web_invite_prefix()) == o.len(),
        contains_seq(o + web_invite_prefix() + rest, web_invite_prefix()),
{
    reveal_strlit("/invite#");
    let w = web_invite_prefix();
    let t = o + w + rest;
    let l = o.len() as int;
    assert(t.subrange(l, l + 8) =~= w);
    assert(occurs_at(t, w, l));
    assert forall|j: int| 0 <= j < l implies !occurs_at(t, w, j) by {
        if occurs_at(t, w, j) {
            if j + 8 <= l {
                assert(o.subrange(j, j + 8) =~= t.subrange(j, j + 8));
                assert(occurs_at(o, w, j));
            } else {
                let d = l - j;
                assert(t.subrange(j, j + 8)[d] == t[l]);
                assert(t[l] == '/');
                assert(w[d] == '/');
            }
        }
    }
    lemma_first_occurrence(t, w, l);
}

proof fn lemma_app_link_payload(p: Seq<char>)
    requires
        forall|i: int| 0 <= i < p.len() ==> !is_ws(#[trigger] p[i]),
    ensures
        payload_of(invite_scheme() + p) == p,
{
    reveal_strlit("inertia://invite/");
    let body = invite_scheme() + p;
    assert(body[0] == 'i');
    if p.len() > 0 {
        assert(body.last() == p[p.len() - 1]);
    }
    lemma_trim_before_body(Seq::<char>::empty(), body);
    assert(Seq::<char>::empty() + body =~= body);
    assert(Seq::<char>::empty().skip(0) + body =~= body);
    assert(body.subrange(0, 17) =~= invite_scheme());
    assert(body.skip(17) =~= p);
}

#[verifier::rlimit(40)]
proof fn lemma_web_link_payload(o: Seq<char>, p: Seq<char>)
    requires
        forall|i: int| 0 <= i < p.len() ==> !is_ws(#[trigger] p[i]),
        !contains_seq(o, web_invite_prefix()),
        !has_prefix(o.skip(skip_ws(o, 0)) + seq!['/'], invite_scheme()),
    ensures
        payload_of(o + web_invite_prefix() + p) == p,
{
    reveal_strlit("/invite#");
    let body = web_invite_prefix() + p;
    assert(body[0] == '/');
    if p.len() > 0 {
        assert(body.last() == p[p.len() - 1]);
    }
    lemma_trim_before_body(o, body);
    let k = skip_ws(o, 0);
    let o2 = o.skip(k);
    assert(o + web_invite_prefix() + p =~= o + body);
    assert(o2 + body =~= o2 + web_invite_prefix() + p);
    let t = o2 + web_invite_prefix() + p;
    lemma_no_scheme_prefix(o2, p);
    assert(!contains_seq(o2, web_invite_prefix())) by {
        if contains_seq(o2, web_invite_prefix()) {
            let j = choose|j: int| occurs_at(o2, web_invite_prefix(), j);
            assert(o.subrange(j + k, j + k + 8) =~= o2.subrange(j, j + 8));
            assert(occurs_at(o, web_invite_prefix(), j + k));
        }
    }
    lemma_prefix_first_at(o2, p, o);
    assert(t.skip(o2.len() as int + 8) =~= p);
}

/// An invite link carries its payload: the payload read back from an app
/// link, or from a web link under an origin that does not itself contain
/// `/invite#` and does not, with leading blanks dropped and a `/` added,
/// start with the app scheme, is the invite's base64 JSON text.
pub proof fn link_carries_payload(inv: FriendInvite, origin: Option<Seq<char>>)
    requires
        origin matches Some(o) ==> !contains_seq(o, web_invite_prefix()) && !has_prefix(
            o.skip(skip_ws(o, 0)) + seq!['/'],
            invite_scheme(),
        ),
    ensures
        payload_of(link_text(inv, origin)) == payload_text(inv),
{
    lemma_b64_no_ws(encode_utf8(invite_json(inv)));
    match origin {
        None => lemma_app_link_payload(payload_text(inv)),
        Some(o) => lemma_web_link_payload(o, payload_text(inv)),
    }
}


} // verus!
