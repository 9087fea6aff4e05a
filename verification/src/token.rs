//! Stateless session tokens: a signed, self-contained credential embedding
//! an identity id, an issue time and an expiry.
//!
//! A token is ASCII bytes: three twenty-digit decimal fields (id, issued-at,
//! expires-at) followed by the lowercase hex HMAC-SHA-256 tag of those sixty
//! bytes under the configured secret. Validity is a pure function of the
//! token, the current time and the secret: nothing is stored server-side,
//! and a token cannot be revoked before it expires.

use vstd::prelude::*;
use crate::error::AppError;
use crate::numfmt::{
    dec_digits, hex_encode, hex_of, lemma_dec_digits_are_digits, lemma_dec_digits_len,
    lemma_dec_roundtrip, lemma_dec_val_injective, lemma_u64_fits_20_digits, parse_dec20, push_dec,
    spec_parse20,
};

verus! {

/// The HMAC-SHA-256 tag of `msg` under `key`: a pure function of the two.
pub uninterp spec fn hmac_sha256_of(key: Seq<u8>, msg: Seq<u8>) -> Seq<u8>;

/// Relies on hmac::Hmac combined with sha2::Sha256: the tag depends on the
/// key and the message alone, and is 32 bytes; a key of any length is
/// accepted, so construction cannot fail.
#[verifier::external_body]
fn hmac_sha256(key: &[u8], msg: &[u8]) -> (r: Vec<u8>)
    ensures
        r@ == hmac_sha256_of(key@, msg@),
        r@.len() == 32,
{
    let mut mac = <hmac::Hmac<sha2::Sha256> as hmac::KeyInit>::new_from_slice(key).unwrap();
    hmac::Mac::update(&mut mac, msg);
    hmac::Mac::finalize(mac).into_bytes().to_vec()
}

/// The sixty-byte clear part: id, issued-at, expires-at, each twenty digits.
pub open spec fn spec_payload(id: u64, iat: u64, exp: u64) -> Seq<u8> {
    dec_digits(id as nat, 20) + dec_digits(iat as nat, 20) + dec_digits(exp as nat, 20)
}

/// The hex tag a well-formed token must carry over its clear part.
pub open spec fn spec_signature(key: Seq<u8>, payload: Seq<u8>) -> Seq<u8> {
    hex_of(hmac_sha256_of(key, payload))
}

/// The token issued for `id` at `iat`, expiring at `exp`.
pub open spec fn spec_token(key: Seq<u8>, id: u64, iat: u64, exp: u64) -> Seq<u8> {
    spec_payload(id, iat, exp) + spec_signature(key, spec_payload(id, iat, exp))
}

/// What verification returns for any byte string presented as a token:
/// the embedded id when the tag matches and `now` is not past the expiry;
/// `TokenExpired` when only the expiry fails; `InvalidToken` otherwise.
pub open spec fn spec_verify(key: Seq<u8>, token: Seq<u8>, now: u64) -> Result<u64, AppError> {
    if token.len() < 60 {
        Err(AppError::InvalidToken)
    } else if token.subrange(60, token.len() as int) != spec_signature(
        key,
        token.subrange(0, 60),
    ) {
        Err(AppError::InvalidToken)
    } else {
        match (
            spec_parse20(token.subrange(0, 20)),
            spec_parse20(token.subrange(20, 40)),
            spec_parse20(token.subrange(40, 60)),
        ) {
            (Some(id), Some(iat), Some(exp)) => if now <= exp {
                Ok(id)
            } else {
                Err(AppError::TokenExpired)
            },
            _ => Err(AppError::InvalidToken),
        }
    }
}

/// Issues and verifies session tokens; holds only immutable configuration:
/// the signing secret and the time-to-live, fixed at construction.
pub struct TokenCodec {
    secret: Vec<u8>,
    ttl_seconds: u64,
}

impl TokenCodec {
    pub closed spec fn key(&self) -> Seq<u8> {
        self.secret@
    }

    pub closed spec fn ttl(&self) -> u64 {
        self.ttl_seconds
    }

    pub fn new(secret: Vec<u8>, ttl_seconds: u64) -> (r: Self)
        ensures
            r.key() == secret@,
            r.ttl() == ttl_seconds,
    {
        TokenCodec { secret, ttl_seconds }
    }

    /// The configured time-to-live, in seconds.
    pub fn ttl_seconds(&self) -> (r: u64)
        ensures
            r == self.ttl(),
    {
        self.ttl_seconds
    }

    /// A second codec with the same secret and time-to-live, for sharing
    /// the one configuration across components.
    pub fn duplicate(&self) -> (r: Self)
        ensures
            r.key() == self.key(),
            r.ttl() == self.ttl(),
    {
        let n = self.secret.len();
        let mut s: Vec<u8> = Vec::new();
        let mut i: usize = 0;
        while i < n
            invariant
                n == self.secret@.len(),
                0 <= i <= n,
                s@ == self.secret@.take(i as int),
            decreases n - i,
        {
            let b = self.secret[i];
            s.push(b);
            proof {
                assert(s@ =~= self.secret@.take(i as int + 1));
            }
            i += 1;
        }
        proof {
            assert(self.secret@.take(n as int) =~= self.secret@);
        }
        TokenCodec { secret: s, ttl_seconds: self.ttl_seconds }
    }

    /// Issues the token for `id` at time `now`; it expires at `now` plus the
    /// configured time-to-live.
    pub fn generate_token(&self, id: u64, now: u64) -> (r: Vec<u8>)
        requires
            now + self.ttl() <= u64::MAX,
        ensures
            r@ == spec_token(self.key(), id, now, (now + self.ttl()) as u64),
    {
        let exp = now + self.ttl_seconds;
        let mut token: Vec<u8> = Vec::new();
        push_dec(&mut token, id, 20);
        push_dec(&mut token, now, 20);
        push_dec(&mut token, exp, 20);
        proof {
            assert(token@ =~= spec_payload(id, now, exp));
        }
        let mac = hmac_sha256(self.secret.as_slice(), token.as_slice());
        let sig = hex_encode(mac.as_slice());
        let ghost payload = token@;
        let mut j: usize = 0;
        while j < sig.len()
            invariant
                0 <= j <= sig@.len(),
                token@ == payload + sig@.take(j as int),
            decreases sig@.len() - j,
        {
            let b = sig[j];
            token.push(b);
            proof {
                assert(token@ =~= payload + sig@.take(j as int + 1));
            }
            j += 1;
        }
        proof {
            assert(sig@.take(sig@.len() as int) =~= sig@);
            assert(token@ =~= spec_token(self.key(), id, now, exp));
        }
        token
    }

    /// Checks the tag and the expiry of `token` against time `now` and
    /// returns the embedded identity id.
    pub fn verify_token(&self, token: &[u8], now: u64) -> (r: Result<u64, AppError>)
        ensures
            r == spec_verify(self.key(), token@, now),
    {
        let n = token.len();
        if n < 60 {
            return Err(AppError::InvalidToken);
        }
        let mut payload: Vec<u8> = Vec::new();
        let mut i: usize = 0;
        while i < 60
            invariant
                60 <= n == token@.len(),
                0 <= i <= 60,
                payload@ == token@.take(i as int),
            decreases 60 - i,
        {
            let b = token[i];
            payload.push(b);
            proof {
                assert(payload@ =~= token@.take(i as int + 1));
            }
            i += 1;
        }
        proof {
            assert(payload@ =~= token@.subrange(0, 60));
        }
        let mac = hmac_sha256(self.secret.as_slice(), payload.as_slice());
        let sig = hex_encode(mac.as_slice());
        let tail_len = n - 60;
        if tail_len != sig.len() {
            proof {
                assert(token@.subrange(60, token@.len() as int).len() != sig@.len());
            }
            return Err(AppError::InvalidToken);
        }
        let mut j: usize = 0;
        while j < tail_len
            invariant
                60 <= n == token@.len(),
                tail_len == n - 60,
                tail_len == sig@.len(),
                sig@ == spec_signature(self.key(), token@.subrange(0, 60)),
                0 <= j <= tail_len,
                forall|k: int| 0 <= k < j ==> token@[60 + k] == sig@[k],
            decreases tail_len - j,
        {
            if token[60 + j] != sig[j] {
                proof {
                    assert(token@.subrange(60, token@.len() as int)[j as int] != sig@[j as int]);
                }
                return Err(AppError::InvalidToken);
            }
            j += 1;
        }
        proof {
            assert(token@.subrange(60, token@.len() as int) =~= sig@);
        }
        let id_opt = parse_dec20(token, 0);
        let iat_opt = parse_dec20(token, 20);
        let exp_opt = parse_dec20(token, 40);
        match (id_opt, iat_opt, exp_opt) {
            (Some(id), Some(_iat), Some(exp)) => {
                if now <= exp {
                    Ok(id)
                } else {
                    Err(AppError::TokenExpired)
                }
            },
            _ => Err(AppError::InvalidToken),
        }
    }
}

/// Structural facts about an issued token: its clear part splits back into
/// the three fields it was built from, and its tail is the matching tag.
proof fn lemma_issued_token_shape(key: Seq<u8>, id: u64, iat: u64, exp: u64)
    ensures
        spec_token(key, id, iat, exp).len() >= 60,
        spec_token(key, id, iat, exp).subrange(0, 60) == spec_payload(id, iat, exp),
        spec_token(key, id, iat, exp).subrange(
            60,
            spec_token(key, id, iat, exp).len() as int,
        ) == spec_signature(key, spec_payload(id, iat, exp)),
        spec_parse20(spec_token(key, id, iat, exp).subrange(0, 20)) == Some(id),
        spec_parse20(spec_token(key, id, iat, exp).subrange(20, 40)) == Some(iat),
        spec_parse20(spec_token(key, id, iat, exp).subrange(40, 60)) == Some(exp),
{
    let a = dec_digits(id as nat, 20);
    let b = dec_digits(iat as nat, 20);
    let c = dec_digits(exp as nat, 20);
    let payload = spec_payload(id, iat, exp);
    let t = spec_token(key, id, iat, exp);
    lemma_dec_digits_len(id as nat, 20);
    lemma_dec_digits_len(iat as nat, 20);
    lemma_dec_digits_len(exp as nat, 20);
    assert(t.subrange(0, 60) =~= payload);
    assert(t.subrange(60, t.len() as int) =~= spec_signature(key, payload));
    assert(t.subrange(0, 20) =~= a);
    assert(t.subrange(20, 40) =~= b);
    assert(t.subrange(40, 60) =~= c);
    lemma_dec_digits_are_digits(id as nat, 20);
    lemma_dec_digits_are_digits(iat as nat, 20);
    lemma_dec_digits_are_digits(exp as nat, 20);
    lemma_u64_fits_20_digits(id);
    lemma_u64_fits_20_digits(iat);
    lemma_u64_fits_20_digits(exp);
    lemma_dec_roundtrip(id as nat, 20);
    lemma_dec_roundtrip(iat as nat, 20);
    lemma_dec_roundtrip(exp as nat, 20);
}

/// Round trip: a token issued for `id` verifies to `id` at any time up to
/// its expiry, under the key it was signed with.
pub proof fn lemma_token_roundtrip(key: Seq<u8>, id: u64, iat: u64, exp: u64, now: u64)
    requires
        now <= exp,
    ensures
        spec_verify(key, spec_token(key, id, iat, exp), now) == Ok::<u64, AppError>(id),
{
    lemma_issued_token_shape(key, id, iat, exp);
}

/// Expiry: at any time strictly past `exp`, verification of an issued token
/// fails with `TokenExpired`, never with a wrong id.
pub proof fn lemma_token_expiry(key: Seq<u8>, id: u64, iat: u64, exp: u64, now: u64)
    requires
        now > exp,
    ensures
        spec_verify(key, spec_token(key, id, iat, exp), now) == Err::<u64, AppError>(
            AppError::TokenExpired,
        ),
{
    lemma_issued_token_shape(key, id, iat, exp);
}

/// Tamper rejection for the tag: changing any byte of the signature part of
/// an issued token makes verification fail with `InvalidToken`. (A change
/// inside the sixty clear bytes alters the signed message instead; rejecting
/// that rests on the collision resistance of the MAC, which these contracts
/// do not state, so it is checked by tests rather than proved.)
pub proof fn lemma_token_sig_tamper_rejected(
    key: Seq<u8>,
    id: u64,
    iat: u64,
    exp: u64,
    t: Seq<u8>,
    i: int,
    now: u64,
)
    requires
        t.len() == spec_token(key, id, iat, exp).len(),
        60 <= i < t.len(),
        t[i] != spec_token(key, id, iat, exp)[i],
        forall|j: int| 0 <= j < t.len() && j != i ==> t[j] == spec_token(key, id, iat, exp)[j],
    ensures
        spec_verify(key, t, now) == Err::<u64, AppError>(AppError::InvalidToken),
{
    let tok = spec_token(key, id, iat, exp);
    lemma_issued_token_shape(key, id, iat, exp);
    assert(t.subrange(0, 60) =~= tok.subrange(0, 60));
    let sig = spec_signature(key, t.subrange(0, 60));
    assert(t.subrange(60, t.len() as int)[i - 60] == t[i]);
    assert(tok.subrange(60, tok.len() as int)[i - 60] == tok[i]);
    assert(t.subrange(60, t.len() as int) != sig);
}

/// Tamper rejection for the id field: a token that differs from an issued
/// one in a byte of the first twenty never verifies to the id that token
/// was issued for: it is rejected, or names a different identity. (That it
/// is in fact rejected rests on the collision resistance of the MAC, which
/// these contracts do not state; tests check it on concrete tokens.)
pub proof fn lemma_token_id_tamper_never_same_id(
    key: Seq<u8>,
    id: u64,
    iat: u64,
    exp: u64,
    t: Seq<u8>,
    i: int,
    now: u64,
    x: u64,
)
    requires
        t.len() == spec_token(key, id, iat, exp).len(),
        0 <= i < 20,
        t[i] != spec_token(key, id, iat, exp)[i],
        spec_verify(key, t, now) == Ok::<u64, AppError>(x),
    ensures
        x != id,
{
    let tok = spec_token(key, id, iat, exp);
    lemma_issued_token_shape(key, id, iat, exp);
    let mine = tok.subrange(0, 20);
    let theirs = t.subrange(0, 20);
    assert(theirs[i] == t[i] && mine[i] == tok[i]);
    assert(theirs != mine);
    assert(spec_parse20(theirs) == Some(x));
    if x == id {
        crate::numfmt::lemma_dec_val_nonneg(theirs);
        crate::numfmt::lemma_dec_val_nonneg(mine);
        assert(crate::numfmt::dec_val(theirs) == x);
        assert(crate::numfmt::dec_val(mine) == id);
        lemma_dec_val_injective(theirs, mine);
    }
}

} // verus!

