//! The session guard: the hard gate in front of every protected operation.
//!
//! Given the raw `Authorization` header value, it extracts the bearer token
//! and verifies it against the codec; on any failure the caller must stop
//! before reaching a handler or service. An absent or malformed header is
//! `Unauthenticated`; a present bearer token is judged by the codec alone.

use vstd::prelude::*;
use crate::error::AppError;
use crate::token::{spec_verify, TokenCodec};

verus! {

/// The seven bytes of the `Bearer ` scheme prefix, space included.
pub open spec fn spec_bearer_prefix() -> Seq<u8> {
    seq![66u8, 101u8, 97u8, 114u8, 101u8, 114u8, 32u8]
}

/// The token carried by a well-formed `Authorization` header value: the
/// non-empty rest after the `Bearer ` scheme. `None` when the header is
/// absent, has another scheme, or carries an empty token.
pub open spec fn spec_bearer_token(header: Option<Seq<u8>>) -> Option<Seq<u8>> {
    match header {
        None => None,
        Some(h) => if h.len() > 7 && h.subrange(0, 7) == spec_bearer_prefix() {
            Some(h.subrange(7, h.len() as int))
        } else {
            None
        },
    }
}

/// Extracts the bearer token from a raw header value, byte for byte.
pub fn extract_bearer_token(header: Option<&Vec<u8>>) -> (r: Option<Vec<u8>>)
    ensures
        match r {
            Some(t) => spec_bearer_token(match header {
                Some(h) => Some::<Seq<u8>>(h@),
                None => None::<Seq<u8>>,
            }) == Some(t@),
            None => spec_bearer_token(match header {
                Some(h) => Some::<Seq<u8>>(h@),
                None => None::<Seq<u8>>,
            }) is None,
        },
{
    let h = match header {
        Some(h) => h,
        None => {
            return None;
        },
    };
    let n = h.len();
    if n <= 7 {
        return None;
    }
    if h[0] != 66 || h[1] != 101 || h[2] != 97 || h[3] != 114 || h[4] != 101 || h[5] != 114 || h[6]
        != 32 {
        proof {
            assert(h@.subrange(0, 7) != spec_bearer_prefix());
        }
        return None;
    }
    proof {
        assert(h@.subrange(0, 7) =~= spec_bearer_prefix());
    }
    let mut t: Vec<u8> = Vec::new();
    let mut i: usize = 7;
    while i < n
        invariant
            7 <= i <= n,
            n == h@.len(),
            t@ == h@.subrange(7, i as int),
        decreases n - i,
    {
        let b = h[i];
        t.push(b);
        proof {
            assert(t@ =~= h@.subrange(7, i as int + 1));
        }
        i += 1;
    }
    Some(t)
}

/// The guard itself: absent or malformed header is `Unauthenticated`; a
/// bearer token is judged by the codec, at time `now`.
pub fn authenticate(codec: &TokenCodec, header: Option<&Vec<u8>>, now: u64) -> (r: Result<
    u64,
    AppError,
>)
    ensures
        ({
            let h = match header {
                Some(h) => Some::<Seq<u8>>(h@),
                None => None::<Seq<u8>>,
            };
            match spec_bearer_token(h) {
                None => r == Err::<u64, AppError>(AppError::Unauthenticated),
                Some(t) => r == spec_verify(codec.key(), t, now),
            }
        }),
{
    match extract_bearer_token(header) {
        Some(t) => codec.verify_token(t.as_slice(), now),
        None => Err(AppError::Unauthenticated),
    }
}

} // verus!
