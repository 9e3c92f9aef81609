//! The authentication guard: turns the raw bytes of an Authorization
//! header into an authenticated principal id, or a terminal rejection.
//!
//! The header must be decodable text (visible ASCII or tab, as the HTTP
//! layer defines it), at least one byte longer than the fixed
//! seven-byte scheme prefix (`Bearer `), and carry a token that
//! verifies.  Verification failures are all reported as a generic
//! unauthenticated error so that no signature or expiry detail leaks to
//! the caller.

use vstd::prelude::*;
use vstd::string::StringSliceAdditionalSpecFns;
use vstd::utf8::*;
use crate::JwtConfig;
use crate::error::{AppError, AppErrorType};
use crate::jwt::{token_check, validate_token, TokenCheck};
use crate::text::{lemma_ascii_valid_utf8, string_from_utf8};

verus! {

/// The length of the scheme prefix (`Bearer `) that is stripped, never
/// compared.
pub const SCHEME_PREFIX_LEN: usize = 7;

/// The authenticated principal: the numeric user id the rest of the
/// system relies on.
#[derive(Debug)]
pub struct JwtAuthenticationGuard {
    pub id: i32,
}

/// Whether the header bytes are decodable text: visible ASCII or tab.
pub open spec fn header_decodable(h: Seq<u8>) -> bool {
    forall|i: int| 0 <= i < h.len() ==> (32 <= #[trigger] h[i] < 127 || h[i] == 9)
}

/// The view of an optional header.
pub open spec fn header_view(h: Option<&Vec<u8>>) -> Option<Seq<u8>> {
    match h {
        Option::None => Option::None,
        Option::Some(v) => Option::Some(v@),
    }
}

/// The outcome of guarding a request.
pub ghost enum GuardCheck {
    /// No Authorization header was presented.
    NoHeader,
    /// The header bytes are not decodable text.
    NotDecodable,
    /// The header is shorter than the scheme prefix plus one byte.
    TooShort,
    /// The carried token did not verify.
    BadToken,
    /// The authenticated principal's user id.
    Authenticated(int),
}

/// The guard pipeline over the raw header: presence, decodability,
/// length, then token verification on the bytes after the scheme
/// prefix.
pub open spec fn guard_check(h: Option<Seq<u8>>, secret: Seq<u8>, now: int) -> GuardCheck {
    match h {
        Option::None => GuardCheck::NoHeader,
        Option::Some(hb) => if !header_decodable(hb) {
            GuardCheck::NotDecodable
        } else if hb.len() < SCHEME_PREFIX_LEN + 1 {
            GuardCheck::TooShort
        } else {
            match token_check(
                hb.subrange(SCHEME_PREFIX_LEN as int, hb.len() as int),
                secret,
                now,
            ) {
                TokenCheck::Valid(c) => GuardCheck::Authenticated(c.user.user_id),
                _ => GuardCheck::BadToken,
            }
        },
    }
}

impl JwtAuthenticationGuard {
    /// Authenticates a request from its Authorization header bytes: a
    /// missing or too-short header and every token failure are rejected
    /// as unauthenticated with a generic message; undecodable bytes are
    /// rejected as a malformed credential.
    #[verifier::loop_isolation(false)]
    pub fn from_header(header: Option<&Vec<u8>>, config: &JwtConfig, now: usize) -> (r: Result<
        JwtAuthenticationGuard,
        AppError,
    >)
        ensures
            r is Ok <==> guard_check(header_view(header), encode_utf8(config.secret@), now as int)
                is Authenticated,
            r matches Ok(g) ==> guard_check(
                header_view(header),
                encode_utf8(config.secret@),
                now as int,
            ) == GuardCheck::Authenticated(g.id as int),
            r matches Err(e) ==> e.cause is None && (if guard_check(
                header_view(header),
                encode_utf8(config.secret@),
                now as int,
            ) is NotDecodable {
                &&& e.error_type == AppErrorType::MalformedCredential
                &&& e.message matches Some(m) && m@ == "Invalid token format"@
            } else {
                &&& e.error_type == AppErrorType::Unauthenticated
                &&& e.message matches Some(m) && m@ == "Authorization is required!"@
            }),
    {
        let hb = match header {
            None => {
                return Err(
                    AppError::new(
                        Some("Authorization is required!".to_owned()),
                        None,
                        AppErrorType::Unauthenticated,
                    ),
                );
            },
            Some(h) => h,
        };
        let n = hb.len();
        let mut i: usize = 0;
        while i < n
            invariant
                0 <= i <= n,
                n == hb@.len(),
                forall|j: int| 0 <= j < i ==> (32 <= #[trigger] hb@[j] < 127 || hb@[j] == 9),
            decreases n - i,
        {
            let b = hb[i];
            if !(32 <= b && b < 127 || b == 9) {
                return Err(
                    AppError::new(
                        Some("Invalid token format".to_owned()),
                        None,
                        AppErrorType::MalformedCredential,
                    ),
                );
            }
            i += 1;
        }
        if n < SCHEME_PREFIX_LEN + 1 {
            return Err(
                AppError::new(
                    Some("Authorization is required!".to_owned()),
                    None,
                    AppErrorType::Unauthenticated,
                ),
            );
        }
        let mut tv: Vec<u8> = Vec::new();
        let mut j: usize = SCHEME_PREFIX_LEN;
        while j < n
            invariant
                SCHEME_PREFIX_LEN <= j <= n,
                n == hb@.len(),
                header_decodable(hb@),
                tv@ =~= hb@.subrange(SCHEME_PREFIX_LEN as int, j as int),
            decreases n - j,
        {
            tv.push(hb[j]);
            j += 1;
            assert(tv@ =~= hb@.subrange(SCHEME_PREFIX_LEN as int, j as int));
        }
        let ghost suffix = hb@.subrange(SCHEME_PREFIX_LEN as int, n as int);
        proof {
            assert forall|k: int| 0 <= k < suffix.len() implies #[trigger] suffix[k] < 128 by {
                assert(suffix[k] == hb@[SCHEME_PREFIX_LEN + k]);
            }
            lemma_ascii_valid_utf8(suffix);
        }
        let token = match string_from_utf8(tv) {
            Some(t) => t,
            None => {
                proof {
                    assert(false);
                }
                return Err(AppError::new(None, None, AppErrorType::Unauthenticated));
            },
        };
        proof {
            decode_utf8_encode_utf8(suffix);
            assert(encode_utf8(token@) == suffix);
        }
        match validate_token(token.as_str(), config, now) {
            Ok(claims) => Ok(JwtAuthenticationGuard { id: claims.user.user_id }),
            Err(_) => Err(
                AppError::new(
                    Some("Authorization is required!".to_owned()),
                    None,
                    AppErrorType::Unauthenticated,
                ),
            ),
        }
    }
}

} // verus!
