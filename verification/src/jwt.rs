//! The token service: minting and verifying signed, self-contained
//! bearer tokens.
//!
//! A token is the claims payload (see [`crate::codec`]) rendered as ASCII
//! characters, the separator `~`, and the HMAC-SHA256 signature of the
//! payload bytes, base64-encoded by the signing crate.  Verification
//! recomputes the signature over the received payload, compares it with
//! the received signature, parses the payload and checks the expiry
//! instant — it is a pure function of the token bytes, the shared secret
//! and the clock reading, and consults no store.

use vstd::prelude::*;
use vstd::slice::slice_subrange;
use vstd::string::StringSliceAdditionalSpecFns;
use vstd::utf8::*;
use crate::JwtConfig;
use crate::codec::{
    all_payload, enc_claims, encode_claims, lemma_enc_claims_payload, lemma_sp_claims_enc,
    parse_claims, sp_claims,
};
use crate::entity::{Permission, PermissionV, Role, RoleV, User, UserV};
use crate::error::{AppError, AppErrorType};
use crate::model::{Claims, ClaimsV};
use crate::text::{ascii_chars, ascii_to_string, bytes_eq, lemma_ascii_valid_utf8};

verus! {

/// The base64 rendering of the HMAC-SHA256 tag that the signing crate
/// computes over a message with a secret: a fixed function of the two
/// arguments.
pub uninterp spec fn hmac_sig_of(secret: Seq<u8>, message: Seq<u8>) -> Seq<char>;

/// Relies on `jsonwebtoken::crypto::sign` with `Algorithm::HS256` and an
/// `EncodingKey::from_secret` key: under the crate's own (RustCrypto)
/// provider this computes the HMAC-SHA256 tag of the message — a
/// deterministic function of message and secret — encodes it in base64,
/// and never fails, because an HMAC key of any length is accepted.
#[verifier::external_body]
fn sign_hs256(message: &[u8], secret: &[u8]) -> (r: Result<String, ()>)
    ensures
        r is Ok,
        r matches Ok(s) ==> s@ == hmac_sig_of(secret@, message@),
{
    match jsonwebtoken::crypto::sign(
        message,
        &jsonwebtoken::EncodingKey::from_secret(secret),
        jsonwebtoken::Algorithm::HS256,
    ) {
        Ok(s) => Ok(s),
        Err(_) => Err(()),
    }
}

/// The separator between payload and signature.
pub const TILDE: u8 = 126;

/// The claims snapshot minted for a principal: the subject is the email
/// address, and the grant snapshot is taken by value.
pub open spec fn minted_claims(
    user: UserV,
    role: RoleV,
    permissions: Seq<PermissionV>,
    iat: int,
    exp: int,
) -> ClaimsV {
    ClaimsV { sub: user.email_address, user, role, permissions, iat, exp }
}

/// The characters of the token minted for a claims snapshot.
pub open spec fn token_chars_of(c: ClaimsV, secret: Seq<u8>) -> Seq<char> {
    ascii_chars(enc_claims(c)) + seq!['~'] + hmac_sig_of(secret, enc_claims(c))
}

/// The position of the first separator byte at or after `pos`, or the
/// length when there is none.
pub open spec fn first_tilde(b: Seq<u8>, pos: int) -> int
    decreases b.len() - pos,
{
    if pos < 0 || pos >= b.len() {
        b.len() as int
    } else if b[pos] == TILDE {
        pos
    } else {
        first_tilde(b, pos + 1)
    }
}

/// The outcome of checking a token's bytes against a secret and a clock
/// reading.
pub ghost enum TokenCheck {
    /// No separator: the token is malformed.
    NoSeparator,
    /// The signature part is not the signature of the payload part.
    BadSignature,
    /// The payload is not a claims encoding.
    BadPayload,
    /// A well-formed, correctly signed token whose expiry has passed.
    Expired(ClaimsV),
    /// A valid token and the claims it carries.
    Valid(ClaimsV),
}

/// The complete verification pipeline over the token's bytes: split at
/// the first separator, compare the received signature against the
/// recomputed one, parse the payload, and compare the expiry against
/// `now`.  Expiry is absolute: a token is expired exactly when
/// `now > exp`.
pub open spec fn token_check(tb: Seq<u8>, secret: Seq<u8>, now: int) -> TokenCheck {
    let i = first_tilde(tb, 0);
    if i == tb.len() {
        TokenCheck::NoSeparator
    } else {
        let payload = tb.subrange(0, i);
        let sig = tb.subrange(i + 1, tb.len() as int);
        if sig != encode_utf8(hmac_sig_of(secret, payload)) {
            TokenCheck::BadSignature
        } else {
            match sp_claims(payload) {
                Option::None => TokenCheck::BadPayload,
                Option::Some(c) => if now > c.exp {
                    TokenCheck::Expired(c)
                } else {
                    TokenCheck::Valid(c)
                },
            }
        }
    }
}

/// Mints a signed token embedding the principal's identity, role and
/// permission snapshot, issued at `now` and expiring `expires_in`
/// minutes later.
pub fn generate_token(
    user: User,
    role: Role,
    permissions: Vec<Permission>,
    config: &JwtConfig,
    now: usize,
) -> (r: Result<String, AppError>)
    requires
        0 <= config.expires_in,
        now + 60 * config.expires_in <= usize::MAX,
    ensures
        r is Ok,
        r matches Ok(t) ==> t@ == token_chars_of(
            minted_claims(
                user@,
                role@,
                Seq::new(permissions@.len(), |i: int| permissions@[i]@),
                now as int,
                now + 60 * config.expires_in,
            ),
            encode_utf8(config.secret@),
        ),
{
    let iat = now;
    let exp = now + 60 * (config.expires_in as usize);
    let sub = user.email_address.clone();
    let claims = Claims { sub, user, role, permissions, iat, exp };
    let payload = encode_claims(&claims);
    let sig = match sign_hs256(payload.as_slice(), config.secret.as_str().as_bytes()) {
        Ok(s) => s,
        Err(_) => {
            proof {
                assert(false);
            }
            return Err(AppError::new(None, None, AppErrorType::Unauthenticated));
        },
    };
    proof {
        lemma_enc_claims_payload(claims@);
    }
    let ghost payload_bytes = payload@;
    let mut token = ascii_to_string(payload);
    token.append("~");
    token.append(sig.as_str());
    proof {
        reveal_strlit("~");
        assert("~"@ =~= seq!['~']);
        assert(token@ =~= ascii_chars(payload_bytes) + seq!['~'] + hmac_sig_of(
            encode_utf8(config.secret@),
            payload_bytes,
        ));
    }
    Ok(token)
}

/// The first separator is exactly where a scan that saw no earlier
/// separator stopped.
proof fn lemma_first_tilde_exact(b: Seq<u8>, i: int)
    requires
        0 <= i <= b.len(),
        forall|j: int| 0 <= j < i ==> b[j] != TILDE,
        i < b.len() ==> b[i] == TILDE,
    ensures
        first_tilde(b, 0) == if i < b.len() {
            i
        } else {
            b.len() as int
        },
{
    lemma_first_tilde_from(b, 0, i);
}

/// Helper: the scan from `pos` to `i` finds the separator at `i`.
proof fn lemma_first_tilde_from(b: Seq<u8>, pos: int, i: int)
    requires
        0 <= pos <= i <= b.len(),
        forall|j: int| pos <= j < i ==> b[j] != TILDE,
        i < b.len() ==> b[i] == TILDE,
    ensures
        first_tilde(b, pos) == if i < b.len() {
            i
        } else {
            b.len() as int
        },
    decreases i - pos,
{
    if pos < i {
        lemma_first_tilde_from(b, pos + 1, i);
    }
}

/// Verifies a presented token: fails when it is malformed, its signature
/// does not match, or its expiry instant lies before `now`; otherwise
/// returns the embedded claims.  A pure function of the token bytes, the
/// shared secret and the clock reading.
pub fn validate_token(token: &str, config: &JwtConfig, now: usize) -> (r: Result<
    Claims,
    AppError,
>)
    ensures
        r is Ok <==> token_check(token.spec_bytes(), encode_utf8(config.secret@), now as int)
            is Valid,
        r matches Ok(c) ==> token_check(token.spec_bytes(), encode_utf8(config.secret@), now as int)
            == TokenCheck::Valid(c@),
        r matches Err(e) ==> e.error_type == AppErrorType::Unauthenticated && e.message is None
            && (e.cause matches Some(c) && c@ == (match token_check(
            token.spec_bytes(),
            encode_utf8(config.secret@),
            now as int,
        ) {
            TokenCheck::BadSignature => "The token signature is invalid!"@,
            TokenCheck::Expired(_) => "The token has expired!"@,
            _ => "The token is malformed!"@,
        })),
{
    let ghost secret_bytes = encode_utf8(config.secret@);
    let b = token.as_bytes();
    let n = b.len();
    let mut i: usize = 0;
    while i < n && b[i] != TILDE
        invariant
            0 <= i <= n,
            n == b@.len(),
            forall|j: int| 0 <= j < i ==> b@[j] != TILDE,
        decreases n - i,
    {
        i += 1;
    }
    proof {
        lemma_first_tilde_exact(b@, i as int);
    }
    if i == n {
        return Err(
            AppError::new(None, Some("The token is malformed!".to_owned()), AppErrorType::Unauthenticated),
        );
    }
    let payload = slice_subrange(b, 0, i);
    let sigpart = slice_subrange(b, i + 1, n);
    let expected = match sign_hs256(payload, config.secret.as_str().as_bytes()) {
        Ok(s) => s,
        Err(_) => {
            proof {
                assert(false);
            }
            return Err(AppError::new(None, None, AppErrorType::Unauthenticated));
        },
    };
    if !bytes_eq(expected.as_str().as_bytes(), sigpart) {
        return Err(
            AppError::new(
                None,
                Some("The token signature is invalid!".to_owned()),
                AppErrorType::Unauthenticated,
            ),
        );
    }
    let claims = match parse_claims(payload) {
        None => {
            return Err(
                AppError::new(
                    None,
                    Some("The token is malformed!".to_owned()),
                    AppErrorType::Unauthenticated,
                ),
            );
        },
        Some(c) => c,
    };
    if now > claims.exp {
        return Err(
            AppError::new(
                None,
                Some("The token has expired!".to_owned()),
                AppErrorType::Unauthenticated,
            ),
        );
    }
    Ok(claims)
}

/// `encode_utf8` distributes over concatenation.
proof fn lemma_encode_utf8_cat(a: Seq<char>, b: Seq<char>)
    ensures
        encode_utf8(a + b) =~= encode_utf8(a) + encode_utf8(b),
    decreases a.len(),
{
    if a.len() == 0 {
        assert(a + b =~= b);
    } else {
        lemma_encode_utf8_cat(a.drop_first(), b);
        assert((a + b).drop_first() =~= a.drop_first() + b);
        assert(encode_utf8(a + b) =~= encode_scalar((a + b)[0] as u32) + encode_utf8(
            (a + b).drop_first(),
        ));
    }
}

/// The bytes of a freshly minted token: the payload bytes, the separator
/// and the bytes of the signature characters.
proof fn lemma_token_bytes(c: ClaimsV, secret: Seq<u8>)
    ensures
        encode_utf8(token_chars_of(c, secret)) =~= enc_claims(c) + seq![TILDE] + encode_utf8(
            hmac_sig_of(secret, enc_claims(c)),
        ),
{
    let payload = enc_claims(c);
    let sig = hmac_sig_of(secret, payload);
    lemma_enc_claims_payload(c);
    assert forall|k: int| 0 <= k < payload.len() implies #[trigger] payload[k] < 128 by {}
    lemma_ascii_valid_utf8(payload);
    let pchars = ascii_chars(payload);
    assert(is_ascii_chars(pchars + seq!['~'])) by {
        assert(forall|k: int|
            0 <= k < (pchars + seq!['~']).len() ==> (#[trigger] (pchars + seq!['~'])[k] as nat)
                < 128);
    }
    lemma_encode_utf8_cat(pchars + seq!['~'], sig);
    is_ascii_chars_encode_utf8(pchars + seq!['~']);
    assert(encode_utf8(pchars + seq!['~']) =~= payload + seq![TILDE]);
    assert(token_chars_of(c, secret) =~= (pchars + seq!['~']) + sig);
}

/// The split of a minted token's bytes: the separator stands right after
/// the payload, which the prefix spells, and the suffix spells the
/// signature.
proof fn lemma_token_split(c: ClaimsV, secret: Seq<u8>)
    ensures
        enc_claims(c).len() < encode_utf8(token_chars_of(c, secret)).len(),
        first_tilde(encode_utf8(token_chars_of(c, secret)), 0) == enc_claims(c).len(),
        encode_utf8(token_chars_of(c, secret)).subrange(0, enc_claims(c).len() as int)
            =~= enc_claims(c),
        encode_utf8(token_chars_of(c, secret)).subrange(
            enc_claims(c).len() as int + 1,
            encode_utf8(token_chars_of(c, secret)).len() as int,
        ) =~= encode_utf8(hmac_sig_of(secret, enc_claims(c))),
{
    let payload = enc_claims(c);
    let sig = hmac_sig_of(secret, payload);
    let tb = encode_utf8(token_chars_of(c, secret));
    lemma_token_bytes(c, secret);
    lemma_enc_claims_payload(c);
    let k = payload.len() as int;
    assert forall|j: int| 0 <= j < k implies tb[j] != TILDE by {
        assert(tb[j] == payload[j]);
    }
    assert(tb[k] == TILDE);
    lemma_first_tilde_from(tb, 0, k);
    assert(tb.subrange(0, k) =~= payload);
    assert(tb.subrange(k + 1, tb.len() as int) =~= encode_utf8(sig));
}

/// Round trip: a token minted from well-formed claims verifies, at any
/// instant not past its expiry, to exactly the minted claims.
pub proof fn lemma_mint_verify_roundtrip(c: ClaimsV, secret: Seq<u8>, now: int)
    requires
        c.wf(),
        now <= c.exp,
    ensures
        token_check(encode_utf8(token_chars_of(c, secret)), secret, now) == TokenCheck::Valid(c),
{
    lemma_token_split(c, secret);
    lemma_sp_claims_enc(c);
}

/// The first separator does not move when a byte strictly after it
/// changes.
proof fn lemma_first_tilde_update(b: Seq<u8>, j: int, x: u8)
    requires
        0 <= first_tilde(b, 0) < j < b.len(),
    ensures
        first_tilde(b.update(j, x), 0) == first_tilde(b, 0),
{
    let k = first_tilde(b, 0);
    lemma_first_tilde_props(b, 0);
    let b2 = b.update(j, x);
    assert forall|m: int| 0 <= m < k implies b2[m] != TILDE by {
        assert(b2[m] == b[m]);
    }
    assert(b2[k] == TILDE);
    lemma_first_tilde_from(b2, 0, k);
}

/// What the first-separator scan guarantees.
proof fn lemma_first_tilde_props(b: Seq<u8>, pos: int)
    requires
        0 <= pos <= b.len(),
    ensures
        pos <= first_tilde(b, pos) <= b.len(),
        forall|m: int| pos <= m < first_tilde(b, pos) ==> b[m] != TILDE,
        first_tilde(b, pos) < b.len() ==> b[first_tilde(b, pos)] == TILDE,
    decreases b.len() - pos,
{
    if pos < b.len() && b[pos] != TILDE {
        lemma_first_tilde_props(b, pos + 1);
    }
}

/// Tampering: altering any single byte of the signature part of a minted
/// token makes verification fail, at every instant.
#[verifier::spinoff_prover]
#[verifier::rlimit(100)]
pub proof fn lemma_altered_signature_rejected(
    c: ClaimsV,
    secret: Seq<u8>,
    now: int,
    j: int,
    x: u8,
)
    requires
        enc_claims(c).len() < j < encode_utf8(token_chars_of(c, secret)).len(),
        x != encode_utf8(token_chars_of(c, secret))[j],
    ensures
        token_check(encode_utf8(token_chars_of(c, secret)).update(j, x), secret, now)
            == TokenCheck::BadSignature,
{
    let payload = enc_claims(c);
    let tb = encode_utf8(token_chars_of(c, secret));
    let tb2 = tb.update(j, x);
    let k = payload.len() as int;
    lemma_token_split(c, secret);
    lemma_first_tilde_update(tb, j, x);
    assert(tb2.subrange(0, k) =~= tb.subrange(0, k));
    let sig2 = tb2.subrange(k + 1, tb2.len() as int);
    assert(sig2[j - k - 1] == x);
    assert(tb.subrange(k + 1, tb.len() as int)[j - k - 1] == tb[j]);
    assert(sig2 != encode_utf8(hmac_sig_of(secret, payload)));
}

/// Expiry is absolute: a token that verifies at one instant verifies at
/// every instant up to its expiry and is rejected as expired at every
/// later instant.
pub proof fn lemma_expiry_boundary(tb: Seq<u8>, secret: Seq<u8>, now: int, c: ClaimsV)
    requires
        token_check(tb, secret, now) == TokenCheck::Valid(c),
    ensures
        forall|m: int| m <= c.exp ==> token_check(tb, secret, m) == TokenCheck::Valid(c),
        forall|m: int| m > c.exp ==> token_check(tb, secret, m) == TokenCheck::Expired(c),
{
}

} // verus!
