//! The claims payload codec.
//!
//! A claims snapshot is rendered as a sequence of ASCII bytes: each field
//! is terminated by `.`, numbers are decimal with an optional leading
//! `-`, strings are the lowercase hexadecimal rendering of their UTF-8
//! bytes, optional strings are tagged `n` (absent) or `s` (present), and
//! booleans are `0` or `1`.  The permission list is written as its length
//! followed by that many permission records.
//!
//! The encoding is injective and self-delimiting; the parser accepts a
//! byte sequence exactly as the specification parser `sp_claims` says and
//! the round trip is proved in [`lemma_sp_claims_enc`].

use vstd::prelude::*;
use vstd::utf8::*;
use crate::entity::{Permission, PermissionV, Role, RoleV, User, UserV};
use crate::model::{Claims, ClaimsV};
use crate::text::{
    dec_digit_byte, dec_digits, hex_digit_byte, hex_digits, lemma_dec_digits_range, push_dec_u64,
    push_hex, string_from_utf8,
};

verus! {

/// The field terminator `.`.
pub const DOT: u8 = 46;

/// The negative-sign byte `-`.
pub const DASH: u8 = 45;

/// The tag byte `n` of an absent optional string.
pub const TAG_NONE: u8 = 110;

/// The tag byte `s` of a present optional string.
pub const TAG_SOME: u8 = 115;

// --- specification-level encoders ------------------------------------

/// A non-negative number field: decimal digits and the terminator.
pub open spec fn enc_u64(n: nat) -> Seq<u8> {
    dec_digits(n) + seq![DOT]
}

/// A signed number field.
pub open spec fn enc_i64(n: int) -> Seq<u8> {
    if n < 0 {
        seq![DASH] + dec_digits((-n) as nat) + seq![DOT]
    } else {
        dec_digits(n as nat) + seq![DOT]
    }
}

/// A string field: the hexadecimal rendering of the UTF-8 bytes and the
/// terminator.
pub open spec fn enc_str(s: Seq<char>) -> Seq<u8> {
    hex_digits(encode_utf8(s)) + seq![DOT]
}

/// An optional string field.
pub open spec fn enc_opt_str(o: Option<Seq<char>>) -> Seq<u8> {
    match o {
        Option::None => seq![TAG_NONE, DOT],
        Option::Some(s) => seq![TAG_SOME] + enc_str(s),
    }
}

/// A boolean field.
pub open spec fn enc_bool(b: bool) -> Seq<u8> {
    if b {
        seq![49u8, DOT]
    } else {
        seq![48u8, DOT]
    }
}

/// A permission record.
pub open spec fn enc_permission(p: PermissionV) -> Seq<u8> {
    enc_i64(p.permission_id) + enc_str(p.name) + enc_i64(p.created_at)
}

/// A role record.
pub open spec fn enc_role(r: RoleV) -> Seq<u8> {
    enc_i64(r.role_id) + enc_str(r.name) + enc_i64(r.created_at)
}

/// A user record.
pub open spec fn enc_user(u: UserV) -> Seq<u8> {
    enc_i64(u.user_id) + enc_str(u.first_name) + enc_opt_str(u.middle_name) + enc_str(u.surname)
        + enc_str(u.email_address) + enc_opt_str(u.mobile_number) + enc_bool(u.enabled) + enc_bool(
        u.email_confirmed,
    ) + enc_i64(u.role_id) + enc_i64(u.created_at)
}

/// The permission records, one after the other.
pub open spec fn enc_perm_seq(ps: Seq<PermissionV>) -> Seq<u8>
    decreases ps.len(),
{
    if ps.len() == 0 {
        seq![]
    } else {
        enc_permission(ps[0]) + enc_perm_seq(ps.drop_first())
    }
}

/// The whole claims payload.
pub open spec fn enc_claims(c: ClaimsV) -> Seq<u8> {
    enc_str(c.sub) + enc_user(c.user) + enc_role(c.role) + enc_u64(c.permissions.len())
        + enc_perm_seq(c.permissions) + enc_u64(c.iat as nat) + enc_u64(c.exp as nat)
}

// --- executable encoders ----------------------------------------------

/// Appends a non-negative number field.
pub fn push_u64_field(out: &mut Vec<u8>, n: u64)
    ensures
        final(out)@ == old(out)@ + enc_u64(n as nat),
{
    push_dec_u64(out, n);
    out.push(DOT);
    assert(final(out)@ =~= old(out)@ + enc_u64(n as nat));
}

/// Appends a signed number field.
pub fn push_i64_field(out: &mut Vec<u8>, n: i64)
    ensures
        final(out)@ == old(out)@ + enc_i64(n as int),
{
    if n < 0 {
        out.push(DASH);
        let mag: u64 = if n == i64::MIN {
            9223372036854775808u64
        } else {
            (-n) as u64
        };
        push_dec_u64(out, mag);
        out.push(DOT);
        assert(final(out)@ =~= old(out)@ + enc_i64(n as int));
    } else {
        push_dec_u64(out, n as u64);
        out.push(DOT);
        assert(final(out)@ =~= old(out)@ + enc_i64(n as int));
    }
}

/// Appends a string field.
pub fn push_str_field(out: &mut Vec<u8>, s: &str)
    ensures
        final(out)@ == old(out)@ + enc_str(s@),
{
    push_hex(out, s.as_bytes());
    out.push(DOT);
    assert(final(out)@ =~= old(out)@ + enc_str(s@));
}

/// Appends an optional string field.
pub fn push_opt_str_field(out: &mut Vec<u8>, o: &Option<String>)
    ensures
        final(out)@ == old(out)@ + enc_opt_str(crate::entity::opt_str_view(*o)),
{
    match o {
        None => {
            out.push(TAG_NONE);
            out.push(DOT);
        },
        Some(s) => {
            out.push(TAG_SOME);
            push_str_field(out, s.as_str());
        },
    }
    assert(final(out)@ =~= old(out)@ + enc_opt_str(crate::entity::opt_str_view(*o)));
}

/// Appends a boolean field.
pub fn push_bool_field(out: &mut Vec<u8>, b: bool)
    ensures
        final(out)@ == old(out)@ + enc_bool(b),
{
    if b {
        out.push(49);
    } else {
        out.push(48);
    }
    out.push(DOT);
    assert(final(out)@ =~= old(out)@ + enc_bool(b));
}

/// Appends a permission record.
pub fn push_permission(out: &mut Vec<u8>, p: &Permission)
    ensures
        final(out)@ == old(out)@ + enc_permission(p@),
{
    push_i64_field(out, p.permission_id as i64);
    push_str_field(out, p.name.as_str());
    push_i64_field(out, p.created_at);
    assert(final(out)@ =~= old(out)@ + enc_permission(p@));
}

/// Appends a role record.
pub fn push_role(out: &mut Vec<u8>, r: &Role)
    ensures
        final(out)@ == old(out)@ + enc_role(r@),
{
    push_i64_field(out, r.role_id as i64);
    push_str_field(out, r.name.as_str());
    push_i64_field(out, r.created_at);
    assert(final(out)@ =~= old(out)@ + enc_role(r@));
}

/// Appends a user record.
#[verifier::rlimit(50)]
pub fn push_user(out: &mut Vec<u8>, u: &User)
    ensures
        final(out)@ == old(out)@ + enc_user(u@),
{
    let ghost base = out@;
    let ghost uv = u@;
    push_i64_field(out, u.user_id as i64);
    let ghost p1 = enc_i64(uv.user_id);
    assert(out@ =~= base + p1);
    push_str_field(out, u.first_name.as_str());
    let ghost p2 = p1 + enc_str(uv.first_name);
    assert(out@ =~= base + p2);
    push_opt_str_field(out, &u.middle_name);
    let ghost p3 = p2 + enc_opt_str(uv.middle_name);
    assert(out@ =~= base + p3);
    push_str_field(out, u.surname.as_str());
    let ghost p4 = p3 + enc_str(uv.surname);
    assert(out@ =~= base + p4);
    push_str_field(out, u.email_address.as_str());
    let ghost p5 = p4 + enc_str(uv.email_address);
    assert(out@ =~= base + p5);
    push_opt_str_field(out, &u.mobile_number);
    let ghost p6 = p5 + enc_opt_str(uv.mobile_number);
    assert(out@ =~= base + p6);
    push_bool_field(out, u.enabled);
    let ghost p7 = p6 + enc_bool(uv.enabled);
    assert(out@ =~= base + p7);
    push_bool_field(out, u.email_confirmed);
    let ghost p8 = p7 + enc_bool(uv.email_confirmed);
    assert(out@ =~= base + p8);
    push_i64_field(out, u.role_id as i64);
    let ghost p9 = p8 + enc_i64(uv.role_id);
    assert(out@ =~= base + p9);
    push_i64_field(out, u.created_at);
    let ghost p10 = p9 + enc_i64(uv.created_at);
    assert(out@ =~= base + p10);
    assert(p10 =~= enc_user(uv));
}

/// Renders the whole claims payload.
pub fn encode_claims(c: &Claims) -> (r: Vec<u8>)
    ensures
        r@ == enc_claims(c@),
{
    let mut out: Vec<u8> = Vec::new();
    push_str_field(&mut out, c.sub.as_str());
    push_user(&mut out, &c.user);
    push_role(&mut out, &c.role);
    push_u64_field(&mut out, c.permissions.len() as u64);
    let ghost views = c@.permissions;
    let n = c.permissions.len();
    let ghost head = out@;
    let mut i: usize = 0;
    while i < n
        invariant
            i <= n,
            n == c.permissions@.len(),
            views == c@.permissions,
            views.len() == n,
            out@ == head + enc_perm_seq(views.take(i as int)),
        decreases n - i,
    {
        push_permission(&mut out, &c.permissions[i]);
        proof {
            lemma_enc_perm_seq_snoc(views, i as int);
            assert(c.permissions@[i as int]@ == views[i as int]);
        }
        i += 1;
    }
    assert(views.take(n as int) =~= views);
    push_u64_field(&mut out, c.iat as u64);
    push_u64_field(&mut out, c.exp as u64);
    assert(out@ =~= enc_claims(c@));
    out
}

// --- specification-level parsers ---------------------------------------

/// Whether a byte is an ASCII decimal digit.
pub open spec fn is_dec(x: u8) -> bool {
    48 <= x <= 57
}

/// Whether a byte is a lowercase hexadecimal digit.
pub open spec fn is_hex(x: u8) -> bool {
    is_dec(x) || (97 <= x <= 102)
}

/// The value of a hexadecimal digit byte.
pub open spec fn hex_val(x: u8) -> int
    recommends
        is_hex(x),
{
    if x <= 57 {
        x - 48
    } else {
        x - 87
    }
}

/// The length of the run of decimal digits starting at `pos`.
pub open spec fn dec_run(b: Seq<u8>, pos: int) -> int
    decreases b.len() - pos,
{
    if pos < 0 || pos >= b.len() || !is_dec(b[pos]) {
        0
    } else {
        1 + dec_run(b, pos + 1)
    }
}

/// The length of the run of hexadecimal digits starting at `pos`.
pub open spec fn hex_run(b: Seq<u8>, pos: int) -> int
    decreases b.len() - pos,
{
    if pos < 0 || pos >= b.len() || !is_hex(b[pos]) {
        0
    } else {
        1 + hex_run(b, pos + 1)
    }
}

/// The value of the `k` decimal digits starting at `pos`.
pub open spec fn val_of(b: Seq<u8>, pos: int, k: int) -> int
    decreases k,
{
    if k <= 0 {
        0
    } else {
        val_of(b, pos, k - 1) * 10 + (b[pos + k - 1] - 48)
    }
}

/// The bytes spelled by the `2 * nbytes` hexadecimal digits at `pos`.
pub open spec fn unhex(b: Seq<u8>, pos: int, nbytes: int) -> Seq<u8> {
    Seq::new(
        nbytes as nat,
        |i: int| (hex_val(b[pos + 2 * i]) * 16 + hex_val(b[pos + 2 * i + 1])) as u8,
    )
}

/// Parses a non-negative number field: a non-empty digit run, the
/// terminator, and a value that fits `u64`.
pub open spec fn sp_u64(b: Seq<u8>, pos: int) -> Option<(u64, int)> {
    let k = dec_run(b, pos);
    if k < 1 {
        Option::None
    } else if pos + k >= b.len() {
        Option::None
    } else if b[pos + k] != DOT {
        Option::None
    } else if val_of(b, pos, k) > u64::MAX {
        Option::None
    } else {
        Option::Some((val_of(b, pos, k) as u64, pos + k + 1))
    }
}

/// Parses a signed number field.
pub open spec fn sp_i64(b: Seq<u8>, pos: int) -> Option<(i64, int)> {
    if 0 <= pos < b.len() && b[pos] == DASH {
        match sp_u64(b, pos + 1) {
            Option::None => Option::None,
            Option::Some((m, p)) => if m <= 0x8000_0000_0000_0000u64 {
                Option::Some(((-(m as int)) as i64, p))
            } else {
                Option::None
            },
        }
    } else {
        match sp_u64(b, pos) {
            Option::None => Option::None,
            Option::Some((m, p)) => if m <= i64::MAX as u64 {
                Option::Some((m as i64, p))
            } else {
                Option::None
            },
        }
    }
}

/// Parses a boolean field.
pub open spec fn sp_bool(b: Seq<u8>, pos: int) -> Option<(bool, int)> {
    if 0 <= pos && pos + 1 < b.len() && (b[pos] == 48 || b[pos] == 49) && b[pos + 1] == DOT {
        Option::Some((b[pos] == 49, pos + 2))
    } else {
        Option::None
    }
}

/// Parses a string field: an even hexadecimal run, the terminator, and
/// bytes that are valid UTF-8.
pub open spec fn sp_str(b: Seq<u8>, pos: int) -> Option<(Seq<char>, int)> {
    let k = hex_run(b, pos);
    if pos < 0 || pos + k >= b.len() {
        Option::None
    } else if b[pos + k] != DOT {
        Option::None
    } else if k % 2 != 0 {
        Option::None
    } else {
        let bytes = unhex(b, pos, k / 2);
        if valid_utf8(bytes) {
            Option::Some((decode_utf8(bytes), pos + k + 1))
        } else {
            Option::None
        }
    }
}

/// Parses an optional string field.
pub open spec fn sp_opt_str(b: Seq<u8>, pos: int) -> Option<(Option<Seq<char>>, int)> {
    if pos < 0 || pos >= b.len() {
        Option::None
    } else if b[pos] == TAG_NONE {
        if pos + 1 < b.len() && b[pos + 1] == DOT {
            Option::Some((Option::None, pos + 2))
        } else {
            Option::None
        }
    } else if b[pos] == TAG_SOME {
        match sp_str(b, pos + 1) {
            Option::None => Option::None,
            Option::Some((s, p)) => Option::Some((Option::Some(s), p)),
        }
    } else {
        Option::None
    }
}

/// Parses a permission record.
pub open spec fn sp_permission(b: Seq<u8>, pos: int) -> Option<(PermissionV, int)> {
    match sp_i64(b, pos) {
        Option::None => Option::None,
        Option::Some((pid, p1)) => if !(i16::MIN <= pid <= i16::MAX) {
            Option::None
        } else {
            match sp_str(b, p1) {
                Option::None => Option::None,
                Option::Some((name, p2)) => match sp_i64(b, p2) {
                    Option::None => Option::None,
                    Option::Some((ca, p3)) => Option::Some(
                        (
                            PermissionV {
                                permission_id: pid as int,
                                name,
                                created_at: ca as int,
                            },
                            p3,
                        ),
                    ),
                },
            }
        },
    }
}

/// Parses a role record.
pub open spec fn sp_role(b: Seq<u8>, pos: int) -> Option<(RoleV, int)> {
    match sp_i64(b, pos) {
        Option::None => Option::None,
        Option::Some((rid, p1)) => if !(i16::MIN <= rid <= i16::MAX) {
            Option::None
        } else {
            match sp_str(b, p1) {
                Option::None => Option::None,
                Option::Some((name, p2)) => match sp_i64(b, p2) {
                    Option::None => Option::None,
                    Option::Some((ca, p3)) => Option::Some(
                        (RoleV { role_id: rid as int, name, created_at: ca as int }, p3),
                    ),
                },
            }
        },
    }
}

/// Parses a user record.
pub open spec fn sp_user(b: Seq<u8>, pos: int) -> Option<(UserV, int)> {
    match sp_i64(b, pos) {
        Option::None => Option::None,
        Option::Some((uid, p1)) => if !(i32::MIN <= uid <= i32::MAX) {
            Option::None
        } else {
            match sp_str(b, p1) {
                Option::None => Option::None,
                Option::Some((first_name, p2)) => match sp_opt_str(b, p2) {
                    Option::None => Option::None,
                    Option::Some((middle_name, p3)) => match sp_str(b, p3) {
                        Option::None => Option::None,
                        Option::Some((surname, p4)) => match sp_str(b, p4) {
                            Option::None => Option::None,
                            Option::Some((email_address, p5)) => match sp_opt_str(b, p5) {
                                Option::None => Option::None,
                                Option::Some((mobile_number, p6)) => match sp_bool(b, p6) {
                                    Option::None => Option::None,
                                    Option::Some((enabled, p7)) => match sp_bool(b, p7) {
                                        Option::None => Option::None,
                                        Option::Some((email_confirmed, p8)) => match sp_i64(
                                            b,
                                            p8,
                                        ) {
                                            Option::None => Option::None,
                                            Option::Some((rid, p9)) => if !(i16::MIN <= rid
                                                <= i16::MAX) {
                                                Option::None
                                            } else {
                                                match sp_i64(b, p9) {
                                                    Option::None => Option::None,
                                                    Option::Some((ca, p10)) => Option::Some(
                                                        (
                                                            UserV {
                                                                user_id: uid as int,
                                                                first_name,
                                                                middle_name,
                                                                surname,
                                                                email_address,
                                                                mobile_number,
                                                                enabled,
                                                                email_confirmed,
                                                                role_id: rid as int,
                                                                created_at: ca as int,
                                                            },
                                                            p10,
                                                        ),
                                                    ),
                                                }
                                            },
                                        },
                                    },
                                },
                            },
                        },
                    },
                },
            }
        },
    }
}

/// Parses `k` permission records one after the other.
pub open spec fn sp_perm_seq(b: Seq<u8>, pos: int, k: int) -> Option<(Seq<PermissionV>, int)>
    decreases k,
{
    if k <= 0 {
        Option::Some((Seq::empty(), pos))
    } else {
        match sp_permission(b, pos) {
            Option::None => Option::None,
            Option::Some((v, p1)) => match sp_perm_seq(b, p1, k - 1) {
                Option::None => Option::None,
                Option::Some((rest, p2)) => Option::Some((seq![v] + rest, p2)),
            },
        }
    }
}

/// Parses a whole claims payload; the payload must be consumed exactly.
pub open spec fn sp_claims(b: Seq<u8>) -> Option<ClaimsV> {
    match sp_str(b, 0) {
        Option::None => Option::None,
        Option::Some((sub, p1)) => match sp_user(b, p1) {
            Option::None => Option::None,
            Option::Some((user, p2)) => match sp_role(b, p2) {
                Option::None => Option::None,
                Option::Some((role, p3)) => match sp_u64(b, p3) {
                    Option::None => Option::None,
                    Option::Some((count, p4)) => if count > usize::MAX as u64 {
                        Option::None
                    } else {
                        match sp_perm_seq(b, p4, count as int) {
                            Option::None => Option::None,
                            Option::Some((permissions, p5)) => match sp_u64(b, p5) {
                                Option::None => Option::None,
                                Option::Some((iat, p6)) => if iat > usize::MAX as u64 {
                                    Option::None
                                } else {
                                    match sp_u64(b, p6) {
                                        Option::None => Option::None,
                                        Option::Some((exp, p7)) => if exp > usize::MAX as u64 {
                                            Option::None
                                        } else if p7 != b.len() {
                                            Option::None
                                        } else {
                                            Option::Some(
                                                ClaimsV {
                                                    sub,
                                                    user,
                                                    role,
                                                    permissions,
                                                    iat: iat as int,
                                                    exp: exp as int,
                                                },
                                            )
                                        },
                                    }
                                },
                            },
                        }
                    },
                },
            },
        },
    }
}

// --- executable parsers -------------------------------------------------

/// A digit run ends exactly where the scan stopped.
proof fn lemma_dec_run_exact(b: Seq<u8>, pos: int, i: int)
    requires
        0 <= pos <= i <= b.len(),
        forall|j: int| pos <= j < i ==> is_dec(#[trigger] b[j]),
        i < b.len() ==> !is_dec(b[i]),
    ensures
        dec_run(b, pos) == i - pos,
    decreases i - pos,
{
    if pos < i {
        lemma_dec_run_exact(b, pos + 1, i);
    }
}

/// A hexadecimal run ends exactly where the scan stopped.
proof fn lemma_hex_run_exact(b: Seq<u8>, pos: int, i: int)
    requires
        0 <= pos <= i <= b.len(),
        forall|j: int| pos <= j < i ==> is_hex(#[trigger] b[j]),
        i < b.len() ==> !is_hex(b[i]),
    ensures
        hex_run(b, pos) == i - pos,
    decreases i - pos,
{
    if pos < i {
        lemma_hex_run_exact(b, pos + 1, i);
    }
}

/// A digit-run value is non-negative.
proof fn lemma_val_of_nonneg(b: Seq<u8>, pos: int, k: int)
    requires
        forall|j: int| pos <= j < pos + k ==> is_dec(#[trigger] b[j]),
    ensures
        val_of(b, pos, k) >= 0,
    decreases k,
{
    if k > 0 {
        lemma_val_of_nonneg(b, pos, k - 1);
        assert(val_of(b, pos, k - 1) * 10 >= 0) by (nonlinear_arith)
            requires
                val_of(b, pos, k - 1) >= 0,
        ;
    }
}

/// The clamp applied while accumulating a digit-run value: values beyond
/// `u64` saturate one past the maximum.
pub open spec fn clamped(v: int) -> int {
    if v > u64::MAX {
        0x1_0000_0000_0000_0000
    } else {
        v
    }
}

/// Parses a non-negative number field.
#[verifier::loop_isolation(false)]
pub fn parse_u64(b: &[u8], pos: usize) -> (r: Option<(u64, usize)>)
    requires
        pos <= b@.len(),
    ensures
        r is None ==> sp_u64(b@, pos as int) is None,
        r matches Some((v, p)) ==> sp_u64(b@, pos as int) == Some((v, p as int)),
{
    let n = b.len();
    let mut i = pos;
    let mut acc: u128 = 0;
    while i < n && 48 <= b[i] && b[i] <= 57
        invariant
            pos <= i <= n,
            forall|j: int| pos <= j < i ==> is_dec(#[trigger] b@[j]),
            acc as int == clamped(val_of(b@, pos as int, i - pos)),
            acc <= 0x1_0000_0000_0000_0000u128,
        decreases n - i,
    {
        let d = (b[i] - 48) as u128;
        let ghost v_old = val_of(b@, pos as int, i - pos);
        acc = acc * 10 + d;
        if acc > 0x1_0000_0000_0000_0000u128 {
            acc = 0x1_0000_0000_0000_0000u128;
        }
        i += 1;
        proof {
            lemma_val_of_nonneg(b@, pos as int, i - pos);
            let v_new = val_of(b@, pos as int, i - pos);
            assert(v_new == v_old * 10 + (b@[i - 1] - 48));
            if v_old > u64::MAX {
                assert(v_old * 10 >= v_old) by (nonlinear_arith)
                    requires
                        v_old >= 0,
                ;
            }
        }
    }
    proof {
        lemma_dec_run_exact(b@, pos as int, i as int);
    }
    if i == pos {
        return None;
    }
    if i >= n {
        return None;
    }
    if b[i] != DOT {
        return None;
    }
    if acc > u64::MAX as u128 {
        return None;
    }
    Some((acc as u64, i + 1))
}

/// Parses a signed number field.
pub fn parse_i64(b: &[u8], pos: usize) -> (r: Option<(i64, usize)>)
    requires
        pos <= b@.len(),
    ensures
        r is None ==> sp_i64(b@, pos as int) is None,
        r matches Some((v, p)) ==> sp_i64(b@, pos as int) == Some((v, p as int)),
{
    if pos < b.len() && b[pos] == DASH {
        match parse_u64(b, pos + 1) {
            None => None,
            Some((m, p)) => {
                if m <= 9223372036854775807u64 {
                    Some((-(m as i64), p))
                } else if m == 9223372036854775808u64 {
                    Some((i64::MIN, p))
                } else {
                    None
                }
            },
        }
    } else {
        match parse_u64(b, pos) {
            None => None,
            Some((m, p)) => {
                if m <= 9223372036854775807u64 {
                    Some((m as i64, p))
                } else {
                    None
                }
            },
        }
    }
}

/// Parses a signed number field whose value must fit `i16`.
pub fn parse_i16(b: &[u8], pos: usize) -> (r: Option<(i16, usize)>)
    requires
        pos <= b@.len(),
    ensures
        r is None ==> (sp_i64(b@, pos as int) matches Some((v, _)) ==> !(i16::MIN <= v
            <= i16::MAX)),
        r matches Some((v, p)) ==> sp_i64(b@, pos as int) == Some((v as i64, p as int)),
{
    match parse_i64(b, pos) {
        None => None,
        Some((v, p)) => {
            if -32768 <= v && v <= 32767 {
                Some((v as i16, p))
            } else {
                None
            }
        },
    }
}

/// Parses a signed number field whose value must fit `i32`.
pub fn parse_i32(b: &[u8], pos: usize) -> (r: Option<(i32, usize)>)
    requires
        pos <= b@.len(),
    ensures
        r is None ==> (sp_i64(b@, pos as int) matches Some((v, _)) ==> !(i32::MIN <= v
            <= i32::MAX)),
        r matches Some((v, p)) ==> sp_i64(b@, pos as int) == Some((v as i64, p as int)),
{
    match parse_i64(b, pos) {
        None => None,
        Some((v, p)) => {
            if -2147483648 <= v && v <= 2147483647 {
                Some((v as i32, p))
            } else {
                None
            }
        },
    }
}

/// Parses a boolean field.
pub fn parse_bool(b: &[u8], pos: usize) -> (r: Option<(bool, usize)>)
    requires
        pos <= b@.len(),
    ensures
        r is None ==> sp_bool(b@, pos as int) is None,
        r matches Some((v, p)) ==> sp_bool(b@, pos as int) == Some((v, p as int)),
{
    if pos < b.len() && pos + 1 < b.len() && (b[pos] == 48 || b[pos] == 49) && b[pos + 1] == DOT {
        Some((b[pos] == 49, pos + 2))
    } else {
        None
    }
}

/// The value of one hexadecimal digit byte.
fn hex_val_exec(x: u8) -> (r: u8)
    requires
        is_hex(x),
    ensures
        r as int == hex_val(x),
        r < 16,
{
    if x <= 57 {
        x - 48
    } else {
        x - 87
    }
}

/// Parses a string field.
#[verifier::loop_isolation(false)]
pub fn parse_str(b: &[u8], pos: usize) -> (r: Option<(String, usize)>)
    requires
        pos <= b@.len(),
    ensures
        r is None ==> sp_str(b@, pos as int) is None,
        r matches Some((s, p)) ==> (sp_str(b@, pos as int) matches Some((sv, pv)) && sv == s@
            && pv == p as int),
{
    let n = b.len();
    let mut i = pos;
    while i < n && ((48 <= b[i] && b[i] <= 57) || (97 <= b[i] && b[i] <= 102))
        invariant
            pos <= i <= n,
            forall|j: int| pos <= j < i ==> is_hex(#[trigger] b@[j]),
        decreases n - i,
    {
        i += 1;
    }
    proof {
        lemma_hex_run_exact(b@, pos as int, i as int);
    }
    if i >= n {
        return None;
    }
    if b[i] != DOT {
        return None;
    }
    if (i - pos) % 2 != 0 {
        return None;
    }
    let mut bytes: Vec<u8> = Vec::new();
    let mut j = pos;
    while j < i
        invariant
            pos <= j <= i,
            (j - pos) % 2 == 0,
            bytes@ =~= unhex(b@, pos as int, (j - pos) as int / 2),
        decreases i - j,
    {
        let hv = hex_val_exec(b[j]);
        let lv = hex_val_exec(b[j + 1]);
        bytes.push(hv * 16 + lv);
        j += 2;
        assert(bytes@ =~= unhex(b@, pos as int, (j - pos) as int / 2));
    }
    match string_from_utf8(bytes) {
        None => None,
        Some(s) => Some((s, i + 1)),
    }
}

/// Parses an optional string field.
pub fn parse_opt_str(b: &[u8], pos: usize) -> (r: Option<(Option<String>, usize)>)
    requires
        pos <= b@.len(),
    ensures
        r is None ==> sp_opt_str(b@, pos as int) is None,
        r matches Some((o, p)) ==> (sp_opt_str(b@, pos as int) matches Some((ov, pv))
            && crate::entity::opt_str_view(o) == ov && pv == p as int),
{
    if pos >= b.len() {
        return None;
    }
    if b[pos] == TAG_NONE {
        if pos + 1 < b.len() && b[pos + 1] == DOT {
            Some((None, pos + 2))
        } else {
            None
        }
    } else if b[pos] == TAG_SOME {
        match parse_str(b, pos + 1) {
            None => None,
            Some((s, p)) => Some((Some(s), p)),
        }
    } else {
        None
    }
}

/// Parses a permission record.
pub fn parse_permission(b: &[u8], pos: usize) -> (r: Option<(Permission, usize)>)
    requires
        pos <= b@.len(),
    ensures
        r is None ==> sp_permission(b@, pos as int) is None,
        r matches Some((v, p)) ==> (sp_permission(b@, pos as int) matches Some((vv, pv)) && vv
            == v@ && pv == p as int),
{
    let (pid, p1) = match parse_i16(b, pos) {
        None => {
            return None;
        },
        Some(x) => x,
    };
    let (name, p2) = match parse_str(b, p1) {
        None => {
            return None;
        },
        Some(x) => x,
    };
    let (ca, p3) = match parse_i64(b, p2) {
        None => {
            return None;
        },
        Some(x) => x,
    };
    Some((Permission { permission_id: pid, name, created_at: ca }, p3))
}

/// Parses a role record.
pub fn parse_role(b: &[u8], pos: usize) -> (r: Option<(Role, usize)>)
    requires
        pos <= b@.len(),
    ensures
        r is None ==> sp_role(b@, pos as int) is None,
        r matches Some((v, p)) ==> (sp_role(b@, pos as int) matches Some((vv, pv)) && vv == v@
            && pv == p as int),
{
    let (rid, p1) = match parse_i16(b, pos) {
        None => {
            return None;
        },
        Some(x) => x,
    };
    let (name, p2) = match parse_str(b, p1) {
        None => {
            return None;
        },
        Some(x) => x,
    };
    let (ca, p3) = match parse_i64(b, p2) {
        None => {
            return None;
        },
        Some(x) => x,
    };
    Some((Role { role_id: rid, name, created_at: ca }, p3))
}

/// Parses a user record.
pub fn parse_user(b: &[u8], pos: usize) -> (r: Option<(User, usize)>)
    requires
        pos <= b@.len(),
    ensures
        r is None ==> sp_user(b@, pos as int) is None,
        r matches Some((v, p)) ==> (sp_user(b@, pos as int) matches Some((vv, pv)) && vv == v@
            && pv == p as int),
{
    let (uid, p1) = match parse_i32(b, pos) {
        None => {
            return None;
        },
        Some(x) => x,
    };
    let (first_name, p2) = match parse_str(b, p1) {
        None => {
            return None;
        },
        Some(x) => x,
    };
    let (middle_name, p3) = match parse_opt_str(b, p2) {
        None => {
            return None;
        },
        Some(x) => x,
    };
    let (surname, p4) = match parse_str(b, p3) {
        None => {
            return None;
        },
        Some(x) => x,
    };
    let (email_address, p5) = match parse_str(b, p4) {
        None => {
            return None;
        },
        Some(x) => x,
    };
    let (mobile_number, p6) = match parse_opt_str(b, p5) {
        None => {
            return None;
        },
        Some(x) => x,
    };
    let (enabled, p7) = match parse_bool(b, p6) {
        None => {
            return None;
        },
        Some(x) => x,
    };
    let (email_confirmed, p8) = match parse_bool(b, p7) {
        None => {
            return None;
        },
        Some(x) => x,
    };
    let (rid, p9) = match parse_i16(b, p8) {
        None => {
            return None;
        },
        Some(x) => x,
    };
    let (ca, p10) = match parse_i64(b, p9) {
        None => {
            return None;
        },
        Some(x) => x,
    };
    Some(
        (
            User {
                user_id: uid,
                first_name,
                middle_name,
                surname,
                email_address,
                mobile_number,
                enabled,
                email_confirmed,
                role_id: rid,
                created_at: ca,
            },
            p10,
        ),
    )
}

/// The views of the elements of a permission vector.
pub open spec fn perm_views(ps: Seq<Permission>) -> Seq<PermissionV> {
    Seq::new(ps.len(), |i: int| ps[i]@)
}

/// Parses a whole claims payload.
#[verifier::loop_isolation(false)]
pub fn parse_claims(b: &[u8]) -> (r: Option<Claims>)
    ensures
        r is None ==> sp_claims(b@) is None,
        r matches Some(c) ==> sp_claims(b@) == Some(c@),
{
    let (sub, p1) = match parse_str(b, 0) {
        None => {
            return None;
        },
        Some(x) => x,
    };
    let (user, p2) = match parse_user(b, p1) {
        None => {
            return None;
        },
        Some(x) => x,
    };
    let (role, p3) = match parse_role(b, p2) {
        None => {
            return None;
        },
        Some(x) => x,
    };
    let (count, p4) = match parse_u64(b, p3) {
        None => {
            return None;
        },
        Some(x) => x,
    };
    if count > usize::MAX as u64 {
        return None;
    }
    let mut permissions: Vec<Permission> = Vec::new();
    let mut pos = p4;
    let mut i: u64 = 0;
    while i < count
        invariant
            0 <= i <= count,
            pos <= b@.len(),
            permissions@.len() == i,
            sp_perm_seq(b@, p4 as int, count as int) == match sp_perm_seq(
                b@,
                pos as int,
                count - i,
            ) {
                Option::None => Option::<(Seq<PermissionV>, int)>::None,
                Option::Some((rest, p)) => Option::Some((perm_views(permissions@) + rest, p)),
            },
        decreases count - i,
    {
        let (perm, p) = match parse_permission(b, pos) {
            None => {
                return None;
            },
            Some(x) => x,
        };
        permissions.push(perm);
        pos = p;
        i += 1;
        proof {
            let ghost prev = permissions@.drop_last();
            assert(perm_views(permissions@) =~= perm_views(prev) + seq![perm@]);
            assert forall|rest: Seq<PermissionV>|
                true implies perm_views(prev) + (seq![perm@] + rest) =~= perm_views(
                permissions@,
            ) + rest by {}
        }
    }
    let (iat64, p6) = match parse_u64(b, pos) {
        None => {
            return None;
        },
        Some(x) => x,
    };
    if iat64 > usize::MAX as u64 {
        return None;
    }
    let (exp64, p7) = match parse_u64(b, p6) {
        None => {
            return None;
        },
        Some(x) => x,
    };
    if exp64 > usize::MAX as u64 {
        return None;
    }
    if p7 != b.len() {
        return None;
    }
    let c = Claims {
        sub,
        user,
        role,
        permissions,
        iat: iat64 as usize,
        exp: exp64 as usize,
    };
    assert(c@.permissions =~= perm_views(c.permissions@));
    Some(c)
}

// --- round trip: the parser inverts the encoder ------------------------

/// The encoding `e` lies in `b` at position `pos`.
pub open spec fn bytes_at(b: Seq<u8>, pos: int, e: Seq<u8>) -> bool {
    &&& 0 <= pos
    &&& pos + e.len() <= b.len()
    &&& b.subrange(pos, pos + e.len()) == e
}

/// Splits an embedded concatenation into its two embedded halves.
proof fn lemma_bytes_at_cat(b: Seq<u8>, pos: int, x: Seq<u8>, y: Seq<u8>)
    requires
        bytes_at(b, pos, x + y),
    ensures
        bytes_at(b, pos, x),
        bytes_at(b, pos + x.len(), y),
{
    let whole = b.subrange(pos, pos + x.len() + y.len());
    assert(b.subrange(pos, pos + x.len()) =~= x) by {
        assert forall|i: int| 0 <= i < x.len() implies b.subrange(pos, pos + x.len())[i]
            == x[i] by {
            assert(whole[i] == (x + y)[i]);
        }
    }
    assert(b.subrange(pos + x.len(), pos + x.len() + y.len()) =~= y) by {
        assert forall|i: int| 0 <= i < y.len() implies b.subrange(
            pos + x.len(),
            pos + x.len() + y.len(),
        )[i] == y[i] by {
            assert(whole[x.len() + i] == (x + y)[x.len() + i]);
        }
    }
}

/// The value of an embedded decimal rendering.
proof fn lemma_val_of_dec(b: Seq<u8>, pos: int, n: nat)
    requires
        0 <= pos,
        pos + dec_digits(n).len() <= b.len(),
        forall|i: int| 0 <= i < dec_digits(n).len() ==> b[pos + i] == #[trigger] dec_digits(n)[i],
    ensures
        val_of(b, pos, dec_digits(n).len() as int) == n,
    decreases n,
{
    let d = dec_digits(n);
    let l = d.len() as int;
    if n < 10 {
        assert(val_of(b, pos, 0) == 0);
        assert(val_of(b, pos, 1) == (b[pos] - 48));
        assert(b[pos] == d[0]);
    } else {
        let dh = dec_digits(n / 10);
        let lh = dh.len() as int;
        assert(l == lh + 1);
        assert forall|i: int| 0 <= i < lh implies b[pos + i] == #[trigger] dec_digits(
            n / 10,
        ).index(i) by {
            assert(d[i] == dh[i]);
            assert(b[pos + i] == d[i]);
        }
        lemma_val_of_dec(b, pos, n / 10);
        assert(b[pos + l - 1] == d[l - 1]);
        assert(d[l - 1] == dec_digit_byte(n % 10));
        assert(val_of(b, pos, l) == val_of(b, pos, lh) * 10 + (b[pos + l - 1] - 48));
    }
}

/// An embedded number-field encoding parses to exactly that number.
pub proof fn lemma_sp_u64_at(b: Seq<u8>, pos: int, n: u64)
    requires
        bytes_at(b, pos, enc_u64(n as nat)),
    ensures
        sp_u64(b, pos) == Some((n, pos + enc_u64(n as nat).len())),
{
    let d = dec_digits(n as nat);
    let l = d.len() as int;
    let e = enc_u64(n as nat);
    lemma_dec_digits_range(n as nat);
    assert forall|i: int| 0 <= i < l implies b[pos + i] == #[trigger] d[i] by {
        assert(b.subrange(pos, pos + e.len())[i] == e[i]);
        assert(e[i] == d[i]);
    }
    assert(b[pos + l] == DOT) by {
        assert(b.subrange(pos, pos + e.len())[l] == e[l]);
    }
    assert forall|j: int| pos <= j < pos + l implies is_dec(#[trigger] b[j]) by {
        assert(b[j] == d[j - pos]);
    }
    lemma_dec_run_exact(b, pos, pos + l);
    lemma_val_of_dec(b, pos, n as nat);
}

/// An embedded signed-number-field encoding parses to exactly that value.
pub proof fn lemma_sp_i64_at(b: Seq<u8>, pos: int, v: i64)
    requires
        bytes_at(b, pos, enc_i64(v as int)),
    ensures
        sp_i64(b, pos) == Some((v, pos + enc_i64(v as int).len())),
{
    if v < 0 {
        let m = (-(v as int)) as u64;
        let e = enc_i64(v as int);
        assert(e =~= seq![DASH] + enc_u64(m as nat));
        lemma_bytes_at_cat(b, pos, seq![DASH], enc_u64(m as nat));
        assert(b[pos] == DASH) by {
            assert(b.subrange(pos, pos + 1)[0] == seq![DASH][0]);
        }
        lemma_sp_u64_at(b, pos + 1, m);
        assert(m <= 0x8000_0000_0000_0000u64);
        assert((-(m as int)) as i64 == v);
    } else {
        let m = v as u64;
        assert(enc_i64(v as int) =~= enc_u64(m as nat));
        lemma_sp_u64_at(b, pos, m);
        lemma_dec_digits_range(m as nat);
        assert(b[pos] == dec_digits(m as nat)[0]) by {
            let e = enc_u64(m as nat);
            assert(b.subrange(pos, pos + e.len())[0] == e[0]);
        }
        assert(b[pos] != DASH);
    }
}

/// Hexadecimal digit bytes are hexadecimal digits with their own value.
proof fn lemma_hex_digit_byte(d: nat)
    requires
        d < 16,
    ensures
        is_hex(hex_digit_byte(d)),
        hex_val(hex_digit_byte(d)) == d,
{
}

/// An embedded string-field encoding parses back to the same characters.
pub proof fn lemma_sp_str_at(b: Seq<u8>, pos: int, s: Seq<char>)
    requires
        bytes_at(b, pos, enc_str(s)),
    ensures
        sp_str(b, pos) == Some((s, pos + enc_str(s).len())),
{
    let u = encode_utf8(s);
    let h = hex_digits(u);
    let l = h.len() as int;
    let e = enc_str(s);
    assert forall|i: int| 0 <= i < l implies b[pos + i] == #[trigger] h[i] by {
        assert(b.subrange(pos, pos + e.len())[i] == e[i]);
        assert(e[i] == h[i]);
    }
    assert(b[pos + l] == DOT) by {
        assert(b.subrange(pos, pos + e.len())[l] == e[l]);
    }
    assert forall|j: int| pos <= j < pos + l implies is_hex(#[trigger] b[j]) by {
        assert(b[j] == h[j - pos]);
        let i = j - pos;
        if i % 2 == 0 {
            lemma_hex_digit_byte((u[i / 2] / 16) as nat);
        } else {
            lemma_hex_digit_byte((u[i / 2] % 16) as nat);
        }
    }
    lemma_hex_run_exact(b, pos, pos + l);
    assert(unhex(b, pos, l / 2) =~= u) by {
        assert forall|i: int| 0 <= i < u.len() implies unhex(b, pos, l / 2)[i] == u[i] by {
            assert(b[pos + 2 * i] == h[2 * i]);
            assert(b[pos + 2 * i + 1] == h[2 * i + 1]);
            assert((2 * i) % 2 == 0 && (2 * i + 1) % 2 == 1);
            assert((2 * i) / 2 == i && (2 * i + 1) / 2 == i);
            lemma_hex_digit_byte((u[i] / 16) as nat);
            lemma_hex_digit_byte((u[i] % 16) as nat);
            assert(hex_val(h[2 * i]) == u[i] / 16);
            assert(hex_val(h[2 * i + 1]) == u[i] % 16);
        }
    }
    encode_utf8_valid_utf8(s);
    encode_utf8_decode_utf8(s);
}

/// An embedded optional-string-field encoding parses back unchanged.
pub proof fn lemma_sp_opt_str_at(b: Seq<u8>, pos: int, o: Option<Seq<char>>)
    requires
        bytes_at(b, pos, enc_opt_str(o)),
    ensures
        sp_opt_str(b, pos) == Some((o, pos + enc_opt_str(o).len())),
{
    match o {
        Option::None => {
            assert(b[pos] == TAG_NONE && b[pos + 1] == DOT) by {
                let e = enc_opt_str(o);
                assert(b.subrange(pos, pos + e.len())[0] == e[0]);
                assert(b.subrange(pos, pos + e.len())[1] == e[1]);
            }
        },
        Option::Some(s) => {
            lemma_bytes_at_cat(b, pos, seq![TAG_SOME], enc_str(s));
            assert(b[pos] == TAG_SOME) by {
                assert(b.subrange(pos, pos + 1)[0] == seq![TAG_SOME][0]);
            }
            lemma_sp_str_at(b, pos + 1, s);
        },
    }
}

/// An embedded boolean-field encoding parses back unchanged.
pub proof fn lemma_sp_bool_at(b: Seq<u8>, pos: int, v: bool)
    requires
        bytes_at(b, pos, enc_bool(v)),
    ensures
        sp_bool(b, pos) == Some((v, pos + 2)),
{
    let e = enc_bool(v);
    assert(b[pos] == e[0] && b[pos + 1] == e[1]) by {
        assert(b.subrange(pos, pos + e.len())[0] == e[0]);
        assert(b.subrange(pos, pos + e.len())[1] == e[1]);
    }
}

/// An embedded permission-record encoding parses back unchanged.
pub proof fn lemma_sp_permission_at(b: Seq<u8>, pos: int, p: PermissionV)
    requires
        p.wf(),
        bytes_at(b, pos, enc_permission(p)),
    ensures
        sp_permission(b, pos) == Some((p, pos + enc_permission(p).len())),
{
    let e1 = enc_i64(p.permission_id);
    let e2 = enc_str(p.name);
    let e3 = enc_i64(p.created_at);
    lemma_bytes_at_cat(b, pos, e1 + e2, e3);
    lemma_bytes_at_cat(b, pos, e1, e2);
    lemma_sp_i64_at(b, pos, p.permission_id as i64);
    lemma_sp_str_at(b, pos + e1.len(), p.name);
    lemma_sp_i64_at(b, pos + e1.len() + e2.len(), p.created_at as i64);
}

/// An embedded role-record encoding parses back unchanged.
pub proof fn lemma_sp_role_at(b: Seq<u8>, pos: int, r: RoleV)
    requires
        r.wf(),
        bytes_at(b, pos, enc_role(r)),
    ensures
        sp_role(b, pos) == Some((r, pos + enc_role(r).len())),
{
    let e1 = enc_i64(r.role_id);
    let e2 = enc_str(r.name);
    let e3 = enc_i64(r.created_at);
    lemma_bytes_at_cat(b, pos, e1 + e2, e3);
    lemma_bytes_at_cat(b, pos, e1, e2);
    lemma_sp_i64_at(b, pos, r.role_id as i64);
    lemma_sp_str_at(b, pos + e1.len(), r.name);
    lemma_sp_i64_at(b, pos + e1.len() + e2.len(), r.created_at as i64);
}

/// An embedded user-record encoding parses back unchanged.
#[verifier::rlimit(80)]
pub proof fn lemma_sp_user_at(b: Seq<u8>, pos: int, u: UserV)
    requires
        u.wf(),
        bytes_at(b, pos, enc_user(u)),
    ensures
        sp_user(b, pos) == Some((u, pos + enc_user(u).len())),
{
    let e1 = enc_i64(u.user_id);
    let e2 = enc_str(u.first_name);
    let e3 = enc_opt_str(u.middle_name);
    let e4 = enc_str(u.surname);
    let e5 = enc_str(u.email_address);
    let e6 = enc_opt_str(u.mobile_number);
    let e7 = enc_bool(u.enabled);
    let e8 = enc_bool(u.email_confirmed);
    let e9 = enc_i64(u.role_id);
    let e10 = enc_i64(u.created_at);
    lemma_bytes_at_cat(
        b,
        pos,
        e1 + e2 + e3 + e4 + e5 + e6 + e7 + e8 + e9,
        e10,
    );
    lemma_bytes_at_cat(b, pos, e1 + e2 + e3 + e4 + e5 + e6 + e7 + e8, e9);
    lemma_bytes_at_cat(b, pos, e1 + e2 + e3 + e4 + e5 + e6 + e7, e8);
    lemma_bytes_at_cat(b, pos, e1 + e2 + e3 + e4 + e5 + e6, e7);
    lemma_bytes_at_cat(b, pos, e1 + e2 + e3 + e4 + e5, e6);
    lemma_bytes_at_cat(b, pos, e1 + e2 + e3 + e4, e5);
    lemma_bytes_at_cat(b, pos, e1 + e2 + e3, e4);
    lemma_bytes_at_cat(b, pos, e1 + e2, e3);
    lemma_bytes_at_cat(b, pos, e1, e2);
    let o2 = pos + e1.len();
    let o3 = o2 + e2.len();
    let o4 = o3 + e3.len();
    let o5 = o4 + e4.len();
    let o6 = o5 + e5.len();
    let o7 = o6 + e6.len();
    let o8 = o7 + e7.len();
    let o9 = o8 + e8.len();
    let o10 = o9 + e9.len();
    lemma_sp_i64_at(b, pos, u.user_id as i64);
    lemma_sp_str_at(b, o2, u.first_name);
    lemma_sp_opt_str_at(b, o3, u.middle_name);
    lemma_sp_str_at(b, o4, u.surname);
    lemma_sp_str_at(b, o5, u.email_address);
    lemma_sp_opt_str_at(b, o6, u.mobile_number);
    lemma_sp_bool_at(b, o7, u.enabled);
    lemma_sp_bool_at(b, o8, u.email_confirmed);
    lemma_sp_i64_at(b, o9, u.role_id as i64);
    lemma_sp_i64_at(b, o10, u.created_at as i64);
}

/// An embedded sequence of permission records parses back unchanged.
pub proof fn lemma_sp_perm_seq_at(b: Seq<u8>, pos: int, ps: Seq<PermissionV>)
    requires
        forall|i: int| 0 <= i < ps.len() ==> (#[trigger] ps[i]).wf(),
        bytes_at(b, pos, enc_perm_seq(ps)),
    ensures
        sp_perm_seq(b, pos, ps.len() as int) == Some((ps, pos + enc_perm_seq(ps).len())),
    decreases ps.len(),
{
    if ps.len() == 0 {
    } else {
        let e1 = enc_permission(ps[0]);
        let e2 = enc_perm_seq(ps.drop_first());
        lemma_bytes_at_cat(b, pos, e1, e2);
        lemma_sp_permission_at(b, pos, ps[0]);
        assert forall|i: int| 0 <= i < ps.drop_first().len() implies (#[trigger] ps.drop_first(
        ).index(i)).wf() by {
            assert(ps.drop_first()[i] == ps[i + 1]);
        }
        lemma_sp_perm_seq_at(b, pos + e1.len(), ps.drop_first());
        assert(seq![ps[0]] + ps.drop_first() =~= ps);
    }
}

/// The round trip of the codec: a well-formed claims view parses back
/// from its own encoding unchanged.
#[verifier::rlimit(80)]
pub proof fn lemma_sp_claims_enc(c: ClaimsV)
    requires
        c.wf(),
    ensures
        sp_claims(enc_claims(c)) == Some(c),
{
    let b = enc_claims(c);
    let e1 = enc_str(c.sub);
    let e2 = enc_user(c.user);
    let e3 = enc_role(c.role);
    let e4 = enc_u64(c.permissions.len());
    let e5 = enc_perm_seq(c.permissions);
    let e6 = enc_u64(c.iat as nat);
    let e7 = enc_u64(c.exp as nat);
    assert(bytes_at(b, 0, b)) by {
        assert(b.subrange(0, b.len() as int) =~= b);
    }
    lemma_bytes_at_cat(b, 0, e1 + e2 + e3 + e4 + e5 + e6, e7);
    lemma_bytes_at_cat(b, 0, e1 + e2 + e3 + e4 + e5, e6);
    lemma_bytes_at_cat(b, 0, e1 + e2 + e3 + e4, e5);
    lemma_bytes_at_cat(b, 0, e1 + e2 + e3, e4);
    lemma_bytes_at_cat(b, 0, e1 + e2, e3);
    lemma_bytes_at_cat(b, 0, e1, e2);
    let o2 = e1.len() as int;
    let o3 = o2 + e2.len();
    let o4 = o3 + e3.len();
    let o5 = o4 + e4.len();
    let o6 = o5 + e5.len();
    let o7 = o6 + e6.len();
    lemma_sp_str_at(b, 0, c.sub);
    lemma_sp_user_at(b, o2, c.user);
    lemma_sp_role_at(b, o3, c.role);
    lemma_sp_u64_at(b, o4, c.permissions.len() as u64);
    lemma_sp_perm_seq_at(b, o5, c.permissions);
    lemma_sp_u64_at(b, o6, c.iat as u64);
    lemma_sp_u64_at(b, o7, c.exp as u64);
}

// --- the payload alphabet ----------------------------------------------

/// The bytes the payload encoding is made of: `-`, `.`, decimal digits,
/// lowercase hexadecimal letters and the two option tags.  All ASCII and
/// none of them the token separator `~`.
pub open spec fn payload_byte(x: u8) -> bool {
    45 <= x <= 57 || 97 <= x <= 102 || x == TAG_NONE || x == TAG_SOME
}

/// Every byte of `e` belongs to the payload alphabet.
pub open spec fn all_payload(e: Seq<u8>) -> bool {
    forall|i: int| 0 <= i < e.len() ==> payload_byte(#[trigger] e[i])
}

/// The payload alphabet is closed under concatenation.
proof fn lemma_all_payload_cat(x: Seq<u8>, y: Seq<u8>)
    requires
        all_payload(x),
        all_payload(y),
    ensures
        all_payload(x + y),
{
    assert forall|i: int| 0 <= i < (x + y).len() implies payload_byte(#[trigger] (x + y)[i]) by {
        if i < x.len() {
            assert((x + y)[i] == x[i]);
        } else {
            assert((x + y)[i] == y[i - x.len()]);
        }
    }
}

/// Number fields use only payload bytes.
proof fn lemma_enc_u64_payload(n: nat)
    ensures
        all_payload(enc_u64(n)),
{
    lemma_dec_digits_range(n);
    lemma_all_payload_cat(dec_digits(n), seq![DOT]);
}

/// Signed number fields use only payload bytes.
proof fn lemma_enc_i64_payload(n: int)
    ensures
        all_payload(enc_i64(n)),
{
    if n < 0 {
        lemma_dec_digits_range((-n) as nat);
        lemma_all_payload_cat(seq![DASH], dec_digits((-n) as nat));
        lemma_all_payload_cat(seq![DASH] + dec_digits((-n) as nat), seq![DOT]);
        assert(enc_i64(n) =~= (seq![DASH] + dec_digits((-n) as nat)) + seq![DOT]);
    } else {
        lemma_enc_u64_payload(n as nat);
        assert(enc_i64(n) =~= enc_u64(n as nat));
    }
}

/// String fields use only payload bytes.
proof fn lemma_enc_str_payload(s: Seq<char>)
    ensures
        all_payload(enc_str(s)),
{
    let h = hex_digits(encode_utf8(s));
    assert forall|i: int| 0 <= i < h.len() implies payload_byte(#[trigger] h[i]) by {
        let u = encode_utf8(s);
        if i % 2 == 0 {
            lemma_hex_digit_byte((u[i / 2] / 16) as nat);
        } else {
            lemma_hex_digit_byte((u[i / 2] % 16) as nat);
        }
    }
    lemma_all_payload_cat(h, seq![DOT]);
}

/// Optional string fields use only payload bytes.
proof fn lemma_enc_opt_str_payload(o: Option<Seq<char>>)
    ensures
        all_payload(enc_opt_str(o)),
{
    match o {
        Option::None => {},
        Option::Some(s) => {
            lemma_enc_str_payload(s);
            lemma_all_payload_cat(seq![TAG_SOME], enc_str(s));
        },
    }
}

/// Permission records use only payload bytes.
proof fn lemma_enc_permission_payload(p: PermissionV)
    ensures
        all_payload(enc_permission(p)),
{
    lemma_enc_i64_payload(p.permission_id);
    lemma_enc_str_payload(p.name);
    lemma_enc_i64_payload(p.created_at);
    lemma_all_payload_cat(enc_i64(p.permission_id), enc_str(p.name));
    lemma_all_payload_cat(enc_i64(p.permission_id) + enc_str(p.name), enc_i64(p.created_at));
}

/// Role records use only payload bytes.
proof fn lemma_enc_role_payload(r: RoleV)
    ensures
        all_payload(enc_role(r)),
{
    lemma_enc_i64_payload(r.role_id);
    lemma_enc_str_payload(r.name);
    lemma_enc_i64_payload(r.created_at);
    lemma_all_payload_cat(enc_i64(r.role_id), enc_str(r.name));
    lemma_all_payload_cat(enc_i64(r.role_id) + enc_str(r.name), enc_i64(r.created_at));
}

/// User records use only payload bytes.
proof fn lemma_enc_user_payload(u: UserV)
    ensures
        all_payload(enc_user(u)),
{
    lemma_enc_i64_payload(u.user_id);
    lemma_enc_str_payload(u.first_name);
    lemma_enc_opt_str_payload(u.middle_name);
    lemma_enc_str_payload(u.surname);
    lemma_enc_str_payload(u.email_address);
    lemma_enc_opt_str_payload(u.mobile_number);
    lemma_enc_i64_payload(u.role_id);
    lemma_enc_i64_payload(u.created_at);
    let p1 = enc_i64(u.user_id);
    let p2 = p1 + enc_str(u.first_name);
    lemma_all_payload_cat(p1, enc_str(u.first_name));
    let p3 = p2 + enc_opt_str(u.middle_name);
    lemma_all_payload_cat(p2, enc_opt_str(u.middle_name));
    let p4 = p3 + enc_str(u.surname);
    lemma_all_payload_cat(p3, enc_str(u.surname));
    let p5 = p4 + enc_str(u.email_address);
    lemma_all_payload_cat(p4, enc_str(u.email_address));
    let p6 = p5 + enc_opt_str(u.mobile_number);
    lemma_all_payload_cat(p5, enc_opt_str(u.mobile_number));
    let p7 = p6 + enc_bool(u.enabled);
    lemma_all_payload_cat(p6, enc_bool(u.enabled));
    let p8 = p7 + enc_bool(u.email_confirmed);
    lemma_all_payload_cat(p7, enc_bool(u.email_confirmed));
    let p9 = p8 + enc_i64(u.role_id);
    lemma_all_payload_cat(p8, enc_i64(u.role_id));
    lemma_all_payload_cat(p9, enc_i64(u.created_at));
}

/// Permission sequences use only payload bytes.
proof fn lemma_enc_perm_seq_payload(ps: Seq<PermissionV>)
    ensures
        all_payload(enc_perm_seq(ps)),
    decreases ps.len(),
{
    if ps.len() > 0 {
        lemma_enc_permission_payload(ps[0]);
        lemma_enc_perm_seq_payload(ps.drop_first());
        lemma_all_payload_cat(enc_permission(ps[0]), enc_perm_seq(ps.drop_first()));
    }
}

/// The whole payload uses only payload bytes: it is ASCII and free of the
/// token separator.
pub proof fn lemma_enc_claims_payload(c: ClaimsV)
    ensures
        all_payload(enc_claims(c)),
{
    lemma_enc_str_payload(c.sub);
    lemma_enc_user_payload(c.user);
    lemma_enc_role_payload(c.role);
    lemma_enc_u64_payload(c.permissions.len());
    lemma_enc_perm_seq_payload(c.permissions);
    lemma_enc_u64_payload(c.iat as nat);
    lemma_enc_u64_payload(c.exp as nat);
    let p1 = enc_str(c.sub);
    let p2 = p1 + enc_user(c.user);
    lemma_all_payload_cat(p1, enc_user(c.user));
    let p3 = p2 + enc_role(c.role);
    lemma_all_payload_cat(p2, enc_role(c.role));
    let p4 = p3 + enc_u64(c.permissions.len());
    lemma_all_payload_cat(p3, enc_u64(c.permissions.len()));
    let p5 = p4 + enc_perm_seq(c.permissions);
    lemma_all_payload_cat(p4, enc_perm_seq(c.permissions));
    let p6 = p5 + enc_u64(c.iat as nat);
    lemma_all_payload_cat(p5, enc_u64(c.iat as nat));
    lemma_all_payload_cat(p6, enc_u64(c.exp as nat));
}

/// Extending the encoded prefix of a permission sequence by one record.
proof fn lemma_enc_perm_seq_snoc(ps: Seq<PermissionV>, i: int)
    requires
        0 <= i < ps.len(),
    ensures
        enc_perm_seq(ps.take(i + 1)) =~= enc_perm_seq(ps.take(i)) + enc_permission(ps[i]),
    decreases i,
{
    if i == 0 {
        assert(ps.take(1).drop_first() =~= Seq::<PermissionV>::empty());
        assert(ps.take(0) =~= Seq::<PermissionV>::empty());
        assert(enc_perm_seq(Seq::<PermissionV>::empty()) =~= Seq::<u8>::empty());
        assert(ps.take(1)[0] == ps[0]);
    } else {
        lemma_enc_perm_seq_snoc(ps.drop_first(), i - 1);
        assert(ps.take(i + 1).drop_first() =~= ps.drop_first().take(i));
        assert(ps.take(i).drop_first() =~= ps.drop_first().take(i - 1));
        assert(ps.take(i + 1)[0] == ps[0]);
        assert(ps.take(i)[0] == ps[0]);
        assert(ps.drop_first()[i - 1] == ps[i]);
    }
}

} // verus!
