//! The bulk-INSERT statement builder.
//!
//! A multi-row insert is produced from a fixed one-row template by
//! appending one parenthesized value group per additional row.  Group `k`
//! (counting from 1 for the second row) references the two fresh
//! positional parameters `2k + 1` and `2k + 2`; parameter slots are never
//! reused and no untrusted value is ever spliced into the text.

use vstd::prelude::*;
use crate::text::{ascii_chars, dec_digits, push_dec_u64, ascii_to_string, lemma_dec_digits_range};

verus! {

/// The bytes of one appended value group: `, ($a, $b)` with `a = 2k + 1`
/// and `b = 2k + 2`.
pub open spec fn group_bytes(k: nat) -> Seq<u8> {
    seq![44u8, 32u8, 40u8, 36u8] + dec_digits(2 * k + 1) + seq![44u8, 32u8, 36u8] + dec_digits(
        2 * k + 2,
    ) + seq![41u8]
}

/// The bytes of every group appended for a statement of `rows` rows: one
/// group per row beyond the first.
pub open spec fn insert_groups(rows: nat) -> Seq<u8>
    decreases rows,
{
    if rows <= 1 {
        seq![]
    } else {
        insert_groups((rows - 1) as nat) + group_bytes((rows - 1) as nat)
    }
}

/// Group bytes are ASCII.
proof fn lemma_group_bytes_ascii(k: nat)
    ensures
        forall|i: int| 0 <= i < group_bytes(k).len() ==> #[trigger] group_bytes(k)[i] < 128,
{
    lemma_dec_digits_range(2 * k + 1);
    lemma_dec_digits_range(2 * k + 2);
}

/// All appended group bytes are ASCII.
proof fn lemma_insert_groups_ascii(rows: nat)
    ensures
        forall|i: int| 0 <= i < insert_groups(rows).len() ==> #[trigger] insert_groups(rows)[i]
            < 128,
    decreases rows,
{
    if rows > 1 {
        let prev = insert_groups((rows - 1) as nat);
        let grp = group_bytes((rows - 1) as nat);
        lemma_insert_groups_ascii((rows - 1) as nat);
        lemma_group_bytes_ascii((rows - 1) as nat);
        assert forall|i: int| 0 <= i < insert_groups(rows).len() implies #[trigger] insert_groups(
            rows,
        )[i] < 128 by {
            if i < prev.len() {
                assert(insert_groups(rows)[i] == prev[i]);
            } else {
                assert(insert_groups(rows)[i] == grp[i - prev.len()]);
            }
        }
    }
}

/// Appends one value group for row `k + 1` (0-based row index `k`).
fn push_group(out: &mut Vec<u8>, k: u64)
    requires
        k <= 0x7fff_ffff_ffff_fffc,
    ensures
        final(out)@ == old(out)@ + group_bytes(k as nat),
{
    out.push(44);
    out.push(32);
    out.push(40);
    out.push(36);
    push_dec_u64(out, 2 * k + 1);
    out.push(44);
    out.push(32);
    out.push(36);
    push_dec_u64(out, 2 * k + 2);
    out.push(41);
    assert(final(out)@ =~= old(out)@ + group_bytes(k as nat));
}

/// Builds the text of a bulk INSERT of `rows` rows from a one-row
/// template: the template itself, followed by one fresh value group per
/// additional row.  Positional parameters are allocated in row order and
/// never reused.
pub fn build_insert_statement(template: &str, rows: usize) -> (r: String)
    requires
        rows <= 0x7fff_ffff_ffff_fffc,
    ensures
        r@ == template@ + ascii_chars(insert_groups(rows as nat)),
        rows <= 1 ==> r@ == template@,
{
    let mut groups: Vec<u8> = Vec::new();
    if rows > 1 {
        let mut k: u64 = 1;
        while k < rows as u64
            invariant
                1 <= k <= rows as u64,
                rows <= 0x7fff_ffff_ffff_fffc,
                groups@ == insert_groups(k as nat),
            decreases rows as u64 - k,
        {
            push_group(&mut groups, k);
            k += 1;
        }
    }
    proof {
        lemma_insert_groups_ascii(rows as nat);
    }
    let groups_str = ascii_to_string(groups);
    let mut r = template.to_owned();
    r.append(groups_str.as_str());
    proof {
        if rows <= 1 {
            assert(ascii_chars(insert_groups(rows as nat)) =~= Seq::<char>::empty());
            assert(r@ =~= template@);
        }
    }
    r
}

/// The number of positional parameter slots that a statement of `rows`
/// rows binds: two per row.
pub fn insert_parameter_count(rows: usize) -> (r: u64)
    requires
        rows <= 0x7fff_ffff_ffff_fffe,
    ensures
        r as int == 2 * rows,
{
    2 * (rows as u64)
}

/// The one-row insert template of the role–permission relation.
pub open spec fn spec_role_permission_template() -> Seq<char> {
    r#"INSERT INTO "SMS_GATEWAY_USER"."ROLE_PERMISSION" (role_id, permission_id) VALUES ($1, $2)"#@
}

/// The one-row insert template of the user–role relation.
pub open spec fn spec_user_role_template() -> Seq<char> {
    r#"INSERT INTO "SMS_GATEWAY_USER"."USER_ROLE" (user_id, role_id) VALUES ($1, $2)"#@
}

/// The bulk insert statement for linking `rows` permissions to a role.
pub fn role_permission_insert_statement(rows: usize) -> (r: String)
    requires
        rows <= 0x7fff_ffff_ffff_fffc,
    ensures
        r@ == spec_role_permission_template() + ascii_chars(insert_groups(rows as nat)),
{
    build_insert_statement(
        r#"INSERT INTO "SMS_GATEWAY_USER"."ROLE_PERMISSION" (role_id, permission_id) VALUES ($1, $2)"#,
        rows,
    )
}

/// The bulk insert statement for linking `rows` roles to a user.
pub fn user_role_insert_statement(rows: usize) -> (r: String)
    requires
        rows <= 0x7fff_ffff_ffff_fffc,
    ensures
        r@ == spec_user_role_template() + ascii_chars(insert_groups(rows as nat)),
{
    build_insert_statement(
        r#"INSERT INTO "SMS_GATEWAY_USER"."USER_ROLE" (user_id, role_id) VALUES ($1, $2)"#,
        rows,
    )
}

} // verus!
