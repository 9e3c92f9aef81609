//! The decisions of the request flows: how each persistence failure is
//! classified into the error taxonomy with its user-facing message, and
//! the small computations the sign-up and confirmation flows make.
//!
//! The I/O layer performs the queries; every branch on their outcomes is
//! a function here, so that the flow logic is checked while the plumbing
//! stays trivial.

use vstd::prelude::*;
use vstd::string::StringSliceAdditionalSpecFns;
use vstd::utf8::*;
use crate::entity::User;
use crate::error::{AppError, AppErrorType, DbFailureKind};
use crate::text::{ascii_chars, i64_to_string, int_digits};

verus! {

/// Builds `<entity> with id <id> could not be found!`.
pub fn entity_not_found_message(entity: &str, id: i64) -> (r: String)
    ensures
        r@ == entity@ + " with id "@ + ascii_chars(int_digits(id as int))
            + " could not be found!"@,
{
    let mut m = entity.to_owned();
    m.append(" with id ");
    let id_text = i64_to_string(id);
    m.append(id_text.as_str());
    m.append(" could not be found!");
    m
}

/// Builds `User with id <id> and code <code> could not be found!`.
pub fn user_code_not_found_message(user_id: i32, code: i32) -> (r: String)
    ensures
        r@ == "User with id "@ + ascii_chars(int_digits(user_id as int)) + " and code "@
            + ascii_chars(int_digits(code as int)) + " could not be found!"@,
{
    let mut m = "User with id ".to_owned();
    let id_text = i64_to_string(user_id as i64);
    m.append(id_text.as_str());
    m.append(" and code ");
    let code_text = i64_to_string(code as i64);
    m.append(code_text.as_str());
    m.append(" could not be found!");
    m
}

/// Sign-in, user lookup: a missing row means the email address did not
/// match and must look exactly like a bad password; anything else is an
/// internal failure.
pub fn map_sign_in_user_failure(k: DbFailureKind) -> (r: AppError)
    ensures
        k == DbFailureKind::RowNotFound ==> (r.error_type == AppErrorType::Unauthenticated && (
        r.message matches Some(m) && m@ == "Invalid email address/password!"@) && r.cause is None),
        k != DbFailureKind::RowNotFound ==> (r.error_type == AppErrorType::Internal && r.message
            is None && (r.cause matches Some(c) && c@ == "Service unavailable try again later!"@)),
{
    match k {
        DbFailureKind::RowNotFound => AppError::new(
            Some("Invalid email address/password!".to_owned()),
            None,
            AppErrorType::Unauthenticated,
        ),
        _ => AppError::new(
            None,
            Some("Service unavailable try again later!".to_owned()),
            AppErrorType::Internal,
        ),
    }
}

/// Sign-in, credential lookup: a missing credential row or a dangling
/// reference both look like a bad password; anything else is internal.
pub fn map_sign_in_credentials_failure(k: DbFailureKind) -> (r: AppError)
    ensures
        (k == DbFailureKind::RowNotFound || k == DbFailureKind::ForeignKeyViolation) ==> (
        r.error_type == AppErrorType::Unauthenticated && (r.message matches Some(m) && m@
            == "Invalid email address/password!"@) && r.cause is None),
        !(k == DbFailureKind::RowNotFound || k == DbFailureKind::ForeignKeyViolation) ==> (
        r.error_type == AppErrorType::Internal && r.message is None && (r.cause matches Some(c)
            && c@ == "Service unavailable try again later!"@)),
{
    match k {
        DbFailureKind::RowNotFound => AppError::new(
            Some("Invalid email address/password!".to_owned()),
            None,
            AppErrorType::Unauthenticated,
        ),
        DbFailureKind::ForeignKeyViolation => AppError::new(
            Some("Invalid email address/password!".to_owned()),
            None,
            AppErrorType::Unauthenticated,
        ),
        _ => AppError::new(
            None,
            Some("Service unavailable try again later!".to_owned()),
            AppErrorType::Internal,
        ),
    }
}

/// Sign-in, role and permission loads: every failure is internal and
/// tells the caller nothing.
pub fn service_unavailable_error() -> (r: AppError)
    ensures
        r.error_type == AppErrorType::Internal,
        r.message is None,
        r.cause matches Some(c) && c@ == "Service unavailable try again later!"@,
{
    AppError::new(
        None,
        Some("Service unavailable try again later!".to_owned()),
        AppErrorType::Internal,
    )
}

/// Sign-in, password comparison: a mismatch carries the same user-facing
/// message as the two lookup failures, so the response never reveals
/// which of the three checks failed.
pub fn check_password_match(is_correct: bool) -> (r: Result<(), AppError>)
    ensures
        r is Ok <==> is_correct,
        r matches Err(e) ==> (e.error_type == AppErrorType::Unauthenticated && (e.message
            matches Some(m) && m@ == "Invalid email address/password!"@) && e.cause is None),
{
    if is_correct {
        Ok(())
    } else {
        Err(
            AppError::new(
                Some("Invalid email address/password!".to_owned()),
                None,
                AppErrorType::Unauthenticated,
            ),
        )
    }
}

/// Sign-up, user creation: a duplicate natural key is a conflict on the
/// email address; anything else is internal with the native cause kept
/// for the logs.
pub fn map_create_user_failure(k: DbFailureKind, cause: String) -> (r: AppError)
    ensures
        k == DbFailureKind::UniqueViolation ==> (r.error_type == AppErrorType::Conflict && (
        r.message matches Some(m) && m@ == "Email address already exists!"@) && r.cause is None),
        k != DbFailureKind::UniqueViolation ==> (r.error_type == AppErrorType::Internal
            && r.message is None && r.cause == Some(cause)),
{
    match k {
        DbFailureKind::UniqueViolation => AppError::new(
            Some("Email address already exists!".to_owned()),
            None,
            AppErrorType::Conflict,
        ),
        _ => AppError::new(None, Some(cause), AppErrorType::Internal),
    }
}

/// Credential creation (sign-up and the administrative endpoint): a
/// dangling user reference is not-found on the user, a duplicate
/// username is a conflict, anything else is internal.
pub fn map_create_credential_failure(k: DbFailureKind, cause: String, user_id: i32) -> (r:
    AppError)
    ensures
        k == DbFailureKind::ForeignKeyViolation ==> (r.error_type == AppErrorType::NotFound && (
        r.message matches Some(m) && m@ == "User"@ + " with id "@ + ascii_chars(
            int_digits(user_id as int),
        ) + " could not be found!"@) && r.cause is None),
        k == DbFailureKind::UniqueViolation ==> (r.error_type == AppErrorType::Conflict && (
        r.message matches Some(m) && m@ == "Credential/username already exists!"@) && r.cause
            is None),
        (k != DbFailureKind::ForeignKeyViolation && k != DbFailureKind::UniqueViolation) ==> (
        r.error_type == AppErrorType::Internal && r.message is None && r.cause == Some(cause)),
{
    match k {
        DbFailureKind::ForeignKeyViolation => AppError::new(
            Some(entity_not_found_message("User", user_id as i64)),
            None,
            AppErrorType::NotFound,
        ),
        DbFailureKind::UniqueViolation => AppError::new(
            Some("Credential/username already exists!".to_owned()),
            None,
            AppErrorType::Conflict,
        ),
        _ => AppError::new(None, Some(cause), AppErrorType::Internal),
    }
}

/// Email confirmation, code lookup: a dangling reference or missing row
/// means the (user id, code) pair does not exist.
pub fn map_confirm_code_failure(k: DbFailureKind, cause: String, user_id: i32, code: i32) -> (r:
    AppError)
    ensures
        (k == DbFailureKind::ForeignKeyViolation || k == DbFailureKind::RowNotFound) ==> (
        r.error_type == AppErrorType::NotFound && (r.message matches Some(m) && m@
            == "User with id "@ + ascii_chars(int_digits(user_id as int)) + " and code "@
            + ascii_chars(int_digits(code as int)) + " could not be found!"@) && r.cause is None),
        !(k == DbFailureKind::ForeignKeyViolation || k == DbFailureKind::RowNotFound) ==> (
        r.error_type == AppErrorType::Internal && r.message is None && r.cause == Some(cause)),
{
    match k {
        DbFailureKind::ForeignKeyViolation => AppError::new(
            Some(user_code_not_found_message(user_id, code)),
            None,
            AppErrorType::NotFound,
        ),
        DbFailureKind::RowNotFound => AppError::new(
            Some(user_code_not_found_message(user_id, code)),
            None,
            AppErrorType::NotFound,
        ),
        _ => AppError::new(None, Some(cause), AppErrorType::Internal),
    }
}

/// Email confirmation, user fetch and update: a dangling reference or
/// missing row means the user does not exist.
pub fn map_confirm_user_failure(k: DbFailureKind, cause: String, user_id: i32) -> (r: AppError)
    ensures
        (k == DbFailureKind::ForeignKeyViolation || k == DbFailureKind::RowNotFound) ==> (
        r.error_type == AppErrorType::NotFound && (r.message matches Some(m) && m@ == "User"@
            + " with id "@ + ascii_chars(int_digits(user_id as int))
            + " could not be found!"@) && r.cause is None),
        !(k == DbFailureKind::ForeignKeyViolation || k == DbFailureKind::RowNotFound) ==> (
        r.error_type == AppErrorType::Internal && r.message is None && r.cause == Some(cause)),
{
    match k {
        DbFailureKind::ForeignKeyViolation => AppError::new(
            Some(entity_not_found_message("User", user_id as i64)),
            None,
            AppErrorType::NotFound,
        ),
        DbFailureKind::RowNotFound => AppError::new(
            Some(entity_not_found_message("User", user_id as i64)),
            None,
            AppErrorType::NotFound,
        ),
        _ => AppError::new(None, Some(cause), AppErrorType::Internal),
    }
}

/// Email confirmation: an already-confirmed address is rejected as a
/// conflict; the detail stays internal.
pub fn check_not_confirmed(user: &User) -> (r: Result<(), AppError>)
    ensures
        r is Ok <==> !user.email_confirmed,
        r matches Err(e) ==> (e.error_type == AppErrorType::Conflict && e.message is None && (
        e.cause matches Some(c) && c@ == "User with id "@ + ascii_chars(
            int_digits(user.user_id as int),
        ) + " already confirmed email!"@)),
{
    if user.email_confirmed {
        let mut m = "User with id ".to_owned();
        let id_text = i64_to_string(user.user_id as i64);
        m.append(id_text.as_str());
        m.append(" already confirmed email!");
        Err(AppError::new(None, Some(m), AppErrorType::Conflict))
    } else {
        Ok(())
    }
}

/// Credential update, credential lookup: a dangling reference is a
/// conflict, a missing row is not-found; both tell the caller only that
/// the credential does not exist.
pub fn map_credential_lookup_failure(k: DbFailureKind, cause: String) -> (r: AppError)
    ensures
        k == DbFailureKind::ForeignKeyViolation ==> (r.error_type == AppErrorType::Conflict && (
        r.message matches Some(m) && m@ == "Credential does not exist!"@) && r.cause is None),
        k == DbFailureKind::RowNotFound ==> (r.error_type == AppErrorType::NotFound && (r.message
            matches Some(m) && m@ == "Credential does not exist!"@) && r.cause is None),
        (k != DbFailureKind::ForeignKeyViolation && k != DbFailureKind::RowNotFound) ==> (
        r.error_type == AppErrorType::Internal && r.message is None && r.cause == Some(cause)),
{
    match k {
        DbFailureKind::ForeignKeyViolation => AppError::new(
            Some("Credential does not exist!".to_owned()),
            None,
            AppErrorType::Conflict,
        ),
        DbFailureKind::RowNotFound => AppError::new(
            Some("Credential does not exist!".to_owned()),
            None,
            AppErrorType::NotFound,
        ),
        _ => AppError::new(None, Some(cause), AppErrorType::Internal),
    }
}

/// Credential update, previous-password comparison: a mismatch is a
/// conflict.
pub fn check_previous_password(is_correct: bool) -> (r: Result<(), AppError>)
    ensures
        r is Ok <==> is_correct,
        r matches Err(e) ==> (e.error_type == AppErrorType::Conflict && (e.message matches Some(m)
            && m@ == "Credential do match!"@) && e.cause is None),
{
    if is_correct {
        Ok(())
    } else {
        Err(AppError::new(Some("Credential do match!".to_owned()), None, AppErrorType::Conflict))
    }
}

/// Single-entity fetch: a missing row is not-found with the entity named
/// in the message; anything else is internal.
pub fn map_entity_fetch_failure(entity: &str, id: i64, k: DbFailureKind, cause: String) -> (r:
    AppError)
    ensures
        k == DbFailureKind::RowNotFound ==> (r.error_type == AppErrorType::NotFound && (r.message
            matches Some(m) && m@ == entity@ + " with id "@ + ascii_chars(int_digits(id as int))
            + " could not be found!"@) && r.cause is None),
        k != DbFailureKind::RowNotFound ==> (r.error_type == AppErrorType::Internal && r.message
            is None && r.cause == Some(cause)),
{
    match k {
        DbFailureKind::RowNotFound => AppError::new(
            Some(entity_not_found_message(entity, id)),
            None,
            AppErrorType::NotFound,
        ),
        _ => AppError::new(None, Some(cause), AppErrorType::Internal),
    }
}

/// Entity creation on a unique natural key: a duplicate is a conflict
/// with the given message; anything else is internal.
pub fn map_unique_create_failure(conflict_message: &str, k: DbFailureKind, cause: String) -> (r:
    AppError)
    ensures
        k == DbFailureKind::UniqueViolation ==> (r.error_type == AppErrorType::Conflict && (
        r.message matches Some(m) && m@ == conflict_message@) && r.cause is None),
        k != DbFailureKind::UniqueViolation ==> (r.error_type == AppErrorType::Internal
            && r.message is None && r.cause == Some(cause)),
{
    match k {
        DbFailureKind::UniqueViolation => AppError::new(
            Some(conflict_message.to_owned()),
            None,
            AppErrorType::Conflict,
        ),
        _ => AppError::new(None, Some(cause), AppErrorType::Internal),
    }
}

/// User update: every failure is reported as the user not being found.
pub fn map_update_user_failure(user_id: i32) -> (r: AppError)
    ensures
        r.error_type == AppErrorType::NotFound,
        r.message matches Some(m) && m@ == "User"@ + " with id "@ + ascii_chars(
            int_digits(user_id as int),
        ) + " could not be found!"@,
        r.cause is None,
{
    AppError::new(
        Some(entity_not_found_message("User", user_id as i64)),
        None,
        AppErrorType::NotFound,
    )
}

/// The position of the first `@` in the bytes, or their length when
/// there is none.
pub open spec fn first_at_sign(b: Seq<u8>, pos: int) -> int
    decreases b.len() - pos,
{
    if pos < 0 || pos >= b.len() {
        b.len() as int
    } else if b[pos] == 64 {
        pos
    } else {
        first_at_sign(b, pos + 1)
    }
}

/// Helper: the scan from `pos` to `i` finds the `@` at `i`.
proof fn lemma_first_at_sign_from(b: Seq<u8>, pos: int, i: int)
    requires
        0 <= pos <= i <= b.len(),
        forall|j: int| pos <= j < i ==> b[j] != 64,
        i < b.len() ==> b[i] == 64,
    ensures
        first_at_sign(b, pos) == if i < b.len() {
            i
        } else {
            b.len() as int
        },
    decreases i - pos,
{
    if pos < i {
        lemma_first_at_sign_from(b, pos + 1, i);
    }
}

/// Sign-up: the username is everything before the first `@` of the email
/// address (the whole address when there is none).
#[verifier::loop_isolation(false)]
pub fn username_from_email(email: &str) -> (r: String)
    ensures
        encode_utf8(r@) == email.spec_bytes().subrange(
            0,
            first_at_sign(email.spec_bytes(), 0),
        ),
{
    let b = email.as_bytes();
    let n = b.len();
    let mut i: usize = 0;
    while i < n && b[i] != 64
        invariant
            0 <= i <= n,
            forall|j: int| 0 <= j < i ==> b@[j] != 64,
        decreases n - i,
    {
        i += 1;
    }
    proof {
        lemma_first_at_sign_from(b@, 0, i as int);
        encode_utf8_valid_utf8(email@);
        if i < n {
            is_char_boundary_iff_not_is_continuation_byte(email.spec_bytes(), i as int);
        } else {
            is_char_boundary_start_end_of_seq(email.spec_bytes());
        }
    }
    let (prefix, _) = email.split_at(i);
    proof {
        encode_utf8_decode_utf8(prefix@);
    }
    prefix.to_owned()
}

/// Pagination: the row offset of a 1-based page.
pub fn page_offset(page: i64, page_size: i64) -> (r: i64)
    requires
        i64::MIN <= (page - 1) * page_size <= i64::MAX,
        i64::MIN <= page - 1,
    ensures
        r == (page - 1) * page_size,
{
    (page - 1) * page_size
}

} // verus!
