//! The persistent entities and the request shapes that create or update
//! them.
//!
//! Timestamps are carried as Unix seconds (`i64`); the I/O layer converts
//! to and from its own calendar type at the boundary.

use vstd::prelude::*;

verus! {

/// A named permission, referenced by id from the role–permission links.
#[derive(Debug, PartialEq)]
pub struct Permission {
    pub permission_id: i16,
    pub name: String,
    pub created_at: i64,
}

/// The view of a permission: its fields as mathematical values.
pub ghost struct PermissionV {
    pub permission_id: int,
    pub name: Seq<char>,
    pub created_at: int,
}

impl PermissionV {
    /// The numeric fields fit their machine types; true of the view of
    /// every `Permission` value.
    pub open spec fn wf(self) -> bool {
        &&& i16::MIN <= self.permission_id <= i16::MAX
        &&& i64::MIN <= self.created_at <= i64::MAX
    }
}

impl View for Permission {
    type V = PermissionV;

    open spec fn view(&self) -> PermissionV {
        PermissionV {
            permission_id: self.permission_id as int,
            name: self.name@,
            created_at: self.created_at as int,
        }
    }
}

/// A named role, referenced by id from users and the join relations.
#[derive(Debug, PartialEq)]
pub struct Role {
    pub role_id: i16,
    pub name: String,
    pub created_at: i64,
}

/// The view of a role.
pub ghost struct RoleV {
    pub role_id: int,
    pub name: Seq<char>,
    pub created_at: int,
}

impl RoleV {
    /// The numeric fields fit their machine types.
    pub open spec fn wf(self) -> bool {
        &&& i16::MIN <= self.role_id <= i16::MAX
        &&& i64::MIN <= self.created_at <= i64::MAX
    }
}

impl View for Role {
    type V = RoleV;

    open spec fn view(&self) -> RoleV {
        RoleV {
            role_id: self.role_id as int,
            name: self.name@,
            created_at: self.created_at as int,
        }
    }
}

/// A user account.
#[derive(Debug, PartialEq)]
pub struct User {
    pub user_id: i32,
    pub first_name: String,
    pub middle_name: Option<String>,
    pub surname: String,
    pub email_address: String,
    pub mobile_number: Option<String>,
    pub enabled: bool,
    pub email_confirmed: bool,
    pub role_id: i16,
    pub created_at: i64,
}

/// The view of a user.
pub ghost struct UserV {
    pub user_id: int,
    pub first_name: Seq<char>,
    pub middle_name: Option<Seq<char>>,
    pub surname: Seq<char>,
    pub email_address: Seq<char>,
    pub mobile_number: Option<Seq<char>>,
    pub enabled: bool,
    pub email_confirmed: bool,
    pub role_id: int,
    pub created_at: int,
}

/// The view of an optional string.
pub open spec fn opt_str_view(o: Option<String>) -> Option<Seq<char>> {
    match o {
        Option::None => Option::None,
        Option::Some(s) => Option::Some(s@),
    }
}

impl UserV {
    /// The numeric fields fit their machine types.
    pub open spec fn wf(self) -> bool {
        &&& i32::MIN <= self.user_id <= i32::MAX
        &&& i16::MIN <= self.role_id <= i16::MAX
        &&& i64::MIN <= self.created_at <= i64::MAX
    }
}

impl View for User {
    type V = UserV;

    open spec fn view(&self) -> UserV {
        UserV {
            user_id: self.user_id as int,
            first_name: self.first_name@,
            middle_name: opt_str_view(self.middle_name),
            surname: self.surname@,
            email_address: self.email_address@,
            mobile_number: opt_str_view(self.mobile_number),
            enabled: self.enabled,
            email_confirmed: self.email_confirmed,
            role_id: self.role_id as int,
            created_at: self.created_at as int,
        }
    }
}

/// A stored credential: a username and the encoded hash of a secret.
#[derive(Debug, PartialEq)]
pub struct UserCredential {
    pub user_credential_id: i32,
    pub username: String,
    pub password: String,
    pub user_id: i32,
    pub created_at: i64,
}

/// A pending email-confirmation code.
#[derive(Debug, PartialEq)]
pub struct UserCode {
    pub user_code_id: i32,
    pub code: i32,
    pub created_at: i64,
    pub user_id: i32,
}

/// An organisation record.
#[derive(Debug, PartialEq)]
pub struct Organisation {
    pub organisation_id: u32,
    pub name: String,
    pub email_address: String,
    pub address: String,
    pub code: String,
}

/// A credential row as exposed to administrative reads.
#[derive(Debug, PartialEq)]
pub struct UserCredentials {
    pub user_credential_id: u32,
    pub username: String,
    pub password: String,
    pub user_id: u32,
}

/// The request shape that creates a permission.
#[derive(Debug, PartialEq)]
pub struct CreatePermission {
    pub name: String,
}

/// The request shape that creates a role.
#[derive(Debug, PartialEq)]
pub struct CreateRole {
    pub name: String,
}

/// The request shape that creates a user.
#[derive(Debug, PartialEq)]
pub struct CreateUser {
    pub first_name: String,
    pub middle_name: Option<String>,
    pub surname: String,
    pub email_address: String,
    pub mobile_number: Option<String>,
    pub role_id: i16,
}

/// The request shape that updates a user.
#[derive(Debug, PartialEq)]
pub struct UpdateUser {
    pub first_name: String,
    pub middle_name: Option<String>,
    pub surname: String,
    pub mobile_number: Option<String>,
}

/// The request shape that creates a credential.
#[derive(Debug, PartialEq)]
pub struct CreateUserCredential {
    pub username: String,
    pub password: String,
}

/// The request shape that replaces a credential's secret.
#[derive(Debug, PartialEq)]
pub struct UpdateUserCredential {
    pub previous_password: String,
    pub password: String,
}

/// Marks a user's email address as confirmed and enables the account,
/// leaving every other field as it was.
pub fn confirm_user(user: User) -> (r: User)
    ensures
        r.email_confirmed == true,
        r.enabled == true,
        r.user_id == user.user_id,
        r.first_name == user.first_name,
        r.middle_name == user.middle_name,
        r.surname == user.surname,
        r.email_address == user.email_address,
        r.mobile_number == user.mobile_number,
        r.role_id == user.role_id,
        r.created_at == user.created_at,
{
    User { email_confirmed: true, enabled: true, ..user }
}

} // verus!
