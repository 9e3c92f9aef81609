//! Request and response shapes, and the claims payload embedded in a
//! token.

use vstd::prelude::*;
use crate::entity::{Permission, PermissionV, Role, RoleV, User, UserV};

verus! {

/// A sign-in request.
#[derive(Debug, PartialEq)]
pub struct SignIn {
    pub email_address: String,
    pub password: String,
}

/// A sign-up request.
#[derive(Debug, PartialEq)]
pub struct SignUp {
    pub first_name: String,
    pub surname: String,
    pub email_address: String,
    pub password: String,
}

/// The response carrying a freshly minted token.
#[derive(Debug, PartialEq)]
pub struct TokenResponse {
    pub token: String,
}

/// A plain message response.
#[derive(Debug, PartialEq)]
pub struct AppResponse<'a> {
    pub message: &'a str,
}

impl AppResponse<'static> {
    pub fn new(message: &'static str) -> (r: AppResponse<'static>)
        ensures
            r.message == message,
    {
        AppResponse { message }
    }
}

/// A pagination request: 1-based page number and page size.
#[derive(Debug, PartialEq)]
pub struct PaginationRequest {
    pub page: i64,
    pub page_size: i64,
}

/// One page of results together with the total row count.
#[derive(Debug, PartialEq)]
pub struct PaginatedResult<T> {
    pub data: Vec<T>,
    pub total: i64,
    pub page: i64,
    pub page_size: i64,
}

/// The shape of a COUNT(*) row.
#[derive(Debug, PartialEq)]
pub struct CountResult {
    pub count: Option<i64>,
}

/// A credit unit held by an organisation.
#[derive(Debug, PartialEq)]
pub struct Unit {
    pub unit_id: u32,
    pub amount: u32,
    pub organisation_id: u32,
}

/// The addressing of an outgoing email.
#[derive(Debug, PartialEq)]
pub struct EmailDetails<'a> {
    pub subject: &'a str,
    pub to: &'a str,
    pub from: &'a str,
}

/// The data rendered into the confirmation email.
#[derive(Debug, PartialEq)]
pub struct EmailConfirmationTemplate {
    pub code: i32,
    pub recipient: String,
}

/// The claims snapshot embedded in a token: subject, full user, role and
/// permission list, and the issue and expiry instants in Unix seconds.
/// Captured by value at mint time and never re-synchronized with later
/// grant changes; a revoked permission stays valid in already-issued
/// tokens until they expire.
#[derive(Debug, PartialEq)]
pub struct Claims {
    pub sub: String,
    pub user: User,
    pub role: Role,
    pub permissions: Vec<Permission>,
    pub iat: usize,
    pub exp: usize,
}

/// The view of a claims snapshot.
pub ghost struct ClaimsV {
    pub sub: Seq<char>,
    pub user: UserV,
    pub role: RoleV,
    pub permissions: Seq<PermissionV>,
    pub iat: int,
    pub exp: int,
}

impl ClaimsV {
    /// The numeric fields fit their machine types; true of the view of
    /// every `Claims` value.
    pub open spec fn wf(self) -> bool {
        &&& self.user.wf()
        &&& self.role.wf()
        &&& forall|i: int| 0 <= i < self.permissions.len() ==> (#[trigger] self.permissions[i]).wf()
        &&& self.permissions.len() <= usize::MAX
        &&& 0 <= self.iat <= usize::MAX
        &&& 0 <= self.exp <= usize::MAX
    }
}

/// The view of every claims value is well formed.
pub proof fn lemma_claims_view_wf(c: Claims)
    ensures
        c@.wf(),
{
    assert forall|i: int| 0 <= i < c@.permissions.len() implies (#[trigger] c@.permissions.index(
        i,
    )).wf() by {
        assert(c@.permissions[i] == c.permissions@[i]@);
    }
    vstd::std_specs::vec::axiom_spec_len(&c.permissions);
}

impl View for Claims {
    type V = ClaimsV;

    open spec fn view(&self) -> ClaimsV {
        ClaimsV {
            sub: self.sub@,
            user: self.user@,
            role: self.role@,
            permissions: Seq::new(self.permissions@.len(), |i: int| self.permissions@[i]@),
            iat: self.iat as int,
            exp: self.exp as int,
        }
    }
}

} // verus!
