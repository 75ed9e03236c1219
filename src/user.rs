//! Users, their roles, and the requests that change them.

use vstd::prelude::*;

use crate::id::UserId;

verus! {

/// What a user may do.
#[derive(Clone, Copy, Debug, PartialEq, Eq, Structural)]
pub enum Role {
    Admin,
    User,
}

impl Default for Role {
    fn default() -> (r: Self)
        ensures
            r == Role::User,
    {
        Role::User
    }
}

/// A role as it is named to clients.
#[derive(Clone, Copy, Debug, PartialEq, Eq, Structural)]
pub enum RoleName {
    User,
    Admin,
}

pub open spec fn role_name_of(role: Role) -> RoleName {
    match role {
        Role::User => RoleName::User,
        Role::Admin => RoleName::Admin,
    }
}

pub open spec fn role_of(name: RoleName) -> Role {
    match name {
        RoleName::User => Role::User,
        RoleName::Admin => Role::Admin,
    }
}

impl From<Role> for RoleName {
    fn from(role: Role) -> (r: Self) {
        match role {
            Role::User => RoleName::User,
            Role::Admin => RoleName::Admin,
        }
    }
}

impl vstd::std_specs::convert::FromSpecImpl<Role> for RoleName {
    open spec fn obeys_from_spec() -> bool {
        true
    }

    open spec fn from_spec(role: Role) -> RoleName {
        role_name_of(role)
    }
}

impl From<RoleName> for Role {
    fn from(name: RoleName) -> (r: Self) {
        match name {
            RoleName::User => Role::User,
            RoleName::Admin => Role::Admin,
        }
    }
}

impl vstd::std_specs::convert::FromSpecImpl<RoleName> for Role {
    open spec fn obeys_from_spec() -> bool {
        true
    }

    open spec fn from_spec(name: RoleName) -> Role {
        role_of(name)
    }
}

/// Naming a role and reading the name back gives the role again, and the
/// other way round.
pub proof fn lemma_role_names_round_trip(role: Role, name: RoleName)
    ensures
        role_of(role_name_of(role)) == role,
        role_name_of(role_of(name)) == name,
{
}

/// A registered user.
#[derive(Debug)]
pub struct User {
    pub id: UserId,
    pub name: String,
    pub email: String,
    pub role: Role,
}

/// The owner of a book, as shown with the book.
#[derive(Debug)]
pub struct BookOwner {
    pub id: UserId,
    pub name: String,
}

/// The borrower of a book, as shown with the book.
#[derive(Debug)]
pub struct CheckoutUser {
    pub id: UserId,
    pub name: String,
}

/// A request to register a user.
#[derive(Debug)]
pub struct CreateUser {
    pub name: String,
    pub email: String,
    pub password: String,
}

/// A request to change a user's role.
#[derive(Debug)]
pub struct UpdateUserRole {
    pub id: UserId,
    pub role: Role,
}

/// A request to change a user's password.
#[derive(Debug)]
pub struct UpdateUserPassword {
    pub id: UserId,
    pub current_password: String,
    pub new_password: String,
}

/// A request to delete a user.
#[derive(Debug)]
pub struct DeleteUser {
    pub id: UserId,
}

/// A user's stored credentials.
pub struct UserItem {
    pub user_id: UserId,
    pub password_hash: String,
}

/// An opaque bearer token that stands for a signed-in user.
#[derive(Debug)]
pub struct AccessToken(pub String);

/// The user on whose behalf a request runs, with the token it came with.
pub struct AuthorizedUser {
    pub access_token: AccessToken,
    pub user: User,
}

impl AuthorizedUser {
    pub fn id(&self) -> (r: UserId)
        ensures
            r == self.user.id,
    {
        self.user.id
    }

    pub fn is_admin(&self) -> (r: bool)
        ensures
            r == (self.user.role == Role::Admin),
    {
        self.user.role == Role::Admin
    }
}

} // verus!
