//! The key and value under which a signed-in user's token is cached.

use vstd::prelude::*;

use crate::error::AppError;
use crate::id::{simple_hex, uuid_parsed, UserId};
use crate::user::AccessToken;

verus! {

/// A request to cache a token for a user.
pub struct CreateToken {
    pub user_id: UserId,
    pub access_token: String,
}

/// The cache key: the token itself.
pub struct AuthorizationKey(pub String);

/// The cached value: the user that the token stands for.
#[derive(Debug)]
pub struct AuthorizedUserId(pub UserId);

/// Splits a token request into the key and the value to cache.
pub fn from(event: CreateToken) -> (r: (AuthorizationKey, AuthorizedUserId))
    ensures
        r.0.0 == event.access_token,
        r.1.0 == event.user_id,
{
    (AuthorizationKey(event.access_token), AuthorizedUserId(event.user_id))
}

impl AuthorizationKey {
    pub fn from_token(token: AccessToken) -> (r: Self)
        ensures
            r.0 == token.0,
    {
        AuthorizationKey(token.0)
    }

    pub fn into_token(self) -> (r: AccessToken)
        ensures
            r.0 == self.0,
    {
        AccessToken(self.0)
    }

    /// The key as it is stored.
    pub fn inner(&self) -> (r: String)
        ensures
            r == self.0,
    {
        self.0.clone()
    }
}

impl AuthorizedUserId {
    pub fn into_inner(self) -> (r: UserId)
        ensures
            r == self.0,
    {
        self.0
    }

    /// The value as it is stored: the user id's 32 hexadecimal digits.
    pub fn inner(&self) -> (r: String)
        ensures
            r@ == simple_hex(self.0.0),
    {
        self.0.to_simple_string()
    }

    /// Reads a stored value back; text that is no UUID is a
    /// `ConversionFailure`. What `inner` stored reads back as the same user.
    pub fn from_stored(value: &str) -> (r: Result<Self, AppError>)
        ensures
            match uuid_parsed(value@) {
                Some(v) => r == Ok::<Self, AppError>(AuthorizedUserId(UserId(v))),
                None => r == Err::<Self, AppError>(AppError::ConversionFailure),
            },
            forall|v: u128|
                value@ == simple_hex(v) ==> r == Ok::<Self, AppError>(AuthorizedUserId(UserId(v))),
    {
        match UserId::parse(value) {
            Some(id) => Ok(AuthorizedUserId(id)),
            None => Err(AppError::ConversionFailure),
        }
    }
}

} // verus!
