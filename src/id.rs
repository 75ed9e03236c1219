//! Identifiers of users, books and checkouts: the 128 bits of a UUID.

use vstd::prelude::*;

verus! {

/// The hexadecimal digit, in lower case, for a value below 16.
pub open spec fn hex_digit(d: int) -> char {
    if d < 10 {
        (('0' as int) + d) as char
    } else {
        (('a' as int) + d - 10) as char
    }
}

pub open spec fn pow16(n: nat) -> int
    decreases n,
{
    if n == 0 {
        1
    } else {
        16 * pow16((n - 1) as nat)
    }
}

/// The 32 lower-case hexadecimal digits of `v`, most significant first.
pub open spec fn simple_hex(v: u128) -> Seq<char> {
    Seq::new(32, |i: int| hex_digit((v as int / pow16((31 - i) as nat)) % 16))
}

/// What parsing the text `s` as a UUID gives: the value, or `None` when the
/// text is not a UUID in one of the accepted forms.
pub uninterp spec fn uuid_parsed(s: Seq<char>) -> Option<u128>;

/// Whether `v` carries the version (4) and variant (RFC 4122) bits of a
/// random UUID.
pub open spec fn is_random_uuid(v: u128) -> bool {
    &&& (v >> 76u128) & 0xfu128 == 4
    &&& (v >> 62u128) & 0x3u128 == 2
}

/// Relies on uuid::Uuid::new_v4 (with Uuid::as_u128): a random identifier,
/// with the version and variant bits that every random UUID carries.
#[verifier::external_body]
fn random_uuid() -> (r: u128)
    ensures
        is_random_uuid(r),
{
    uuid::Uuid::new_v4().as_u128()
}

/// Relies on uuid::Uuid::parse_str (with Uuid::as_u128): the value of a UUID
/// written in text, whose simple form of 32 lower-case digits is accepted.
#[verifier::external_body]
fn parse_uuid(s: &str) -> (r: Option<u128>)
    ensures
        r == uuid_parsed(s@),
        forall|v: u128| s@ == simple_hex(v) ==> r == Some(v),
{
    uuid::Uuid::parse_str(s).ok().map(|u| u.as_u128())
}

/// Relies on uuid::fmt::Simple::encode_lower (with Uuid::from_u128): the
/// 32 lower-case hexadecimal digits of the value.
#[verifier::external_body]
fn simple_uuid_text(v: u128) -> (r: String)
    ensures
        r@ == simple_hex(v),
{
    uuid::Uuid::from_u128(v).as_simple().encode_lower(&mut uuid::Uuid::encode_buffer()).to_string()
}

/// Identifier of a user.
#[derive(Clone, Copy, Debug, PartialEq, Eq, Structural, Hash)]
pub struct UserId(pub u128);

/// Identifier of a book.
#[derive(Clone, Copy, Debug, PartialEq, Eq, Structural, Hash)]
pub struct BookId(pub u128);

/// Identifier of a checkout, kept when the checkout moves to the history.
#[derive(Clone, Copy, Debug, PartialEq, Eq, Structural, Hash)]
pub struct CheckoutId(pub u128);

impl UserId {
    /// A fresh random identifier.
    pub fn new() -> (r: Self)
        ensures
            is_random_uuid(r.0),
    {
        UserId(random_uuid())
    }

    pub fn raw(self) -> (r: u128)
        ensures
            r == self.0,
    {
        self.0
    }

    /// The identifier written in `s`, or `None` where `s` is no UUID; the
    /// text of `to_simple_string` reads back as the same identifier.
    pub fn parse(s: &str) -> (r: Option<Self>)
        ensures
            r == (match uuid_parsed(s@) {
                Some(v) => Some(UserId(v)),
                None => None::<UserId>,
            }),
            forall|v: u128| s@ == simple_hex(v) ==> r == Some(UserId(v)),
    {
        match parse_uuid(s) {
            Some(v) => Some(UserId(v)),
            None => None,
        }
    }

    /// The identifier as 32 lower-case hexadecimal digits.
    pub fn to_simple_string(self) -> (r: String)
        ensures
            r@ == simple_hex(self.0),
    {
        simple_uuid_text(self.0)
    }
}

impl BookId {
    /// A fresh random identifier.
    pub fn new() -> (r: Self)
        ensures
            is_random_uuid(r.0),
    {
        BookId(random_uuid())
    }

    pub fn raw(self) -> (r: u128)
        ensures
            r == self.0,
    {
        self.0
    }

    /// The identifier written in `s`, or `None` where `s` is no UUID; the
    /// text of `to_simple_string` reads back as the same identifier.
    pub fn parse(s: &str) -> (r: Option<Self>)
        ensures
            r == (match uuid_parsed(s@) {
                Some(v) => Some(BookId(v)),
                None => None::<BookId>,
            }),
            forall|v: u128| s@ == simple_hex(v) ==> r == Some(BookId(v)),
    {
        match parse_uuid(s) {
            Some(v) => Some(BookId(v)),
            None => None,
        }
    }

    /// The identifier as 32 lower-case hexadecimal digits.
    pub fn to_simple_string(self) -> (r: String)
        ensures
            r@ == simple_hex(self.0),
    {
        simple_uuid_text(self.0)
    }
}

impl CheckoutId {
    /// A fresh random identifier.
    pub fn new() -> (r: Self)
        ensures
            is_random_uuid(r.0),
    {
        CheckoutId(random_uuid())
    }

    pub fn raw(self) -> (r: u128)
        ensures
            r == self.0,
    {
        self.0
    }

    /// The identifier written in `s`, or `None` where `s` is no UUID; the
    /// text of `to_simple_string` reads back as the same identifier.
    pub fn parse(s: &str) -> (r: Option<Self>)
        ensures
            r == (match uuid_parsed(s@) {
                Some(v) => Some(CheckoutId(v)),
                None => None::<CheckoutId>,
            }),
            forall|v: u128| s@ == simple_hex(v) ==> r == Some(CheckoutId(v)),
    {
        match parse_uuid(s) {
            Some(v) => Some(CheckoutId(v)),
            None => None,
        }
    }

    /// The identifier as 32 lower-case hexadecimal digits.
    pub fn to_simple_string(self) -> (r: String)
        ensures
            r@ == simple_hex(self.0),
    {
        simple_uuid_text(self.0)
    }
}

} // verus!
