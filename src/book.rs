//! Books as the catalog stores them and as they are shown.

use vstd::prelude::*;

use crate::id::{BookId, CheckoutId, UserId};
use crate::user::{BookOwner, CheckoutUser};

verus! {

/// The page size of a book list when the request names none.
pub const DEFAULT_LIMIT: i64 = 20;

/// A stored book joined with its owner's name.
pub struct BookRow {
    pub book_id: BookId,
    pub title: String,
    pub author: String,
    pub isbn: String,
    pub description: String,
    pub owned_by: UserId,
    pub owner_name: String,
}

/// One row of a page of books: the total count and one book's id.
pub struct PaginatedBookRow {
    pub total: i64,
    pub id: BookId,
}

/// The active checkout of a book, as shown with the book. Times are
/// microseconds since the Unix epoch, UTC.
#[derive(Debug)]
pub struct Checkout {
    pub checkout_id: CheckoutId,
    pub checked_out_by: CheckoutUser,
    pub checked_out_at: i64,
}

/// A book with its owner and its active checkout, if any.
#[derive(Debug)]
pub struct Book {
    pub id: BookId,
    pub title: String,
    pub author: String,
    pub isbn: String,
    pub description: String,
    pub owner: BookOwner,
    pub checkout: Option<Checkout>,
}

/// Which page of the book list to show.
#[derive(Debug)]
pub struct BookListOptions {
    pub limit: i64,
    pub offset: i64,
}

/// The paging of a book list as a request gives it.
#[derive(Debug)]
pub struct BookListQuery {
    pub limit: i64,
    pub offset: i64,
}

/// The limit of a book list request that names none.
pub fn default_limit() -> (r: i64)
    ensures
        r == DEFAULT_LIMIT,
{
    DEFAULT_LIMIT
}

impl BookListQuery {
    pub fn into_options(self) -> (r: BookListOptions)
        ensures
            r.limit == self.limit,
            r.offset == self.offset,
    {
        BookListOptions { limit: self.limit, offset: self.offset }
    }
}

impl BookRow {
    /// The book that this row describes, with the given active checkout.
    pub fn into_book(self, checkout: Option<Checkout>) -> (r: Book)
        ensures
            r.id == self.book_id,
            r.title == self.title,
            r.author == self.author,
            r.isbn == self.isbn,
            r.description == self.description,
            r.owner.id == self.owned_by,
            r.owner.name == self.owner_name,
            r.checkout == checkout,
    {
        Book {
            id: self.book_id,
            title: self.title,
            author: self.author,
            isbn: self.isbn,
            description: self.description,
            owner: BookOwner { id: self.owned_by, name: self.owner_name },
            checkout,
        }
    }
}

} // verus!
