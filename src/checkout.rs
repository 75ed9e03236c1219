//! Checkouts and the rules that decide whether a book may be checked out or
//! returned, from the book's state as read inside the write transaction.

use vstd::prelude::*;

use crate::error::AppError;
use crate::id::{BookId, CheckoutId, UserId};

verus! {

/// The book of a checkout, as shown with the checkout.
#[derive(Debug)]
pub struct CheckoutBook {
    pub id: BookId,
    pub title: String,
    pub author: String,
    pub isbn: String,
}

/// A checkout as queries report it: active when `returned_at` is `None`.
/// Times are microseconds since the Unix epoch, UTC.
#[derive(Debug)]
pub struct Checkout {
    pub id: CheckoutId,
    pub checked_out_by: UserId,
    pub checked_out_at: i64,
    pub returned_at: Option<i64>,
    pub book: CheckoutBook,
}

/// A stored checkout: active while `returned_at` is `None`, part of the
/// history once it holds the time of the return.
#[derive(Clone, Copy, Debug, PartialEq, Eq, Structural)]
pub struct CheckoutRecord {
    pub checkout_id: CheckoutId,
    pub book_id: BookId,
    pub user_id: UserId,
    pub checked_out_at: i64,
    pub returned_at: Option<i64>,
}

/// A book's history as queries report it: its active checkout, if any,
/// first, then its returned checkouts in the order given.
pub fn active_then_returned(current: Option<Checkout>, returned: Vec<Checkout>) -> (r: Vec<
    Checkout,
>)
    ensures
        r@ == match current {
            Some(c) => seq![c] + returned@,
            None => returned@,
        },
{
    let mut out: Vec<Checkout> = Vec::new();
    let ghost given = current;
    match current {
        Some(c) => out.push(c),
        None => {},
    }
    let mut rest = returned;
    out.append(&mut rest);
    proof {
        match given {
            Some(c) => assert(out@ =~= seq![c] + returned@),
            None => assert(out@ =~= returned@),
        }
    }
    out
}

/// A request to check a book out.
#[derive(Clone, Copy, Debug)]
pub struct CreateCheckout {
    pub book_id: BookId,
    pub checked_out_by: UserId,
    pub checked_out_at: i64,
}

/// A request to return a checked-out book.
#[derive(Clone, Copy, Debug)]
pub struct UpdateReturned {
    pub checkout_id: CheckoutId,
    pub book_id: BookId,
    pub returned_by: UserId,
    pub returned_at: i64,
}

impl CreateCheckout {
    pub fn new(book_id: BookId, checked_out_by: UserId, checked_out_at: i64) -> (r: Self)
        ensures
            r == (CreateCheckout { book_id, checked_out_by, checked_out_at }),
    {
        CreateCheckout { book_id, checked_out_by, checked_out_at }
    }
}

impl UpdateReturned {
    pub fn new(checkout_id: CheckoutId, book_id: BookId, returned_by: UserId, returned_at: i64) -> (r:
        Self)
        ensures
            r == (UpdateReturned { checkout_id, book_id, returned_by, returned_at }),
    {
        UpdateReturned { checkout_id, book_id, returned_by, returned_at }
    }
}

/// A book's checkout state: the book joined with its active checkout, if
/// any. A book that does not exist has no such row at all.
#[derive(Clone, Copy, Debug, PartialEq, Eq, Structural)]
pub struct CheckoutStateRow {
    pub book_id: BookId,
    pub checkout_id: Option<CheckoutId>,
    pub user_id: Option<UserId>,
}

/// Whether `state` is the active checkout `checkout_id` of book `book_id`,
/// borrowed by `borrower`.
pub open spec fn matches_active(
    state: CheckoutStateRow,
    checkout_id: CheckoutId,
    book_id: BookId,
    borrower: UserId,
) -> bool {
    &&& state.book_id == book_id
    &&& state.checkout_id == Some(checkout_id)
    &&& state.user_id == Some(borrower)
}

/// Decides a checkout from the book's state: a missing book is `NotFound`,
/// a book with an active checkout is a `Conflict`, any other book may be
/// checked out.
pub fn check_checkout_state(state: Option<CheckoutStateRow>) -> (r: Result<(), AppError>)
    ensures
        state is None ==> r == Err::<(), AppError>(AppError::NotFound),
        state matches Some(s) && s.checkout_id is Some ==> r == Err::<(), AppError>(
            AppError::Conflict,
        ),
        state matches Some(s) && s.checkout_id is None ==> r is Ok,
{
    match state {
        None => Err(AppError::NotFound),
        Some(s) => match s.checkout_id {
            Some(_) => Err(AppError::Conflict),
            None => Ok(()),
        },
    }
}

/// Decides a return from the book's state: a missing book is `NotFound`;
/// the return goes ahead only where the book's active checkout is exactly
/// the claimed one, by the claimed borrower. No active checkout at all is a
/// `Conflict`, as a mismatch is.
pub fn check_return_state(state: Option<CheckoutStateRow>, event: &UpdateReturned) -> (r: Result<
    (),
    AppError,
>)
    ensures
        state is None ==> r == Err::<(), AppError>(AppError::NotFound),
        state matches Some(s) && matches_active(
            s,
            event.checkout_id,
            event.book_id,
            event.returned_by,
        ) ==> r is Ok,
        state matches Some(s) && !matches_active(
            s,
            event.checkout_id,
            event.book_id,
            event.returned_by,
        ) ==> r == Err::<(), AppError>(AppError::Conflict),
{
    match state {
        None => Err(AppError::NotFound),
        Some(s) => {
            let same_checkout = match s.checkout_id {
                Some(c) => c == event.checkout_id,
                None => false,
            };
            let same_borrower = match s.user_id {
                Some(u) => u == event.returned_by,
                None => false,
            };
            if same_checkout && same_borrower && s.book_id == event.book_id {
                Ok(())
            } else {
                Err(AppError::Conflict)
            }
        },
    }
}

/// Checks the time of a return against the time of its checkout: a book
/// cannot come back before it went out, so such a return is a `Conflict`.
pub fn check_return_time(checked_out_at: i64, returned_at: i64) -> (r: Result<(), AppError>)
    ensures
        returned_at < checked_out_at ==> r == Err::<(), AppError>(AppError::Conflict),
        returned_at >= checked_out_at ==> r is Ok,
{
    if returned_at < checked_out_at {
        Err(AppError::Conflict)
    } else {
        Ok(())
    }
}

/// Checks the count of rows that a single-row write affected: none is a
/// `WriteAnomaly`.
pub fn check_rows_affected(rows: u64) -> (r: Result<(), AppError>)
    ensures
        rows == 0 ==> r == Err::<(), AppError>(AppError::WriteAnomaly),
        rows > 0 ==> r is Ok,
{
    if rows == 0 {
        Err(AppError::WriteAnomaly)
    } else {
        Ok(())
    }
}

} // verus!
