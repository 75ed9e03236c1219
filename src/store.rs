//! An in-memory lending store. Each write runs to completion before the
//! next begins, as serializable transactions appear to, and keeps the
//! store's invariants: one active checkout per book at most, checkout ids
//! never shared between active checkouts and the history, and a history
//! that only grows.

use vstd::prelude::*;

use crate::book::BookRow;
use crate::checkout::{
    check_checkout_state, check_return_state, check_return_time, matches_active, Checkout, CheckoutBook,
    CheckoutRecord, CheckoutStateRow, CreateCheckout, UpdateReturned,
};
use crate::error::AppError;
use crate::id::{BookId, CheckoutId, UserId};
use crate::ordering::{lemma_sort_by_time, sort_by_time, sort_records};

verus! {

broadcast use vstd::seq_lib::group_filter_ensures, vstd::seq_lib::group_to_multiset_ensures;

/// Whether a record belongs to book `b`.
pub open spec fn of_book(b: BookId) -> spec_fn(CheckoutRecord) -> bool {
    |r: CheckoutRecord| r.book_id == b
}

/// Whether a record was checked out by user `u`.
pub open spec fn of_user(u: UserId) -> spec_fn(CheckoutRecord) -> bool {
    |r: CheckoutRecord| r.user_id == u
}

/// The record that the history keeps of `rec` once it is returned at `at`.
pub open spec fn returned_record(rec: CheckoutRecord, at: i64) -> CheckoutRecord {
    CheckoutRecord { returned_at: Some(at), ..rec }
}

/// Whether `rec` holds a time of return no earlier than its checkout time.
pub open spec fn is_returned_in_time(rec: CheckoutRecord) -> bool {
    match rec.returned_at {
        Some(t) => rec.checked_out_at <= t,
        None => false,
    }
}

/// The active record of a checkout by `c` as `event` asks for it.
pub open spec fn new_record(c: CheckoutId, event: CreateCheckout) -> CheckoutRecord {
    CheckoutRecord {
        checkout_id: c,
        book_id: event.book_id,
        user_id: event.checked_out_by,
        checked_out_at: event.checked_out_at,
        returned_at: None,
    }
}

/// What a lending store holds: the books, the active checkouts and the
/// returned ones, each in the order it was written.
pub struct LendingState {
    pub books: Seq<BookRow>,
    pub active: Seq<CheckoutRecord>,
    pub returned: Seq<CheckoutRecord>,
}

impl LendingState {
    pub open spec fn has_book(self, b: BookId) -> bool {
        exists|i: int| 0 <= i < self.books.len() && (#[trigger] self.books[i]).book_id == b
    }

    /// The stored row of book `b`.
    pub open spec fn book_of(self, b: BookId) -> BookRow {
        self.books[choose|i: int| 0 <= i < self.books.len() && (#[trigger] self.books[i]).book_id == b]
    }

    /// Whether checkout id `c` is taken, by an active or a returned checkout.
    pub open spec fn uses_checkout_id(self, c: CheckoutId) -> bool {
        (exists|i: int| 0 <= i < self.active.len() && (#[trigger] self.active[i]).checkout_id == c)
            || (exists|i: int|
            0 <= i < self.returned.len() && (#[trigger] self.returned[i]).checkout_id == c)
    }

    /// The active checkouts of book `b`.
    pub open spec fn active_of_book(self, b: BookId) -> Seq<CheckoutRecord> {
        self.active.filter(of_book(b))
    }

    /// Whether a return of book `b` at time `t` would come before the
    /// book's active checkout.
    pub open spec fn returns_too_early(self, b: BookId, t: i64) -> bool {
        self.active_of_book(b).len() > 0 && t < self.active_of_book(b)[0].checked_out_at
    }

    /// The position of the active checkout `c`.
    pub open spec fn active_position(self, c: CheckoutId) -> int {
        choose|i: int| 0 <= i < self.active.len() && (#[trigger] self.active[i]).checkout_id == c
    }

    /// Book `b` joined with its active checkout; `None` where there is no
    /// such book.
    pub open spec fn state_of(self, b: BookId) -> Option<CheckoutStateRow> {
        if !self.has_book(b) {
            None
        } else if self.active_of_book(b).len() == 0 {
            Some(CheckoutStateRow { book_id: b, checkout_id: None, user_id: None })
        } else {
            Some(
                CheckoutStateRow {
                    book_id: b,
                    checkout_id: Some(self.active_of_book(b)[0].checkout_id),
                    user_id: Some(self.active_of_book(b)[0].user_id),
                },
            )
        }
    }

    /// A record as queries report it, with its book's title, author and ISBN.
    pub open spec fn checkout_of(self, rec: CheckoutRecord) -> Checkout {
        let b = self.book_of(rec.book_id);
        Checkout {
            id: rec.checkout_id,
            checked_out_by: rec.user_id,
            checked_out_at: rec.checked_out_at,
            returned_at: rec.returned_at,
            book: CheckoutBook { id: b.book_id, title: b.title, author: b.author, isbn: b.isbn },
        }
    }

    pub open spec fn checkouts_of(self, s: Seq<CheckoutRecord>) -> Seq<Checkout> {
        s.map_values(|rec: CheckoutRecord| self.checkout_of(rec))
    }

    /// All active checkouts, oldest first.
    pub open spec fn unreturned_all(self) -> Seq<Checkout> {
        self.checkouts_of(sort_by_time(self.active))
    }

    /// The active checkouts of user `u`, oldest first.
    pub open spec fn unreturned_by_user(self, u: UserId) -> Seq<Checkout> {
        self.checkouts_of(sort_by_time(self.active).filter(of_user(u)))
    }

    /// Book `b`'s active checkout, if any, followed by its returned
    /// checkouts, oldest first.
    pub open spec fn history_of_book(self, b: BookId) -> Seq<Checkout> {
        self.checkouts_of(self.active_of_book(b)) + self.checkouts_of(
            sort_by_time(self.returned.filter(of_book(b))),
        )
    }

    /// Whether every record of `s` refers to a stored book.
    pub open spec fn books_known(self, s: Seq<CheckoutRecord>) -> bool {
        forall|k: int| 0 <= k < s.len() ==> self.has_book(#[trigger] s[k].book_id)
    }

    /// The invariants of a lending store.
    pub open spec fn is_consistent(self) -> bool {
        &&& forall|i: int, j: int|
            0 <= i < j < self.books.len() ==> (#[trigger] self.books[i]).book_id
                != (#[trigger] self.books[j]).book_id
        &&& forall|i: int, j: int|
            0 <= i < j < self.active.len() ==> (#[trigger] self.active[i]).book_id
                != (#[trigger] self.active[j]).book_id
        &&& forall|i: int, j: int|
            0 <= i < j < self.active.len() ==> (#[trigger] self.active[i]).checkout_id
                != (#[trigger] self.active[j]).checkout_id
        &&& forall|i: int, j: int|
            0 <= i < j < self.returned.len() ==> (#[trigger] self.returned[i]).checkout_id
                != (#[trigger] self.returned[j]).checkout_id
        &&& forall|i: int, j: int|
            0 <= i < self.active.len() && 0 <= j < self.returned.len() ==> (#[trigger] self.active[i]).checkout_id
                != (#[trigger] self.returned[j]).checkout_id
        &&& forall|i: int| 0 <= i < self.active.len() ==> (#[trigger] self.active[i]).returned_at is None
        &&& forall|i: int|
            0 <= i < self.returned.len() ==> is_returned_in_time(#[trigger] self.returned[i])
        &&& self.books_known(self.active)
        &&& self.books_known(self.returned)
    }
}

/// The records of `s` that satisfy `p`, kept in their order, all refer to
/// stored books where those of `s` do.
proof fn lemma_filter_books_known(
    state: LendingState,
    s: Seq<CheckoutRecord>,
    p: spec_fn(CheckoutRecord) -> bool,
)
    requires
        state.books_known(s),
    ensures
        state.books_known(s.filter(p)),
{
    assert forall|k: int| 0 <= k < s.filter(p).len() implies state.has_book(
        #[trigger] s.filter(p)[k].book_id,
    ) by {
        let x = s.filter(p)[k];
        assert(s.filter(p).contains(x));
        s.lemma_filter_contains_rev(p, x);
        let j = choose|j: int| 0 <= j < s.len() && s[j] == x;
        assert(state.has_book(s[j].book_id));
    }
}

/// Sorting keeps the records, so they still refer to stored books.
proof fn lemma_sort_books_known(state: LendingState, s: Seq<CheckoutRecord>)
    requires
        state.books_known(s),
    ensures
        state.books_known(sort_by_time(s)),
{
    lemma_sort_by_time(s);
    let t = sort_by_time(s);
    assert forall|k: int| 0 <= k < t.len() implies state.has_book(#[trigger] t[k].book_id) by {
        let x = t[k];
        assert(t.contains(x));
        assert(t.to_multiset().count(x) > 0);
        assert(s.contains(x));
        let j = choose|j: int| 0 <= j < s.len() && s[j] == x;
        assert(state.has_book(s[j].book_id));
    }
}

/// The records of `records` that belong to book `b`, in their order.
fn records_of_book(records: &Vec<CheckoutRecord>, b: BookId) -> (r: Vec<CheckoutRecord>)
    ensures
        r@ == records@.filter(of_book(b)),
{
    let mut out: Vec<CheckoutRecord> = Vec::new();
    let mut i: usize = 0;
    while i < records.len()
        invariant
            0 <= i <= records.len(),
            out@ == records@.subrange(0, i as int).filter(of_book(b)),
        decreases records.len() - i,
    {
        proof {
            reveal(Seq::filter);
            assert(records@.subrange(0, i + 1).drop_last() =~= records@.subrange(0, i as int));
        }
        if records[i].book_id == b {
            out.push(records[i]);
        }
        i = i + 1;
    }
    assert(records@.subrange(0, records.len() as int) =~= records@);
    out
}

/// The records of `records` checked out by user `u`, in their order.
fn records_of_user(records: &Vec<CheckoutRecord>, u: UserId) -> (r: Vec<CheckoutRecord>)
    ensures
        r@ == records@.filter(of_user(u)),
{
    let mut out: Vec<CheckoutRecord> = Vec::new();
    let mut i: usize = 0;
    while i < records.len()
        invariant
            0 <= i <= records.len(),
            out@ == records@.subrange(0, i as int).filter(of_user(u)),
        decreases records.len() - i,
    {
        proof {
            reveal(Seq::filter);
            assert(records@.subrange(0, i + 1).drop_last() =~= records@.subrange(0, i as int));
        }
        if records[i].user_id == u {
            out.push(records[i]);
        }
        i = i + 1;
    }
    assert(records@.subrange(0, records.len() as int) =~= records@);
    out
}

/// With no two records of one book in `s`, `s` holds at most one record of
/// book `b`.
proof fn lemma_unique_books_filter(s: Seq<CheckoutRecord>, b: BookId)
    requires
        forall|i: int, j: int|
            0 <= i < j < s.len() ==> (#[trigger] s[i]).book_id != (#[trigger] s[j]).book_id,
    ensures
        s.filter(of_book(b)).len() <= 1,
    decreases s.len(),
{
    reveal(Seq::filter);
    if s.len() > 0 {
        let d = s.drop_last();
        assert forall|i: int, j: int| 0 <= i < j < d.len() implies (#[trigger] d[i]).book_id
            != (#[trigger] d[j]).book_id by {
            assert(d[i] == s[i] && d[j] == s[j]);
        }
        lemma_unique_books_filter(d, b);
        if s.last().book_id == b && d.filter(of_book(b)).len() > 0 {
            let x = d.filter(of_book(b))[0];
            assert(d.filter(of_book(b)).contains(x));
            d.lemma_filter_contains_rev(of_book(b), x);
            let j = choose|j: int| 0 <= j < d.len() && d[j] == x;
            assert(s[j].book_id != s[s.len() - 1].book_id);
        }
    }
}

/// However many checkouts and returns led to it, a consistent store holds
/// at most one active checkout of any book.
pub proof fn lemma_one_active_checkout_per_book(store: LendingStore, book_id: BookId)
    requires
        store.wf(),
    ensures
        store@.active_of_book(book_id).len() <= 1,
{
    lemma_unique_books_filter(store@.active, book_id);
}

/// A book's history starts with its active checkout where it has one;
/// every later entry is a returned checkout, and the returned checkouts run
/// from the oldest checkout time to the newest, whatever the time of the
/// active one.
pub proof fn lemma_history_order(store: LendingStore, book_id: BookId)
    requires
        store.wf(),
    ensures
        ({
            let h = store@.history_of_book(book_id);
            &&& store@.active_of_book(book_id).len() > 0 ==> h[0].returned_at is None
            &&& forall|i: int| 1 <= i < h.len() ==> (#[trigger] h[i]).returned_at is Some
            &&& forall|i: int, j: int|
                0 <= i < j < h.len() && h[i].returned_at is Some ==> (#[trigger] h[i]).checked_out_at
                    <= (#[trigger] h[j]).checked_out_at
        }),
{
    let st = store@;
    let a = st.active_of_book(book_id);
    let past = st.returned.filter(of_book(book_id));
    let sorted = sort_by_time(past);
    let h = st.history_of_book(book_id);
    lemma_one_active_checkout_per_book(store, book_id);
    lemma_sort_by_time(past);
    assert forall|k: int| 0 <= k < a.len() implies (#[trigger] a[k]).returned_at is None by {
        assert(a.contains(a[k]));
        st.active.lemma_filter_contains_rev(of_book(book_id), a[k]);
    }
    assert forall|k: int| 0 <= k < sorted.len() implies (#[trigger] sorted[k]).returned_at is Some by {
        let x = sorted[k];
        assert(sorted.contains(x));
        assert(sorted.to_multiset().count(x) > 0);
        assert(past.contains(x));
        st.returned.lemma_filter_contains_rev(of_book(book_id), x);
    }
    let n = a.len();
    assert forall|i: int| 0 <= i < h.len() implies #[trigger] h[i] == if i < n {
        st.checkout_of(a[i])
    } else {
        st.checkout_of(sorted[i - n])
    } by {}
    assert forall|i: int, j: int|
        0 <= i < j < h.len() && h[i].returned_at is Some implies (#[trigger] h[i]).checked_out_at
        <= (#[trigger] h[j]).checked_out_at by {
        assert(i >= n);
        assert(sorted[i - n].checked_out_at <= sorted[j - n].checked_out_at);
    }
}

/// Reading a store twice with no write in between gives the same results:
/// what each query returns depends on the store's contents alone.
pub proof fn lemma_reads_repeatable(
    first: LendingStore,
    second: LendingStore,
    user_id: UserId,
    book_id: BookId,
)
    requires
        first@ == second@,
    ensures
        first@.unreturned_all() == second@.unreturned_all(),
        first@.unreturned_by_user(user_id) == second@.unreturned_by_user(user_id),
        first@.history_of_book(book_id) == second@.history_of_book(book_id),
        first@.state_of(book_id) == second@.state_of(book_id),
{
}

/// Whether a checkout was made by user `u`.
pub open spec fn borrowed_by(u: UserId) -> spec_fn(Checkout) -> bool {
    |c: Checkout| c.checked_out_by == u
}

proof fn lemma_checkouts_of_user(state: LendingState, s: Seq<CheckoutRecord>, u: UserId)
    ensures
        state.checkouts_of(s.filter(of_user(u))) == state.checkouts_of(s).filter(borrowed_by(u)),
    decreases s.len(),
{
    reveal(Seq::filter);
    if s.len() == 0 {
        assert(state.checkouts_of(s.filter(of_user(u))) =~= state.checkouts_of(s).filter(
            borrowed_by(u),
        ));
    } else {
        let d = s.drop_last();
        lemma_checkouts_of_user(state, d, u);
        assert(state.checkouts_of(s).drop_last() =~= state.checkouts_of(d));
        assert(state.checkouts_of(s).last() == state.checkout_of(s.last()));
        if s.last().user_id == u {
            assert(state.checkouts_of(d.filter(of_user(u)).push(s.last())) =~= state.checkouts_of(
                d.filter(of_user(u)),
            ).push(state.checkout_of(s.last())));
        }
    }
}

/// A user's active checkouts are the list of all active checkouts with the
/// other users' left out, in the same order.
pub proof fn lemma_user_list_filters_full_list(store: LendingStore, user_id: UserId)
    ensures
        store@.unreturned_by_user(user_id) == store@.unreturned_all().filter(borrowed_by(user_id)),
{
    lemma_checkouts_of_user(store@, sort_by_time(store@.active), user_id);
}

/// A lending store held in memory.
pub struct LendingStore {
    books: Vec<BookRow>,
    active: Vec<CheckoutRecord>,
    returned: Vec<CheckoutRecord>,
}

impl View for LendingStore {
    type V = LendingState;

    closed spec fn view(&self) -> LendingState {
        LendingState { books: self.books@, active: self.active@, returned: self.returned@ }
    }
}

impl LendingStore {
    pub open spec fn wf(&self) -> bool {
        self@.is_consistent()
    }

    /// An empty store.
    pub fn new() -> (r: Self)
        ensures
            r.wf(),
            r@.books.len() == 0,
            r@.active.len() == 0,
            r@.returned.len() == 0,
    {
        LendingStore { books: Vec::new(), active: Vec::new(), returned: Vec::new() }
    }

    /// The position of book `b` among the stored books.
    fn find_book(&self, b: BookId) -> (r: Option<usize>)
        ensures
            match r {
                Some(i) => i < self@.books.len() && self@.books[i as int].book_id == b,
                None => !self@.has_book(b),
            },
    {
        let mut i: usize = 0;
        while i < self.books.len()
            invariant
                0 <= i <= self.books.len(),
                forall|k: int| 0 <= k < i ==> (#[trigger] self.books@[k]).book_id != b,
            decreases self.books.len() - i,
        {
            if self.books[i].book_id == b {
                return Some(i);
            }
            i = i + 1;
        }
        None
    }

    /// Adds a book to the catalog; a book whose id is taken is a `Conflict`
    /// and changes nothing.
    pub fn add_book(&mut self, book: BookRow) -> (r: Result<(), AppError>)
        requires
            old(self).wf(),
        ensures
            final(self).wf(),
            old(self)@.has_book(book.book_id) ==> r == Err::<(), AppError>(AppError::Conflict)
                && final(self)@ == old(self)@,
            !old(self)@.has_book(book.book_id) ==> r is Ok && final(self)@ == (LendingState {
                books: old(self)@.books.push(book),
                ..old(self)@
            }),
    {
        match self.find_book(book.book_id) {
            Some(_) => Err(AppError::Conflict),
            None => {
                let ghost pre = self@;
                self.books.push(book);
                proof {
                    assert forall|b: BookId| pre.has_book(b) implies self@.has_book(b) by {
                        let i = choose|i: int| 0 <= i < pre.books.len() && pre.books[i].book_id == b;
                        assert(self@.books[i] == pre.books[i]);
                    }
                }
                Ok(())
            },
        }
    }

    /// Book `b` joined with its active checkout, as a write transaction
    /// reads it first; `None` where there is no such book.
    pub fn checkout_state(&self, b: BookId) -> (r: Option<CheckoutStateRow>)
        requires
            self.wf(),
        ensures
            r == self@.state_of(b),
    {
        match self.find_book(b) {
            None => None,
            Some(i) => {
                assert(self@.books[i as int].book_id == b);
                let mine = records_of_book(&self.active, b);
                if mine.len() == 0 {
                    Some(CheckoutStateRow { book_id: b, checkout_id: None, user_id: None })
                } else {
                    Some(
                        CheckoutStateRow {
                            book_id: b,
                            checkout_id: Some(mine[0].checkout_id),
                            user_id: Some(mine[0].user_id),
                        },
                    )
                }
            },
        }
    }

    /// Whether checkout id `c` is taken.
    fn checkout_id_taken(&self, c: CheckoutId) -> (r: bool)
        ensures
            r == self@.uses_checkout_id(c),
    {
        let mut i: usize = 0;
        while i < self.active.len()
            invariant
                0 <= i <= self.active.len(),
                forall|k: int| 0 <= k < i ==> (#[trigger] self.active@[k]).checkout_id != c,
            decreases self.active.len() - i,
        {
            if self.active[i].checkout_id == c {
                return true;
            }
            i = i + 1;
        }
        let mut j: usize = 0;
        while j < self.returned.len()
            invariant
                0 <= j <= self.returned.len(),
                forall|k: int| 0 <= k < self.active.len() ==> (#[trigger] self.active@[k]).checkout_id != c,
                forall|k: int| 0 <= k < j ==> (#[trigger] self.returned@[k]).checkout_id != c,
            decreases self.returned.len() - j,
        {
            if self.returned[j].checkout_id == c {
                return true;
            }
            j = j + 1;
        }
        false
    }

    /// The position of the active checkout `c`.
    fn find_active(&self, c: CheckoutId) -> (r: Option<usize>)
        ensures
            match r {
                Some(i) => i < self@.active.len() && self@.active[i as int].checkout_id == c,
                None => forall|k: int|
                    0 <= k < self@.active.len() ==> (#[trigger] self@.active[k]).checkout_id != c,
            },
    {
        let mut i: usize = 0;
        while i < self.active.len()
            invariant
                0 <= i <= self.active.len(),
                forall|k: int| 0 <= k < i ==> (#[trigger] self.active@[k]).checkout_id != c,
            decreases self.active.len() - i,
        {
            if self.active[i].checkout_id == c {
                return Some(i);
            }
            i = i + 1;
        }
        None
    }

    /// Checks book `event.book_id` out to `event.checked_out_by` under the
    /// checkout id `checkout_id`. A missing book is `NotFound`, a book that
    /// is checked out already is a `Conflict`, and a checkout id that is
    /// taken leaves the insert without effect: a `WriteAnomaly`. A failure
    /// changes nothing.
    pub fn create_with_id(&mut self, checkout_id: CheckoutId, event: CreateCheckout) -> (r: Result<
        (),
        AppError,
    >)
        requires
            old(self).wf(),
        ensures
            final(self).wf(),
            old(self)@.state_of(event.book_id) is None ==> r == Err::<(), AppError>(
                AppError::NotFound,
            ),
            old(self)@.state_of(event.book_id) matches Some(s) && s.checkout_id is Some ==> r
                == Err::<(), AppError>(AppError::Conflict),
            old(self)@.state_of(event.book_id) matches Some(s) && s.checkout_id is None
                && old(self)@.uses_checkout_id(checkout_id) ==> r == Err::<(), AppError>(
                AppError::WriteAnomaly,
            ),
            old(self)@.state_of(event.book_id) matches Some(s) && s.checkout_id is None
                && !old(self)@.uses_checkout_id(checkout_id) ==> r is Ok,
            r is Err ==> final(self)@ == old(self)@,
            r is Ok ==> final(self)@ == (LendingState {
                active: old(self)@.active.push(new_record(checkout_id, event)),
                ..old(self)@
            }),
            r is Ok ==> final(self)@.state_of(event.book_id) == Some(
                CheckoutStateRow {
                    book_id: event.book_id,
                    checkout_id: Some(checkout_id),
                    user_id: Some(event.checked_out_by),
                },
            ),
    {
        let state = self.checkout_state(event.book_id);
        match check_checkout_state(state) {
            Err(e) => {
                return Err(e);
            },
            Ok(()) => {},
        }
        if self.checkout_id_taken(checkout_id) {
            return Err(AppError::WriteAnomaly);
        }
        let rec = CheckoutRecord {
            checkout_id,
            book_id: event.book_id,
            user_id: event.checked_out_by,
            checked_out_at: event.checked_out_at,
            returned_at: None,
        };
        let ghost pre = self@;
        proof {
            assert forall|k: int| 0 <= k < pre.active.len() implies (#[trigger] pre.active[k]).book_id
                != event.book_id by {
                if pre.active[k].book_id == event.book_id {
                    assert(pre.active.filter(of_book(event.book_id)).contains(pre.active[k]));
                }
            }
        }
        self.active.push(rec);
        proof {
            let post = self@;
            assert(post.books == pre.books);
            assert(post.active == pre.active.push(rec));
            assert(pre.active.filter(of_book(event.book_id)).len() == 0);
            reveal(Seq::filter);
            assert(post.active.drop_last() =~= pre.active);
            assert(post.active_of_book(event.book_id) =~= seq![rec]);
            assert(post.has_book(event.book_id));
            assert forall|k: int| 0 <= k < post.active.len() implies post.has_book(
                #[trigger] post.active[k].book_id,
            ) by {
                if k < pre.active.len() {
                    assert(post.active[k] == pre.active[k]);
                    assert(pre.has_book(pre.active[k].book_id));
                }
                assert(pre.has_book(post.active[k].book_id));
            }
        }
        Ok(())
    }

    /// Checks a book out under a freshly drawn checkout id, with the
    /// outcomes of `create_with_id` for that id: it fails with a
    /// `WriteAnomaly` only where the drawn id is taken, so a store that uses
    /// no checkout id always takes a checkout of an available book.
    pub fn create(&mut self, event: CreateCheckout) -> (r: Result<(), AppError>)
        requires
            old(self).wf(),
        ensures
            final(self).wf(),
            old(self)@.state_of(event.book_id) is None ==> r == Err::<(), AppError>(
                AppError::NotFound,
            ),
            old(self)@.state_of(event.book_id) matches Some(s) && s.checkout_id is Some ==> r
                == Err::<(), AppError>(AppError::Conflict),
            old(self)@.state_of(event.book_id) matches Some(s) && s.checkout_id is None ==> r is Ok
                || r == Err::<(), AppError>(AppError::WriteAnomaly),
            r is Err ==> final(self)@ == old(self)@,
            r == Err::<(), AppError>(AppError::WriteAnomaly) ==> exists|c: CheckoutId|
                old(self)@.uses_checkout_id(c),
            r is Ok ==> exists|c: CheckoutId|
                !old(self)@.uses_checkout_id(c) && final(self)@ == (LendingState {
                    active: old(self)@.active.push(#[trigger] new_record(c, event)),
                    ..old(self)@
                }),
            r is Ok ==> (final(self)@.state_of(event.book_id) matches Some(s) && s.checkout_id is Some
                && s.user_id == Some(event.checked_out_by)),
    {
        let checkout_id = CheckoutId::new();
        let r = self.create_with_id(checkout_id, event);
        proof {
            if r is Ok {
                assert(!old(self)@.uses_checkout_id(checkout_id));
            }
            if r == Err::<(), AppError>(AppError::WriteAnomaly) {
                assert(old(self)@.uses_checkout_id(checkout_id));
            }
        }
        r
    }

    /// Returns book `event.book_id`. A missing book is `NotFound`; unless
    /// the book's active checkout is exactly `event.checkout_id`, borrowed
    /// by `event.returned_by`, and was checked out no later than
    /// `event.returned_at`, the return is a `Conflict` and changes nothing. A return that goes ahead moves the checkout from the active
    /// ones to the end of the history, with the time of the return, in one
    /// step.
    pub fn update_returned(&mut self, event: UpdateReturned) -> (r: Result<(), AppError>)
        requires
            old(self).wf(),
        ensures
            final(self).wf(),
            old(self)@.state_of(event.book_id) is None ==> r == Err::<(), AppError>(
                AppError::NotFound,
            ),
            old(self)@.state_of(event.book_id) matches Some(s) && !matches_active(
                s,
                event.checkout_id,
                event.book_id,
                event.returned_by,
            ) ==> r == Err::<(), AppError>(AppError::Conflict),
            old(self)@.state_of(event.book_id) matches Some(s) && matches_active(
                s,
                event.checkout_id,
                event.book_id,
                event.returned_by,
            ) && old(self)@.returns_too_early(event.book_id, event.returned_at) ==> r == Err::<
                (),
                AppError,
            >(AppError::Conflict),
            old(self)@.state_of(event.book_id) matches Some(s) && matches_active(
                s,
                event.checkout_id,
                event.book_id,
                event.returned_by,
            ) && !old(self)@.returns_too_early(event.book_id, event.returned_at) ==> r is Ok,
            r is Err ==> final(self)@ == old(self)@,
            r is Ok ==> final(self)@ == (LendingState {
                active: old(self)@.active.remove(old(self)@.active_position(event.checkout_id)),
                returned: old(self)@.returned.push(
                    returned_record(
                        old(self)@.active[old(self)@.active_position(event.checkout_id)],
                        event.returned_at,
                    ),
                ),
                ..old(self)@
            }),
            r is Ok ==> final(self)@.returned.len() == old(self)@.returned.len() + 1
                && final(self)@.returned.last().checkout_id == event.checkout_id
                && final(self)@.returned.last().book_id == event.book_id
                && final(self)@.returned.last().user_id == event.returned_by
                && final(self)@.returned.last().returned_at == Some(event.returned_at)
                && forall|k: int|
                0 <= k < final(self)@.active.len() ==> (#[trigger] final(self)@.active[k]).checkout_id
                    != event.checkout_id,
    {
        let state = self.checkout_state(event.book_id);
        match check_return_state(state, &event) {
            Err(e) => {
                return Err(e);
            },
            Ok(()) => {},
        }
        let ghost pre = self@;
        let ghost mine = pre.active_of_book(event.book_id);
        proof {
            assert(mine.len() > 0);
            assert(mine.contains(mine[0]));
            pre.active.lemma_filter_contains_rev(of_book(event.book_id), mine[0]);
        }
        let i = match self.find_active(event.checkout_id) {
            Some(i) => i,
            None => {
                proof {
                    let j = choose|j: int| 0 <= j < pre.active.len() && pre.active[j] == mine[0];
                    assert(pre.active[j].checkout_id == event.checkout_id);
                }
                return Err(AppError::WriteAnomaly);
            },
        };
        let rec = self.active[i];
        proof {
            let p = pre.active_position(event.checkout_id);
            if p < i {
                assert(pre.active[p].checkout_id != pre.active[i as int].checkout_id);
            } else if i < p {
                assert(pre.active[i as int].checkout_id != pre.active[p].checkout_id);
            }
            let j = choose|j: int| 0 <= j < pre.active.len() && pre.active[j] == mine[0];
            if j < i {
                assert(pre.active[j].checkout_id != pre.active[i as int].checkout_id);
            } else if i < j {
                assert(pre.active[i as int].checkout_id != pre.active[j].checkout_id);
            }
            assert(rec == mine[0]);
        }
        match check_return_time(rec.checked_out_at, event.returned_at) {
            Err(e) => {
                return Err(e);
            },
            Ok(()) => {},
        }
        let done = CheckoutRecord {
            checkout_id: rec.checkout_id,
            book_id: rec.book_id,
            user_id: rec.user_id,
            checked_out_at: rec.checked_out_at,
            returned_at: Some(event.returned_at),
        };
        self.returned.push(done);
        let _ = self.active.remove(i);
        proof {
            let post = self@;
            let a = pre.active;
            assert(post.books == pre.books);
            assert(post.active == a.remove(i as int));
            assert(post.returned == pre.returned.push(done));
            assert forall|k: int| 0 <= k < post.active.len() implies #[trigger] post.active[k] == if k
                < i {
                a[k]
            } else {
                a[k + 1]
            } by {}
            assert forall|k1: int, k2: int| 0 <= k1 < k2 < post.active.len() implies (#[trigger] post.active[k1]).book_id
                != (#[trigger] post.active[k2]).book_id && post.active[k1].checkout_id
                != post.active[k2].checkout_id by {
                let m1 = if k1 < i { k1 } else { k1 + 1 };
                let m2 = if k2 < i { k2 } else { k2 + 1 };
                assert(a[m1].book_id != a[m2].book_id);
                assert(a[m1].checkout_id != a[m2].checkout_id);
            }
            assert forall|k: int| 0 <= k < post.active.len() implies (#[trigger] post.active[k]).checkout_id
                != event.checkout_id by {
                let m = if k < i { k } else { k + 1 };
                if m < i {
                    assert(a[m].checkout_id != a[i as int].checkout_id);
                } else {
                    assert(a[i as int].checkout_id != a[m].checkout_id);
                }
            }
            assert forall|k: int| 0 <= k < pre.returned.len() implies (#[trigger] pre.returned[k]).checkout_id
                != done.checkout_id by {
                assert(a[i as int].checkout_id != pre.returned[k].checkout_id);
            }
            assert forall|k1: int, k2: int|
                0 <= k1 < post.active.len() && 0 <= k2 < post.returned.len() implies (#[trigger] post.active[k1]).checkout_id
                != (#[trigger] post.returned[k2]).checkout_id by {
                let m1 = if k1 < i { k1 } else { k1 + 1 };
                if k2 < pre.returned.len() {
                    assert(a[m1].checkout_id != pre.returned[k2].checkout_id);
                } else if m1 < i {
                    assert(a[m1].checkout_id != a[i as int].checkout_id);
                } else {
                    assert(a[i as int].checkout_id != a[m1].checkout_id);
                }
            }
            assert forall|k: int| 0 <= k < post.active.len() implies post.has_book(
                #[trigger] post.active[k].book_id,
            ) by {
                let m = if k < i { k } else { k + 1 };
                assert(pre.has_book(a[m].book_id));
                assert(pre.has_book(post.active[k].book_id));
            }
            assert forall|k: int| 0 <= k < post.returned.len() implies post.has_book(
                #[trigger] post.returned[k].book_id,
            ) by {
                if k < pre.returned.len() {
                    assert(pre.has_book(pre.returned[k].book_id));
                } else {
                    assert(pre.has_book(a[i as int].book_id));
                }
                assert(pre.has_book(post.returned[k].book_id));
            }
            assert(done == returned_record(a[pre.active_position(event.checkout_id)], event.returned_at));
        }
        Ok(())
    }

    /// All active checkouts, oldest first.
    pub fn find_unreturned_all(&self) -> (r: Vec<Checkout>)
        requires
            self.wf(),
        ensures
            r@ == self@.unreturned_all(),
    {
        let sorted = sort_records(&self.active);
        proof {
            lemma_sort_books_known(self@, self@.active);
        }
        self.to_checkouts(&sorted)
    }

    /// The active checkouts of `user_id`, oldest first.
    pub fn find_unreturned_by_user_id(&self, user_id: UserId) -> (r: Vec<Checkout>)
        requires
            self.wf(),
        ensures
            r@ == self@.unreturned_by_user(user_id),
    {
        let sorted = sort_records(&self.active);
        let mine = records_of_user(&sorted, user_id);
        proof {
            lemma_sort_books_known(self@, self@.active);
            lemma_filter_books_known(self@, sorted@, of_user(user_id));
        }
        self.to_checkouts(&mine)
    }

    /// The checkouts of `book_id`: the active one, if any, first, then the
    /// returned ones, oldest first.
    pub fn find_history_by_book_id(&self, book_id: BookId) -> (r: Vec<Checkout>)
        requires
            self.wf(),
        ensures
            r@ == self@.history_of_book(book_id),
    {
        let current = records_of_book(&self.active, book_id);
        proof {
            lemma_filter_books_known(self@, self@.active, of_book(book_id));
        }
        let mut history = self.to_checkouts(&current);
        let past = records_of_book(&self.returned, book_id);
        let sorted = sort_records(&past);
        proof {
            lemma_filter_books_known(self@, self@.returned, of_book(book_id));
            lemma_sort_books_known(self@, past@);
        }
        let mut earlier = self.to_checkouts(&sorted);
        history.append(&mut earlier);
        history
    }

    /// The report of `rec`, joined with its book.
    fn to_checkout(&self, rec: CheckoutRecord) -> (r: Checkout)
        requires
            self.wf(),
            self@.has_book(rec.book_id),
        ensures
            r == self@.checkout_of(rec),
    {
        let i = match self.find_book(rec.book_id) {
            Some(i) => i,
            None => {
                proof {
                    assert(false);
                }
                0
            },
        };
        let b = &self.books[i];
        proof {
            let j = choose|j: int|
                0 <= j < self@.books.len() && (#[trigger] self@.books[j]).book_id == rec.book_id;
            if j < i {
                assert(self@.books[j].book_id != self@.books[i as int].book_id);
            } else if i < j {
                assert(self@.books[i as int].book_id != self@.books[j].book_id);
            }
        }
        Checkout {
            id: rec.checkout_id,
            checked_out_by: rec.user_id,
            checked_out_at: rec.checked_out_at,
            returned_at: rec.returned_at,
            book: CheckoutBook {
                id: b.book_id,
                title: b.title.clone(),
                author: b.author.clone(),
                isbn: b.isbn.clone(),
            },
        }
    }

    /// The reports of `records`, in their order.
    fn to_checkouts(&self, records: &Vec<CheckoutRecord>) -> (r: Vec<Checkout>)
        requires
            self.wf(),
            self@.books_known(records@),
        ensures
            r@ == self@.checkouts_of(records@),
    {
        let mut out: Vec<Checkout> = Vec::new();
        let mut i: usize = 0;
        while i < records.len()
            invariant
                self.wf(),
                self@.books_known(records@),
                0 <= i <= records.len(),
                out@.len() == i,
                forall|k: int| 0 <= k < i ==> out@[k] == self@.checkout_of(#[trigger] records@[k]),
            decreases records.len() - i,
        {
            let c = self.to_checkout(records[i]);
            out.push(c);
            i = i + 1;
        }
        assert(out@ =~= self@.checkouts_of(records@));
        out
    }
}

} // verus!
