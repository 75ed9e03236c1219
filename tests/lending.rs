use rusty_book_manager::book::BookRow;
use rusty_book_manager::checkout::{
    active_then_returned, check_checkout_state, check_return_state, check_return_time,
    check_rows_affected, Checkout, CheckoutBook, CheckoutStateRow, CreateCheckout,
    UpdateReturned,
};
use rusty_book_manager::error::AppError;
use rusty_book_manager::id::{BookId, CheckoutId, UserId};
use rusty_book_manager::store::LendingStore;

fn book(id: u128, title: &str) -> BookRow {
    BookRow {
        book_id: BookId(id),
        title: title.to_string(),
        author: format!("{} author", title),
        isbn: format!("isbn-{}", id),
        description: String::new(),
        owned_by: UserId(900),
        owner_name: "Owner".to_string(),
    }
}

const B: BookId = BookId(1);
const USER_X: UserId = UserId(10);
const USER_Y: UserId = UserId(11);
const USER_Z: UserId = UserId(12);

fn store_with_book() -> LendingStore {
    let mut store = LendingStore::new();
    store.add_book(book(1, "Rust")).unwrap();
    store
}

/// Book B checked out by user X at time 100, under checkout id 500.
fn scenario_a() -> LendingStore {
    let mut store = store_with_book();
    assert_eq!(store.create_with_id(CheckoutId(500), CreateCheckout::new(B, USER_X, 100)), Ok(()));
    store
}

#[test]
fn scenario_a_second_checkout_conflicts() {
    let mut store = scenario_a();
    assert_eq!(
        store.create(CreateCheckout::new(B, USER_Y, 200)),
        Err(AppError::Conflict)
    );
    let active = store.find_unreturned_all();
    assert_eq!(active.len(), 1);
    assert_eq!(active[0].checked_out_by, USER_X);
    assert_eq!(active[0].id, CheckoutId(500));
}

#[test]
fn scenario_a_with_drawn_id() {
    let mut store = store_with_book();
    assert_eq!(store.create(CreateCheckout::new(B, USER_X, 100)), Ok(()));
    assert_eq!(
        store.create(CreateCheckout::new(B, USER_Y, 200)),
        Err(AppError::Conflict)
    );
    let active = store.find_unreturned_all();
    assert_eq!(active.len(), 1);
    assert_eq!(active[0].checked_out_by, USER_X);
    assert_eq!(active[0].checked_out_at, 100);
    assert_eq!(active[0].returned_at, None);
}

#[test]
fn scenario_b_wrong_checkout_id_conflicts() {
    let mut store = scenario_a();
    let wrong = UpdateReturned::new(CheckoutId(501), B, USER_X, 300);
    assert_eq!(store.update_returned(wrong), Err(AppError::Conflict));
    let active = store.find_unreturned_all();
    assert_eq!(active.len(), 1);
    assert_eq!(active[0].id, CheckoutId(500));
    assert_eq!(active[0].checked_out_by, USER_X);
    let history = store.find_history_by_book_id(B);
    assert_eq!(history.len(), 1);
    assert_eq!(history[0].returned_at, None);
}

#[test]
fn return_by_other_borrower_conflicts() {
    let mut store = scenario_a();
    let wrong = UpdateReturned::new(CheckoutId(500), B, USER_Y, 300);
    assert_eq!(store.update_returned(wrong), Err(AppError::Conflict));
    assert_eq!(store.find_unreturned_all().len(), 1);
}

#[test]
fn return_without_active_checkout_conflicts() {
    let mut store = store_with_book();
    let ret = UpdateReturned::new(CheckoutId(500), B, USER_X, 300);
    assert_eq!(store.update_returned(ret), Err(AppError::Conflict));
    assert!(store.find_history_by_book_id(B).is_empty());
}

#[test]
fn scenario_c_return_moves_checkout_to_history() {
    let mut store = scenario_a();
    let ret = UpdateReturned::new(CheckoutId(500), B, USER_X, 300);
    assert_eq!(store.update_returned(ret), Ok(()));
    let history = store.find_history_by_book_id(B);
    assert_eq!(history.len(), 1);
    assert_eq!(history[0].id, CheckoutId(500));
    assert_eq!(history[0].checked_out_by, USER_X);
    assert_eq!(history[0].checked_out_at, 100);
    assert_eq!(history[0].returned_at, Some(300));
    assert_eq!(history[0].book.title, "Rust");
    assert!(store.find_unreturned_all().iter().all(|c| c.book.id != B));
}

#[test]
fn returning_twice_conflicts() {
    let mut store = scenario_a();
    let ret = UpdateReturned::new(CheckoutId(500), B, USER_X, 300);
    assert_eq!(store.update_returned(ret), Ok(()));
    assert_eq!(store.update_returned(ret), Err(AppError::Conflict));
    assert_eq!(store.find_history_by_book_id(B).len(), 1);
}

#[test]
fn scenario_d_book_is_available_again() {
    let mut store = scenario_a();
    let ret = UpdateReturned::new(CheckoutId(500), B, USER_X, 300);
    assert_eq!(store.update_returned(ret), Ok(()));
    assert_eq!(store.create_with_id(CheckoutId(502), CreateCheckout::new(B, USER_Z, 400)), Ok(()));
    let active = store.find_unreturned_all();
    assert_eq!(active.len(), 1);
    assert_eq!(active[0].checked_out_by, USER_Z);
}

#[test]
fn many_checkouts_of_one_book_only_one_succeeds() {
    let mut store = store_with_book();
    let mut succeeded = 0;
    let mut conflicts = 0;
    for n in 0..10u128 {
        match store.create_with_id(CheckoutId(1000 + n), CreateCheckout::new(B, UserId(n), n as i64)) {
            Ok(()) => succeeded += 1,
            Err(AppError::Conflict) => conflicts += 1,
            Err(e) => panic!("unexpected {:?}", e),
        }
    }
    assert_eq!(succeeded, 1);
    assert_eq!(conflicts, 9);
    assert_eq!(store.find_unreturned_all().len(), 1);
}

#[test]
fn checkout_of_missing_book_is_not_found() {
    let mut store = store_with_book();
    assert_eq!(
        store.create(CreateCheckout::new(BookId(2), USER_X, 1)),
        Err(AppError::NotFound)
    );
    let ret = UpdateReturned::new(CheckoutId(500), BookId(2), USER_X, 2);
    assert_eq!(store.update_returned(ret), Err(AppError::NotFound));
}

#[test]
fn reused_checkout_id_is_a_write_anomaly() {
    let mut store = scenario_a();
    store.add_book(book(2, "Go")).unwrap();
    assert_eq!(
        store.create_with_id(CheckoutId(500), CreateCheckout::new(BookId(2), USER_Y, 5)),
        Err(AppError::WriteAnomaly)
    );
    assert_eq!(store.find_unreturned_all().len(), 1);
}

#[test]
fn adding_a_book_twice_conflicts() {
    let mut store = store_with_book();
    assert_eq!(store.add_book(book(1, "Again")), Err(AppError::Conflict));
}

#[test]
fn history_puts_active_checkout_first_then_oldest_returned() {
    let mut store = store_with_book();
    // returned in this order: checked out at 50, then 10, then 30
    let rounds: [(u128, i64, i64); 3] = [(1, 50, 60), (2, 10, 70), (3, 30, 80)];
    for (id, out_at, back_at) in rounds {
        store.create_with_id(CheckoutId(id), CreateCheckout::new(B, USER_X, out_at)).unwrap();
        store.update_returned(UpdateReturned::new(CheckoutId(id), B, USER_X, back_at)).unwrap();
    }
    // the active checkout is older than all of them, and still comes first
    store.create_with_id(CheckoutId(4), CreateCheckout::new(B, USER_Y, 5)).unwrap();
    let history = store.find_history_by_book_id(B);
    let ids: Vec<u128> = history.iter().map(|c| c.id.0).collect();
    assert_eq!(ids, vec![4, 2, 3, 1]);
    assert_eq!(history[0].returned_at, None);
    let times: Vec<i64> = history.iter().map(|c| c.checked_out_at).collect();
    assert_eq!(times, vec![5, 10, 30, 50]);
}

#[test]
fn history_keeps_return_order_for_equal_times() {
    let mut store = store_with_book();
    for id in [7u128, 3, 5] {
        store.create_with_id(CheckoutId(id), CreateCheckout::new(B, USER_X, 42)).unwrap();
        store.update_returned(UpdateReturned::new(CheckoutId(id), B, USER_X, 43)).unwrap();
    }
    let ids: Vec<u128> = store.find_history_by_book_id(B).iter().map(|c| c.id.0).collect();
    assert_eq!(ids, vec![7, 3, 5]);
}

#[test]
fn unreturned_lists_are_oldest_first_and_filtered_by_user() {
    let mut store = LendingStore::new();
    for n in 1..=4u128 {
        store.add_book(book(n, "Title")).unwrap();
    }
    store.create_with_id(CheckoutId(11), CreateCheckout::new(BookId(1), USER_X, 40)).unwrap();
    store.create_with_id(CheckoutId(12), CreateCheckout::new(BookId(2), USER_Y, 10)).unwrap();
    store.create_with_id(CheckoutId(13), CreateCheckout::new(BookId(3), USER_X, 20)).unwrap();
    store.create_with_id(CheckoutId(14), CreateCheckout::new(BookId(4), USER_Y, 30)).unwrap();
    let all: Vec<u128> = store.find_unreturned_all().iter().map(|c| c.id.0).collect();
    assert_eq!(all, vec![12, 13, 14, 11]);
    let of_x: Vec<u128> = store.find_unreturned_by_user_id(USER_X).iter().map(|c| c.id.0).collect();
    assert_eq!(of_x, vec![13, 11]);
    assert!(store.find_unreturned_by_user_id(USER_Z).is_empty());
    let first = &store.find_unreturned_all()[0];
    assert_eq!(first.book.id, BookId(2));
    assert_eq!(first.book.isbn, "isbn-2");
    assert_eq!(first.book.author, "Title author");
}

#[test]
fn repeated_reads_give_the_same_results() {
    let store = scenario_a();
    let ids = |v: Vec<rusty_book_manager::checkout::Checkout>| -> Vec<(u128, i64, Option<i64>)> {
        v.iter().map(|c| (c.id.0, c.checked_out_at, c.returned_at)).collect()
    };
    assert_eq!(ids(store.find_unreturned_all()), ids(store.find_unreturned_all()));
    assert_eq!(ids(store.find_history_by_book_id(B)), ids(store.find_history_by_book_id(B)));
    assert_eq!(store.checkout_state(B), store.checkout_state(B));
}

#[test]
fn checkout_state_joins_book_and_active_checkout() {
    let store = scenario_a();
    assert_eq!(
        store.checkout_state(B),
        Some(CheckoutStateRow {
            book_id: B,
            checkout_id: Some(CheckoutId(500)),
            user_id: Some(USER_X)
        })
    );
    assert_eq!(store.checkout_state(BookId(9)), None);
    let empty = store_with_book();
    assert_eq!(
        empty.checkout_state(B),
        Some(CheckoutStateRow { book_id: B, checkout_id: None, user_id: None })
    );
}

#[test]
fn checkout_decision_from_state_row() {
    assert_eq!(check_checkout_state(None), Err(AppError::NotFound));
    let free = CheckoutStateRow { book_id: B, checkout_id: None, user_id: None };
    assert_eq!(check_checkout_state(Some(free)), Ok(()));
    let taken = CheckoutStateRow {
        book_id: B,
        checkout_id: Some(CheckoutId(1)),
        user_id: Some(USER_X),
    };
    assert_eq!(check_checkout_state(Some(taken)), Err(AppError::Conflict));
}

#[test]
fn return_decision_from_state_row() {
    let ret = UpdateReturned::new(CheckoutId(1), B, USER_X, 9);
    assert_eq!(check_return_state(None, &ret), Err(AppError::NotFound));
    let active = CheckoutStateRow {
        book_id: B,
        checkout_id: Some(CheckoutId(1)),
        user_id: Some(USER_X),
    };
    assert_eq!(check_return_state(Some(active), &ret), Ok(()));
    let other_user = UpdateReturned::new(CheckoutId(1), B, USER_Y, 9);
    assert_eq!(check_return_state(Some(active), &other_user), Err(AppError::Conflict));
    let other_id = UpdateReturned::new(CheckoutId(2), B, USER_X, 9);
    assert_eq!(check_return_state(Some(active), &other_id), Err(AppError::Conflict));
    let free = CheckoutStateRow { book_id: B, checkout_id: None, user_id: None };
    assert_eq!(check_return_state(Some(free), &ret), Err(AppError::Conflict));
}

#[test]
fn zero_rows_affected_is_a_write_anomaly() {
    assert_eq!(check_rows_affected(0), Err(AppError::WriteAnomaly));
    assert_eq!(check_rows_affected(1), Ok(()));
}

#[test]
fn error_status_codes_and_retry() {
    assert_eq!(AppError::NotFound.status_code(), 404);
    assert_eq!(AppError::Conflict.status_code(), 422);
    assert_eq!(AppError::WriteAnomaly.status_code(), 500);
    assert_eq!(AppError::TransactionFailure.status_code(), 500);
    assert_eq!(AppError::StoreUnavailable.status_code(), 500);
    assert_eq!(AppError::ConversionFailure.status_code(), 500);
    assert!(AppError::TransactionFailure.is_retryable());
    assert!(!AppError::Conflict.is_retryable());
}

#[test]
fn return_before_checkout_time_conflicts() {
    let mut store = scenario_a();
    let early = UpdateReturned::new(CheckoutId(500), B, USER_X, 99);
    assert_eq!(store.update_returned(early), Err(AppError::Conflict));
    assert_eq!(store.find_unreturned_all().len(), 1);
    assert!(store.find_history_by_book_id(B)[0].returned_at.is_none());
    let same_time = UpdateReturned::new(CheckoutId(500), B, USER_X, 100);
    assert_eq!(store.update_returned(same_time), Ok(()));
}

#[test]
fn return_time_decision() {
    assert_eq!(check_return_time(100, 99), Err(AppError::Conflict));
    assert_eq!(check_return_time(100, 100), Ok(()));
    assert_eq!(check_return_time(100, 300), Ok(()));
}

fn report(id: u128, returned_at: Option<i64>) -> Checkout {
    Checkout {
        id: CheckoutId(id),
        checked_out_by: USER_X,
        checked_out_at: 1,
        returned_at,
        book: CheckoutBook {
            id: B,
            title: String::new(),
            author: String::new(),
            isbn: String::new(),
        },
    }
}

#[test]
fn history_assembly_puts_active_checkout_first() {
    let past = vec![report(1, Some(5)), report(2, Some(6))];
    let ids: Vec<u128> = active_then_returned(Some(report(3, None)), past)
        .iter()
        .map(|c| c.id.0)
        .collect();
    assert_eq!(ids, vec![3, 1, 2]);
    let only_past: Vec<u128> = active_then_returned(None, vec![report(1, Some(5))])
        .iter()
        .map(|c| c.id.0)
        .collect();
    assert_eq!(only_past, vec![1]);
    assert!(active_then_returned(None, Vec::new()).is_empty());
}

#[test]
fn user_list_is_the_full_list_filtered() {
    let mut store = LendingStore::new();
    for n in 1..=3u128 {
        store.add_book(book(n, "Title")).unwrap();
    }
    store.create_with_id(CheckoutId(21), CreateCheckout::new(BookId(1), USER_Y, 30)).unwrap();
    store.create_with_id(CheckoutId(22), CreateCheckout::new(BookId(2), USER_X, 20)).unwrap();
    store.create_with_id(CheckoutId(23), CreateCheckout::new(BookId(3), USER_X, 10)).unwrap();
    let filtered: Vec<u128> = store
        .find_unreturned_all()
        .iter()
        .filter(|c| c.checked_out_by == USER_X)
        .map(|c| c.id.0)
        .collect();
    let mine: Vec<u128> = store.find_unreturned_by_user_id(USER_X).iter().map(|c| c.id.0).collect();
    assert_eq!(mine, filtered);
    assert_eq!(mine, vec![23, 22]);
}

#[test]
fn checkout_after_success_names_the_borrower() {
    let mut store = store_with_book();
    store.create(CreateCheckout::new(B, USER_Y, 7)).unwrap();
    let state = store.checkout_state(B).unwrap();
    assert!(state.checkout_id.is_some());
    assert_eq!(state.user_id, Some(USER_Y));
}
