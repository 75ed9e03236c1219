//! Checkout records in order of their checkout time, oldest first. Records
//! checked out at the same time keep the order they had.

use vstd::prelude::*;

use crate::checkout::CheckoutRecord;

verus! {

broadcast use vstd::seq_lib::group_to_multiset_ensures;

/// Whether the records run from the oldest checkout to the newest.
pub open spec fn is_time_ordered(s: Seq<CheckoutRecord>) -> bool {
    forall|i: int, j: int|
        0 <= i < j < s.len() ==> #[trigger] s[i].checked_out_at <= #[trigger] s[j].checked_out_at
}

/// `x` placed into `s` after every record of `s` from the back that was not
/// checked out later than `x`.
pub open spec fn insert_by_time(s: Seq<CheckoutRecord>, x: CheckoutRecord) -> Seq<CheckoutRecord>
    decreases s.len(),
{
    if s.len() == 0 {
        seq![x]
    } else if s.last().checked_out_at <= x.checked_out_at {
        s.push(x)
    } else {
        insert_by_time(s.drop_last(), x).push(s.last())
    }
}

/// The records of `s` in order of checkout time; ties keep their order.
pub open spec fn sort_by_time(s: Seq<CheckoutRecord>) -> Seq<CheckoutRecord>
    decreases s.len(),
{
    if s.len() == 0 {
        s
    } else {
        insert_by_time(sort_by_time(s.drop_last()), s.last())
    }
}

proof fn lemma_insert_by_time(s: Seq<CheckoutRecord>, x: CheckoutRecord)
    requires
        is_time_ordered(s),
    ensures
        is_time_ordered(insert_by_time(s, x)),
        insert_by_time(s, x).to_multiset() == s.to_multiset().insert(x),
        insert_by_time(s, x).len() == s.len() + 1,
        forall|i: int|
            0 <= i < insert_by_time(s, x).len() ==> #[trigger] insert_by_time(s, x)[i].checked_out_at
                <= if s.len() > 0 && s.last().checked_out_at > x.checked_out_at {
                s.last().checked_out_at
            } else {
                x.checked_out_at
            },
    decreases s.len(),
{
    if s.len() == 0 {
        assert(seq![x] =~= Seq::<CheckoutRecord>::empty().push(x));
    } else if s.last().checked_out_at <= x.checked_out_at {
    } else {
        let d = s.drop_last();
        assert(is_time_ordered(d));
        lemma_insert_by_time(d, x);
        assert(s =~= d.push(s.last()));
    }
}

/// Ordering records by checkout time puts the oldest first and keeps
/// exactly the records it was given.
pub proof fn lemma_sort_by_time(s: Seq<CheckoutRecord>)
    ensures
        is_time_ordered(sort_by_time(s)),
        sort_by_time(s).to_multiset() == s.to_multiset(),
        sort_by_time(s).len() == s.len(),
    decreases s.len(),
{
    if s.len() > 0 {
        let d = s.drop_last();
        lemma_sort_by_time(d);
        lemma_insert_by_time(sort_by_time(d), s.last());
        assert(s =~= d.push(s.last()));
    }
}

/// Whether a record was checked out at time `t`.
pub open spec fn checked_out_at_time(t: i64) -> spec_fn(CheckoutRecord) -> bool {
    |r: CheckoutRecord| r.checked_out_at == t
}

proof fn lemma_filter_push(s: Seq<CheckoutRecord>, x: CheckoutRecord, p: spec_fn(CheckoutRecord) -> bool)
    ensures
        s.push(x).filter(p) == if p(x) {
            s.filter(p).push(x)
        } else {
            s.filter(p)
        },
{
    reveal(Seq::filter);
    assert(s.push(x).drop_last() =~= s);
}

proof fn lemma_insert_by_time_stable(s: Seq<CheckoutRecord>, x: CheckoutRecord, t: i64)
    ensures
        insert_by_time(s, x).filter(checked_out_at_time(t)) == if x.checked_out_at == t {
            s.filter(checked_out_at_time(t)).push(x)
        } else {
            s.filter(checked_out_at_time(t))
        },
    decreases s.len(),
{
    let p = checked_out_at_time(t);
    if s.len() == 0 {
        assert(seq![x] =~= s.push(x));
        lemma_filter_push(s, x, p);
    } else if s.last().checked_out_at <= x.checked_out_at {
        lemma_filter_push(s, x, p);
    } else {
        let d = s.drop_last();
        lemma_insert_by_time_stable(d, x, t);
        lemma_filter_push(insert_by_time(d, x), s.last(), p);
        lemma_filter_push(d, s.last(), p);
        assert(s =~= d.push(s.last()));
        if x.checked_out_at == t {
            lemma_filter_push(d, x, p);
        }
    }
}

/// Ordering by checkout time is stable: the records checked out at any one
/// time come out in the order they went in.
pub proof fn lemma_sort_by_time_stable(s: Seq<CheckoutRecord>, t: i64)
    ensures
        sort_by_time(s).filter(checked_out_at_time(t)) == s.filter(checked_out_at_time(t)),
    decreases s.len(),
{
    if s.len() > 0 {
        let d = s.drop_last();
        lemma_sort_by_time_stable(d, t);
        lemma_insert_by_time_stable(sort_by_time(d), s.last(), t);
        assert(s =~= d.push(s.last()));
        lemma_filter_push(d, s.last(), checked_out_at_time(t));
    }
}

/// Places `x` into `v` as `insert_by_time` says.
fn insert_in_time_order(v: &mut Vec<CheckoutRecord>, x: CheckoutRecord)
    ensures
        final(v)@ == insert_by_time(old(v)@, x),
{
    let len = v.len();
    let mut p: usize = len;
    assert(v@.subrange(0, len as int) =~= v@);
    assert(v@.subrange(len as int, len as int) =~= Seq::<CheckoutRecord>::empty());
    while p > 0 && v[p - 1].checked_out_at > x.checked_out_at
        invariant
            len == v.len(),
            0 <= p <= len,
            insert_by_time(v@, x) == insert_by_time(v@.subrange(0, p as int), x) + v@.subrange(
                p as int,
                len as int,
            ),
        decreases p,
    {
        let ghost pre = v@.subrange(0, p as int);
        assert(pre.drop_last() =~= v@.subrange(0, p - 1));
        assert(insert_by_time(v@.subrange(0, p - 1), x).push(v@[p - 1]) + v@.subrange(
            p as int,
            len as int,
        ) =~= insert_by_time(v@.subrange(0, p - 1), x) + v@.subrange(p - 1, len as int));
        p = p - 1;
    }
    proof {
        let pre = v@.subrange(0, p as int);
        if p == 0 {
            assert(pre =~= Seq::<CheckoutRecord>::empty());
        }
        assert(insert_by_time(pre, x) =~= pre.push(x));
        assert(pre.push(x) + v@.subrange(p as int, len as int) =~= v@.insert(p as int, x));
    }
    v.insert(p, x);
}

/// The records in order of checkout time, oldest first; records checked
/// out at the same time keep their order.
pub fn sort_records(records: &Vec<CheckoutRecord>) -> (r: Vec<CheckoutRecord>)
    ensures
        r@ == sort_by_time(records@),
{
    let mut out: Vec<CheckoutRecord> = Vec::new();
    let mut i: usize = 0;
    while i < records.len()
        invariant
            0 <= i <= records.len(),
            out@ == sort_by_time(records@.subrange(0, i as int)),
        decreases records.len() - i,
    {
        let ghost next = records@.subrange(0, i + 1);
        assert(next.drop_last() =~= records@.subrange(0, i as int));
        insert_in_time_order(&mut out, records[i]);
        i = i + 1;
    }
    assert(records@.subrange(0, records.len() as int) =~= records@);
    out
}

} // verus!
