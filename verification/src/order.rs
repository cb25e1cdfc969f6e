//! Newest first: a stable sort of dated records by the text of their date.

use crate::text::{
    sorts_at_or_before, text_le, text_le_antisymmetric, text_le_total, text_le_transitive,
};
use vstd::prelude::*;

verus! {

/// A record with a date in text form.
pub trait Dated: Sized {
    /// The record's date.
    spec fn date(&self) -> Seq<char>;

    /// The record's date.
    fn date_text(&self) -> (r: &str)
        ensures
            r@ == self.date(),
    ;
}

/// No record comes after one with an earlier date.
pub open spec fn newest_first<T: Dated>(records: Seq<T>) -> bool {
    forall|i: int, j: int|
        0 <= i <= j < records.len() ==> text_le(
            (#[trigger] records[j]).date(),
            (#[trigger] records[i]).date(),
        )
}

/// Picks the records of one date.
pub open spec fn dated<T: Dated>(date: Seq<char>) -> spec_fn(T) -> bool {
    |record: T| record.date() == date
}

/// The two hold, of every date, the same records in the same order.
pub open spec fn same_by_date<T: Dated>(a: Seq<T>, b: Seq<T>) -> bool {
    forall|date: Seq<char>| #[trigger] a.filter(dated::<T>(date)) == b.filter(dated::<T>(date))
}

/// `sorted` with `record` put in behind the last record that is not older than it.
pub open spec fn insert_newest_first<T: Dated>(sorted: Seq<T>, record: T) -> Seq<T>
    decreases sorted.len(),
{
    if sorted.len() == 0 || text_le(record.date(), sorted.last().date()) {
        sorted.push(record)
    } else {
        insert_newest_first(sorted.drop_last(), record).push(sorted.last())
    }
}

/// The records, newest first; records of the same date keep their order.
pub open spec fn newest_first_of<T: Dated>(records: Seq<T>) -> Seq<T>
    decreases records.len(),
{
    if records.len() == 0 {
        records
    } else {
        insert_newest_first(newest_first_of(records.drop_last()), records.last())
    }
}

/// The first records, `limit` of them at most.
pub open spec fn first_records<T>(records: Seq<T>, limit: int) -> Seq<T> {
    if limit < records.len() {
        records.take(limit)
    } else {
        records
    }
}

/// `sorted` is the stable newest-first order of `records`.
pub open spec fn is_newest_first_order<T: Dated>(sorted: Seq<T>, records: Seq<T>) -> bool {
    newest_first(sorted) && same_by_date(sorted, records)
}

/// The items in the opposite order.
pub fn reversed<T>(items: Vec<T>) -> (r: Vec<T>)
    ensures
        r@ == items@.reverse(),
{
    let mut rest = items;
    let mut r: Vec<T> = Vec::new();
    while rest.len() > 0
        invariant
            rest@.len() + r@.len() == items@.len(),
            rest@ == items@.take(rest@.len() as int),
            r@ == items@.skip(rest@.len() as int).reverse(),
        decreases rest.len(),
    {
        let ghost n = rest@.len() as int;
        match rest.pop() {
            Some(item) => {
                r.push(item);
                assert(items@.skip(n - 1).reverse() =~= items@.skip(n).reverse().push(item));
            },
            None => {},
        }
    }
    assert(items@.skip(0) =~= items@);
    r
}

/// The items that `keep` picks, in order.
pub(crate) fn keep_where<T, F: Fn(&T) -> bool>(
    items: Vec<T>,
    keep: F,
    Ghost(pred): Ghost<spec_fn(T) -> bool>,
) -> (r: Vec<T>)
    requires
        forall|item: &T| keep.requires((item,)),
        forall|item: &T, kept: bool| keep.ensures((item,), kept) ==> kept == pred(*item),
    ensures
        r@ == items@.filter(pred),
{
    let mut rest = items;
    let mut out: Vec<T> = Vec::new();
    proof {
        reveal(Seq::filter);
        assert(items@.skip(items@.len() as int).filter(pred) =~= Seq::<T>::empty());
    }
    while rest.len() > 0
        invariant
            rest@.len() <= items@.len(),
            rest@ == items@.take(rest@.len() as int),
            out@.reverse() == items@.skip(rest@.len() as int).filter(pred),
            forall|item: &T| keep.requires((item,)),
            forall|item: &T, kept: bool| keep.ensures((item,), kept) ==> kept == pred(*item),
        decreases rest.len(),
    {
        let ghost n = rest@.len() as int;
        let ghost out0 = out@;
        match rest.pop() {
            Some(item) => {
                let kept = keep(&item);
                proof {
                    let tail = items@.skip(n - 1);
                    assert(tail.drop_first() =~= items@.skip(n));
                    assert(tail.first() == item);
                    filter_of_first(tail, pred);
                    filter_of_one(item, pred);
                    assert(out0.push(item).reverse() =~= seq![item] + out0.reverse());
                    assert(Seq::<T>::empty() + out0.reverse() =~= out0.reverse());
                }
                if kept {
                    out.push(item);
                }
            },
            None => {},
        }
    }
    assert(items@.skip(0) =~= items@);
    reversed(out)
}

proof fn filter_of_pop<T>(s: Seq<T>, pred: spec_fn(T) -> bool)
    requires
        s.len() > 0,
    ensures
        s.filter(pred) == s.drop_last().filter(pred) + seq![s.last()].filter(pred),
{
    assert(s =~= s.drop_last() + seq![s.last()]);
    Seq::filter_distributes_over_add(s.drop_last(), seq![s.last()], pred);
}

proof fn no_such_date<T: Dated>(s: Seq<T>, date: Seq<char>)
    requires
        forall|i: int| 0 <= i < s.len() ==> (#[trigger] s[i]).date() != date,
    ensures
        s.filter(dated::<T>(date)) == Seq::<T>::empty(),
{
    assert forall|x: T| s.contains(x) implies !dated::<T>(date)(x) by {
        let i = choose|i: int| 0 <= i < s.len() && s[i] == x;
        assert(s[i].date() != date);
    }
    s.lemma_all_neg_filter_empty(dated::<T>(date));
    assert(s.filter(dated::<T>(date)) =~= Seq::<T>::empty());
}

/// Merges two newest-first lists. Where dates are equal, the records of `first` come first.
fn merge<T: Dated>(first: Vec<T>, second: Vec<T>) -> (r: Vec<T>)
    requires
        newest_first(first@),
        newest_first(second@),
    ensures
        newest_first(r@),
        same_by_date(r@, first@ + second@),
{
    let mut a = first;
    let mut b = second;
    let mut out: Vec<T> = Vec::new();
    proof {
        assert(out@.reverse() =~= Seq::<T>::empty());
        assert forall|date: Seq<char>|
            #[trigger] (first@ + second@).filter(dated::<T>(date)) == a@.filter(dated::<T>(date))
                + b@.filter(dated::<T>(date)) + out@.reverse().filter(dated::<T>(date)) by {
            Seq::filter_distributes_over_add(first@, second@, dated::<T>(date));
            no_such_date::<T>(Seq::empty(), date);
            assert(out@.reverse().filter(dated::<T>(date)) =~= Seq::<T>::empty());
        }
    }
    while a.len() > 0 || b.len() > 0
        invariant
            newest_first(a@),
            newest_first(b@),
            newest_first(out@.reverse()),
            forall|i: int, k: int|
                0 <= i < a@.len() && 0 <= k < out@.len() ==> text_le(
                    (#[trigger] out@[k]).date(),
                    (#[trigger] a@[i]).date(),
                ),
            forall|i: int, k: int|
                0 <= i < b@.len() && 0 <= k < out@.len() ==> text_le(
                    (#[trigger] out@[k]).date(),
                    (#[trigger] b@[i]).date(),
                ),
            forall|date: Seq<char>|
                #[trigger] (first@ + second@).filter(dated::<T>(date)) == a@.filter(
                    dated::<T>(date),
                ) + b@.filter(dated::<T>(date)) + out@.reverse().filter(dated::<T>(date)),
        decreases a.len() + b.len(),
    {
        let take_second = if b.len() == 0 {
            false
        } else if a.len() == 0 {
            true
        } else {
            sorts_at_or_before(b[b.len() - 1].date_text(), a[a.len() - 1].date_text())
        };
        let ghost (a0, b0, t0) = (a@, b@, out@.reverse());
        let popped = if take_second {
            b.pop()
        } else {
            a.pop()
        };
        match popped {
            Some(item) => {
                out.push(item);
                proof {
                    let t1 = out@.reverse();
                    assert(t1 =~= seq![item] + t0);
                    if a0.len() > 0 && b0.len() > 0 {
                        text_le_total(a0.last().date(), b0.last().date());
                    }
                    assert forall|i: int| 0 <= i < a0.len() implies text_le(
                        item.date(),
                        (#[trigger] a0[i]).date(),
                    ) by {
                        assert(text_le(a0.last().date(), a0[i].date()));
                        if take_second {
                            text_le_transitive(item.date(), a0.last().date(), a0[i].date());
                        }
                    }
                    assert forall|i: int| 0 <= i < b0.len() implies text_le(
                        item.date(),
                        (#[trigger] b0[i]).date(),
                    ) by {
                        assert(text_le(b0.last().date(), b0[i].date()));
                        if !take_second {
                            text_le_transitive(item.date(), b0.last().date(), b0[i].date());
                        }
                    }
                    assert forall|i: int, j: int| 0 <= i <= j < t1.len() implies text_le(
                        (#[trigger] t1[j]).date(),
                        (#[trigger] t1[i]).date(),
                    ) by {
                        if i > 0 {
                            assert(t1[i] == t0[i - 1]);
                            assert(t1[j] == t0[j - 1]);
                        } else if j > 0 {
                            let k = out@.len() - 1 - j;
                            assert(t1[j] == out@[k]);
                        } else {
                            text_le_total(item.date(), item.date());
                        }
                    }
                    assert forall|date: Seq<char>|
                        #[trigger] (first@ + second@).filter(dated::<T>(date)) == a@.filter(
                            dated::<T>(date),
                        ) + b@.filter(dated::<T>(date)) + t1.filter(dated::<T>(date)) by {
                        let pred = dated::<T>(date);
                        Seq::filter_distributes_over_add(seq![item], t0, pred);
                        let one = seq![item].filter(pred);
                        if take_second {
                            filter_of_pop(b0, pred);
                            assert(b@ =~= b0.drop_last());
                            assert(a0.filter(pred) + (b@.filter(pred) + one) + t0.filter(pred)
                                =~= a@.filter(pred) + b@.filter(pred) + (one + t0.filter(pred)));
                        } else {
                            filter_of_pop(a0, pred);
                            assert(a@ =~= a0.drop_last());
                            if item.date() == date {
                                assert forall|i: int| 0 <= i < b0.len() implies (
                                #[trigger] b0[i]).date() != date by {
                                    assert(text_le(b0.last().date(), b0[i].date()));
                                }
                                no_such_date(b0, date);
                            } else {
                                no_such_date(seq![item], date);
                            }
                            assert((a@.filter(pred) + one) + b0.filter(pred) + t0.filter(pred)
                                =~= a@.filter(pred) + b@.filter(pred) + (one + t0.filter(pred)));
                        }
                    }
                }
            },
            None => {},
        }
    }
    proof {
        assert forall|date: Seq<char>|
            #[trigger] out@.reverse().filter(dated::<T>(date)) == (first@ + second@).filter(
                dated::<T>(date),
            ) by {
            no_such_date(a@, date);
            no_such_date(b@, date);
            let pred = dated::<T>(date);
            assert(a@.filter(pred) + b@.filter(pred) + out@.reverse().filter(pred)
                =~= out@.reverse().filter(pred));
        }
    }
    reversed(out)
}

/// Sorts records newest first. Records of the same date keep their order.
pub fn sort_newest_first<T: Dated>(records: Vec<T>) -> (r: Vec<T>)
    ensures
        r@ == newest_first_of(records@),
        is_newest_first_order(r@, records@),
        forall|i: int, j: int|
            0 <= i <= j < r@.len() ==> text_le(
                (#[trigger] r@[j]).date(),
                (#[trigger] r@[i]).date(),
            ),
        r@.to_multiset() == records@.to_multiset(),
{
    let r = merge_sort(records);
    proof {
        newest_first_of_is_order(records@);
        newest_first_order_is_unique(r@, newest_first_of(records@), records@);
        same_by_date_is_permutation(r@, records@);
    }
    r
}

fn merge_sort<T: Dated>(records: Vec<T>) -> (r: Vec<T>)
    ensures
        is_newest_first_order(r@, records@),
    decreases records.len(),
{
    if records.len() <= 1 {
        proof {
            if records@.len() == 1 {
                text_le_total(records@[0].date(), records@[0].date());
            }
        }
        return records;
    }
    let ghost all = records@;
    let mut front = records;
    let half: usize = front.len() / 2;
    let back = front.split_off(half);
    let ghost (f0, b0) = (front@, back@);
    assert(all =~= f0 + b0);
    let front = merge_sort(front);
    let back = merge_sort(back);
    let r = merge(front, back);
    proof {
        assert forall|date: Seq<char>|
            #[trigger] r@.filter(dated::<T>(date)) == all.filter(dated::<T>(date)) by {
            let pred = dated::<T>(date);
            Seq::filter_distributes_over_add(f0, b0, pred);
            Seq::filter_distributes_over_add(front@, back@, pred);
            assert(front@.filter(pred) == f0.filter(pred));
            assert(back@.filter(pred) == b0.filter(pred));
        }
    }
    r
}

proof fn insertion_is_order<T: Dated>(sorted: Seq<T>, record: T)
    requires
        newest_first(sorted),
    ensures
        newest_first(insert_newest_first(sorted, record)),
        same_by_date(insert_newest_first(sorted, record), sorted.push(record)),
        forall|i: int|
            0 <= i < insert_newest_first(sorted, record).len() ==> (
            #[trigger] insert_newest_first(sorted, record)[i] == record || sorted.contains(
                insert_newest_first(sorted, record)[i],
            )),
    decreases sorted.len(),
{
    let r = insert_newest_first(sorted, record);
    text_le_total(record.date(), record.date());
    if sorted.len() == 0 || text_le(record.date(), sorted.last().date()) {
        assert forall|i: int, j: int| 0 <= i <= j < r.len() implies text_le(
            (#[trigger] r[j]).date(),
            (#[trigger] r[i]).date(),
        ) by {
            if i < j && j == sorted.len() {
                assert(text_le(sorted.last().date(), sorted[i].date()));
                text_le_transitive(record.date(), sorted.last().date(), sorted[i].date());
            }
        }
        assert forall|i: int| 0 <= i < r.len() implies (#[trigger] r[i] == record
            || sorted.contains(r[i])) by {
            if i < sorted.len() {
                assert(r[i] == sorted[i]);
            }
        }
    } else {
        let last = sorted.last();
        let rest = sorted.drop_last();
        let inner = insert_newest_first(rest, record);
        assert(newest_first(rest));
        insertion_is_order(rest, record);
        text_le_total(record.date(), last.date());
        text_le_total(last.date(), last.date());
        assert forall|i: int| 0 <= i < inner.len() implies text_le(
            last.date(),
            (#[trigger] inner[i]).date(),
        ) by {
            if inner[i] != record {
                let k = choose|k: int| 0 <= k < rest.len() && rest[k] == inner[i];
                assert(sorted[k] == inner[i]);
                assert(text_le(sorted[sorted.len() - 1].date(), sorted[k].date()));
            }
        }
        assert forall|date: Seq<char>|
            #[trigger] r.filter(dated::<T>(date)) == sorted.push(record).filter(
                dated::<T>(date),
            ) by {
            let pred = dated::<T>(date);
            assert(inner.filter(pred) == rest.push(record).filter(pred));
            filter_of_pop(r, pred);
            assert(r.drop_last() =~= inner);
            filter_of_pop(rest.push(record), pred);
            assert(rest.push(record).drop_last() =~= rest);
            filter_of_pop(sorted.push(record), pred);
            assert(sorted.push(record).drop_last() =~= sorted);
            filter_of_pop(sorted, pred);
            filter_of_one(last, pred);
            filter_of_one(record, pred);
            assert(r.filter(pred) =~= rest.filter(pred) + seq![record].filter(pred) + seq![
                last,
            ].filter(pred));
            assert(sorted.push(record).filter(pred) =~= rest.filter(pred) + seq![last].filter(pred)
                + seq![record].filter(pred));
        }
        assert forall|i: int| 0 <= i < r.len() implies (#[trigger] r[i] == record
            || sorted.contains(r[i])) by {
            if i < inner.len() {
                assert(r[i] == inner[i]);
                if inner[i] != record {
                    let k = choose|k: int| 0 <= k < rest.len() && rest[k] == inner[i];
                    assert(sorted[k] == inner[i]);
                }
            } else {
                assert(r[i] == sorted[sorted.len() - 1]);
            }
        }
    }
}

/// `newest_first_of` is the stable newest-first order.
pub proof fn newest_first_of_is_order<T: Dated>(records: Seq<T>)
    ensures
        is_newest_first_order(newest_first_of(records), records),
    decreases records.len(),
{
    if records.len() > 0 {
        let rest = records.drop_last();
        let sorted = newest_first_of(rest);
        newest_first_of_is_order(rest);
        insertion_is_order(sorted, records.last());
        assert forall|date: Seq<char>|
            #[trigger] newest_first_of(records).filter(dated::<T>(date)) == records.filter(
                dated::<T>(date),
            ) by {
            let pred = dated::<T>(date);
            assert(newest_first_of(records).filter(pred) == sorted.push(records.last()).filter(
                pred,
            ));
            assert(sorted.filter(pred) == rest.filter(pred));
            filter_of_pop(sorted.push(records.last()), pred);
            assert(sorted.push(records.last()).drop_last() =~= sorted);
            filter_of_pop(records, pred);
        }
    }
}

proof fn filter_of_first<T>(s: Seq<T>, pred: spec_fn(T) -> bool)
    requires
        s.len() > 0,
    ensures
        s.filter(pred) == seq![s.first()].filter(pred) + s.drop_first().filter(pred),
{
    assert(s =~= seq![s.first()] + s.drop_first());
    Seq::filter_distributes_over_add(seq![s.first()], s.drop_first(), pred);
}

proof fn filter_of_one<T>(x: T, pred: spec_fn(T) -> bool)
    ensures
        seq![x].filter(pred) == (if pred(x) {
            seq![x]
        } else {
            Seq::<T>::empty()
        }),
{
    reveal(Seq::filter);
    assert(seq![x].drop_last() =~= Seq::<T>::empty());
    assert(Seq::<T>::empty().filter(pred) =~= Seq::<T>::empty());
    assert(Seq::<T>::empty().push(x) =~= seq![x]);
}

proof fn record_is_among<T: Dated>(a: Seq<T>, b: Seq<T>, i: int) -> (j: int)
    requires
        same_by_date(a, b),
        0 <= i < a.len(),
    ensures
        0 <= j < b.len(),
        b[j] == a[i],
{
    let pred = dated::<T>(a[i].date());
    a.lemma_filter_contains(pred, i);
    assert(a.filter(pred) == b.filter(pred));
    b.lemma_filter_contains_rev(pred, a[i]);
    choose|j: int| 0 <= j < b.len() && b[j] == a[i]
}

/// Grouping by date the same way means holding the same records.
pub proof fn same_by_date_holds_same_records<T: Dated>(a: Seq<T>, b: Seq<T>)
    requires
        same_by_date(a, b),
    ensures
        forall|x: T| a.contains(x) <==> b.contains(x),
{
    assert forall|x: T| a.contains(x) <==> b.contains(x) by {
        if a.contains(x) {
            let i = choose|i: int| 0 <= i < a.len() && a[i] == x;
            let _ = record_is_among(a, b, i);
        }
        if b.contains(x) {
            assert(same_by_date(b, a)) by {
                assert forall|date: Seq<char>|
                    #[trigger] b.filter(dated::<T>(date)) == a.filter(dated::<T>(date)) by {
                    assert(a.filter(dated::<T>(date)) == b.filter(dated::<T>(date)));
                }
            }
            let i = choose|i: int| 0 <= i < b.len() && b[i] == x;
            let _ = record_is_among(b, a, i);
        }
    }
}

/// There is one stable newest-first order of a list, so sorting always gives that one.
pub proof fn newest_first_order_is_unique<T: Dated>(a: Seq<T>, b: Seq<T>, records: Seq<T>)
    requires
        is_newest_first_order(a, records),
        is_newest_first_order(b, records),
    ensures
        a == b,
{
    assert forall|date: Seq<char>|
        #[trigger] a.filter(dated::<T>(date)) == b.filter(dated::<T>(date)) by {
        assert(b.filter(dated::<T>(date)) == records.filter(dated::<T>(date)));
    }
    equal_when_sorted_alike(a, b);
}

proof fn equal_when_sorted_alike<T: Dated>(a: Seq<T>, b: Seq<T>)
    requires
        newest_first(a),
        newest_first(b),
        same_by_date(a, b),
    ensures
        a == b,
    decreases a.len(),
{
    same_by_date_holds_same_records(a, b);
    if a.len() == 0 || b.len() == 0 {
        if a.len() > 0 {
            assert(a.contains(a[0]));
        }
        if b.len() > 0 {
            assert(b.contains(b[0]));
        }
        assert(a =~= b);
    } else {
        assert(a.contains(a[0]) && b.contains(b[0]));
        let i = choose|i: int| 0 <= i < b.len() && b[i] == a[0];
        let j = choose|j: int| 0 <= j < a.len() && a[j] == b[0];
        assert(text_le(b[i].date(), b[0].date()));
        assert(text_le(a[j].date(), a[0].date()));
        text_le_antisymmetric(a[0].date(), b[0].date());
        let date = a[0].date();
        assert(a.filter(dated::<T>(date)) == b.filter(dated::<T>(date)));
        filter_of_first(a, dated::<T>(date));
        filter_of_first(b, dated::<T>(date));
        filter_of_one(a[0], dated::<T>(date));
        filter_of_one(b[0], dated::<T>(date));
        assert(a.filter(dated::<T>(date))[0] == a[0]);
        assert(b.filter(dated::<T>(date))[0] == b[0]);
        let (rest_a, rest_b) = (a.drop_first(), b.drop_first());
        assert forall|other: Seq<char>|
            #[trigger] rest_a.filter(dated::<T>(other)) == rest_b.filter(dated::<T>(other)) by {
            let pred = dated::<T>(other);
            assert(a.filter(pred) == b.filter(pred));
            filter_of_first(a, pred);
            filter_of_first(b, pred);
            let one = seq![a[0]].filter(pred);
            assert(rest_a.filter(pred) =~= a.filter(pred).skip(one.len() as int));
            assert(rest_b.filter(pred) =~= b.filter(pred).skip(one.len() as int));
        }
        assert(newest_first(rest_a)) by {
            assert forall|k: int, l: int| 0 <= k <= l < rest_a.len() implies text_le(
                (#[trigger] rest_a[l]).date(),
                (#[trigger] rest_a[k]).date(),
            ) by {
                assert(rest_a[l] == a[l + 1] && rest_a[k] == a[k + 1]);
            }
        }
        assert(newest_first(rest_b)) by {
            assert forall|k: int, l: int| 0 <= k <= l < rest_b.len() implies text_le(
                (#[trigger] rest_b[l]).date(),
                (#[trigger] rest_b[k]).date(),
            ) by {
                assert(rest_b[l] == b[l + 1] && rest_b[k] == b[k + 1]);
            }
        }
        equal_when_sorted_alike(rest_a, rest_b);
        assert(a =~= seq![a[0]] + rest_a);
        assert(b =~= seq![b[0]] + rest_b);
    }
}

proof fn filter_comes_from<T>(s: Seq<T>, pred: spec_fn(T) -> bool, i: int, j: int) -> (r: (
    int,
    int,
))
    requires
        0 <= i <= j < s.filter(pred).len(),
    ensures
        0 <= r.0 <= r.1 < s.len(),
        s[r.0] == s.filter(pred)[i],
        s[r.1] == s.filter(pred)[j],
    decreases s.len(),
{
    reveal(Seq::filter);
    let rest = s.drop_last();
    let picked = rest.filter(pred);
    if j < picked.len() {
        let (k, l) = filter_comes_from(rest, pred, i, j);
        (k, l)
    } else if i < picked.len() {
        let (k, _) = filter_comes_from(rest, pred, i, i);
        (k, s.len() - 1)
    } else {
        (s.len() - 1, s.len() - 1)
    }
}

proof fn filters_commute<T>(s: Seq<T>, p: spec_fn(T) -> bool, q: spec_fn(T) -> bool)
    ensures
        s.filter(p).filter(q) == s.filter(q).filter(p),
    decreases s.len(),
{
    if s.len() == 0 {
        reveal(Seq::filter);
        assert(s.filter(p).filter(q) =~= s.filter(q).filter(p));
    } else {
        let rest = s.drop_last();
        let x = s.last();
        filters_commute(rest, p, q);
        filter_of_pop(s, p);
        filter_of_pop(s, q);
        filter_of_one(x, p);
        filter_of_one(x, q);
        Seq::filter_distributes_over_add(rest.filter(p), seq![x].filter(p), q);
        Seq::filter_distributes_over_add(rest.filter(q), seq![x].filter(q), p);
        reveal(Seq::filter);
        assert(Seq::<T>::empty().filter(p) =~= Seq::<T>::empty());
        assert(Seq::<T>::empty().filter(q) =~= Seq::<T>::empty());
    }
}

/// Picking from the sorted records gives what sorting the picked records gives.
pub proof fn picking_and_sorting_commute<T: Dated>(records: Seq<T>, pick: spec_fn(T) -> bool)
    ensures
        newest_first_of(records).filter(pick) == newest_first_of(records.filter(pick)),
{
    let sorted = newest_first_of(records);
    let picked = sorted.filter(pick);
    newest_first_of_is_order(records);
    newest_first_of_is_order(records.filter(pick));
    assert(newest_first(picked)) by {
        assert forall|i: int, j: int| 0 <= i <= j < picked.len() implies text_le(
            (#[trigger] picked[j]).date(),
            (#[trigger] picked[i]).date(),
        ) by {
            let (k, l) = filter_comes_from(sorted, pick, i, j);
            assert(text_le(sorted[l].date(), sorted[k].date()));
        }
    }
    assert forall|date: Seq<char>|
        #[trigger] picked.filter(dated::<T>(date)) == records.filter(pick).filter(
            dated::<T>(date),
        ) by {
        filters_commute(sorted, pick, dated::<T>(date));
        filters_commute(records, pick, dated::<T>(date));
        assert(sorted.filter(dated::<T>(date)) == records.filter(dated::<T>(date)));
    }
    newest_first_order_is_unique(
        picked,
        newest_first_of(records.filter(pick)),
        records.filter(pick),
    );
}

/// Where in `b` the last record of `date` stands.
proof fn last_of_date<T: Dated>(b: Seq<T>, date: Seq<char>) -> (k: int)
    requires
        b.filter(dated::<T>(date)).len() > 0,
    ensures
        0 <= k < b.len(),
        b[k] == b.filter(dated::<T>(date)).last(),
        b.take(k).filter(dated::<T>(date)) == b.filter(dated::<T>(date)).drop_last(),
        b[k].date() == date,
        b.skip(k + 1).filter(dated::<T>(date)) == Seq::<T>::empty(),
    decreases b.len(),
{
    let pred = dated::<T>(date);
    reveal(Seq::filter);
    let rest = b.drop_last();
    if pred(b.last()) {
        let k = b.len() - 1;
        assert(b.take(k) =~= rest);
        assert(b.filter(pred) =~= rest.filter(pred).push(b.last()));
        assert(b.filter(pred).drop_last() =~= rest.filter(pred));
        assert(b.skip(k + 1) =~= Seq::<T>::empty());
        k
    } else {
        let k = last_of_date(rest, date);
        assert(rest.take(k) =~= b.take(k));
        assert(b.skip(k + 1) =~= rest.skip(k + 1).push(b.last()));
        assert(b.skip(k + 1).drop_last() =~= rest.skip(k + 1));
        k
    }
}

/// Sorting neither loses nor invents nor repeats a record.
pub proof fn same_by_date_is_permutation<T: Dated>(a: Seq<T>, b: Seq<T>)
    requires
        same_by_date(a, b),
    ensures
        a.to_multiset() == b.to_multiset(),
        a.len() == b.len(),
    decreases a.len(),
{
    broadcast use vstd::seq_lib::group_to_multiset_ensures;

    if a.len() == 0 {
        same_by_date_holds_same_records(a, b);
        if b.len() > 0 {
            assert(b.contains(b[0]));
        }
        assert(a =~= b);
    } else {
        let x = a.last();
        let date = x.date();
        let rest = a.drop_last();
        filter_of_pop(a, dated::<T>(date));
        filter_of_one(x, dated::<T>(date));
        assert(a.filter(dated::<T>(date)).last() == x);
        assert(a.filter(dated::<T>(date)) == b.filter(dated::<T>(date)));
        let k = last_of_date(b, date);
        let (front, back) = (b.take(k), b.skip(k + 1));
        assert(b =~= front + seq![x] + back);
        assert forall|other: Seq<char>|
            #[trigger] rest.filter(dated::<T>(other)) == (front + back).filter(
                dated::<T>(other),
            ) by {
            let pred = dated::<T>(other);
            assert(a.filter(pred) == b.filter(pred));
            filter_of_pop(a, pred);
            filter_of_one(x, pred);
            Seq::filter_distributes_over_add(front + seq![x], back, pred);
            Seq::filter_distributes_over_add(front, seq![x], pred);
            Seq::filter_distributes_over_add(front, back, pred);
            if other == date {
                assert(rest.filter(pred) =~= a.filter(pred).drop_last());
                assert(front.filter(pred) + back.filter(pred) =~= front.filter(pred));
            } else {
                assert(rest.filter(pred) =~= a.filter(pred));
                assert(front.filter(pred) + seq![x].filter(pred) =~= front.filter(pred));
            }
        }
        same_by_date_is_permutation(rest, front + back);
        assert(a =~= rest.push(x));
        assert(b =~= (front + back).insert(k, x));
        vstd::seq_lib::lemma_multiset_commutative(front, seq![x]);
        vstd::seq_lib::lemma_multiset_commutative(front + seq![x], back);
        vstd::seq_lib::lemma_multiset_commutative(front, back);
        assert(seq![x] =~= Seq::<T>::empty().push(x));
        assert(b.to_multiset() =~= (front + back).to_multiset().insert(x));
    }
}

/// Sorting puts every record before all that are dated earlier, and neither loses, invents nor
/// repeats one.
pub proof fn sorting_orders_by_date<T: Dated>(records: Seq<T>)
    ensures
        forall|i: int, j: int|
            0 <= i <= j < newest_first_of(records).len() ==> text_le(
                (#[trigger] newest_first_of(records)[j]).date(),
                (#[trigger] newest_first_of(records)[i]).date(),
            ),
        newest_first_of(records).to_multiset() == records.to_multiset(),
        newest_first_of(records).len() == records.len(),
        forall|x: T| newest_first_of(records).contains(x) <==> records.contains(x),
{
    newest_first_of_is_order(records);
    same_by_date_is_permutation(newest_first_of(records), records);
    same_by_date_holds_same_records(newest_first_of(records), records);
}

/// Of two records with the same date, the one that came first stays first.
pub proof fn sorting_keeps_the_order_within_a_date<T: Dated>(records: Seq<T>, date: Seq<char>)
    ensures
        newest_first_of(records).filter(|record: T| record.date() == date) == records.filter(
            |record: T| record.date() == date,
        ),
{
    newest_first_of_is_order(records);
    assert(dated::<T>(date) =~= (|record: T| record.date() == date));
    assert(newest_first_of(records).filter(dated::<T>(date)) == records.filter(dated::<T>(date)));
}

/// A limit cuts at the end: the first records stay, as many as the limit allows.
pub proof fn limit_keeps_the_first_records<T>(records: Seq<T>, limit: int)
    requires
        0 <= limit,
    ensures
        first_records(records, limit).len() == (if limit < records.len() {
            limit
        } else {
            records.len() as int
        }),
        forall|i: int|
            0 <= i < first_records(records, limit).len() ==> #[trigger] first_records(
                records,
                limit,
            )[i] == records[i],
{
}

/// Sorting what is sorted changes nothing.
pub proof fn sorting_twice_is_sorting_once<T: Dated>(records: Seq<T>)
    ensures
        newest_first_of(newest_first_of(records)) == newest_first_of(records),
{
    let sorted = newest_first_of(records);
    newest_first_of_is_order(records);
    newest_first_of_is_order(sorted);
    assert(is_newest_first_order(sorted, sorted));
    newest_first_order_is_unique(newest_first_of(sorted), sorted, sorted);
}

} // verus!
