//! Ordered listings: the order in which each kind of record is listed, a
//! sort that establishes it, and what a listing of selected rows is.

use vstd::prelude::*;
use vstd::multiset::Multiset;
use vstd::seq_lib::{to_multiset_build, to_multiset_contains, to_multiset_insert};
use crate::model::{views, lemma_views_insert};

verus! {

/// A kind of record of the store: it can be copied, and it has the order
/// in which its listings stand. `before` is a strict order on views: of
/// two records at most one comes before the other, and a record that
/// comes before neither of two others does not separate them.
pub trait Record: View + Sized {
    /// Whether `a` is listed before `b`.
    spec fn before(a: Self::V, b: Self::V) -> bool;

    proof fn lemma_asymmetric(a: Self::V, b: Self::V)
        ensures
            Self::before(a, b) ==> !Self::before(b, a),
    ;

    proof fn lemma_negatively_transitive(a: Self::V, b: Self::V, c: Self::V)
        ensures
            !Self::before(b, a) && !Self::before(c, b) ==> !Self::before(c, a),
    ;

    /// Whether `self` is listed before `other`.
    fn comes_before(&self, other: &Self) -> (r: bool)
        ensures
            r == Self::before(self@, other@),
    ;

    /// A copy of `self`.
    fn duplicate(&self) -> (r: Self)
        ensures
            r@ == self@,
    ;

    /// Whether `a` and `b` have the same key: the text, or the texts, by
    /// which a row of this kind is found.
    spec fn same_key(a: Self::V, b: Self::V) -> bool;

    /// Whether `self` and `other` have the same key.
    fn has_key_of(&self, other: &Self) -> (r: bool)
        ensures
            r == Self::same_key(self@, other@),
    ;

    /// The number of `a`, where rows of this kind are numbered.
    spec fn number(a: Self::V) -> Option<i64>;

    /// The number of `self`, where rows of this kind are numbered.
    fn row_number(&self) -> (r: Option<i64>)
        ensures
            r == Self::number(self@),
    ;
}

/// Whether no two rows of `rows` have the same key.
pub open spec fn keys_apart<T: Record>(rows: Seq<T::V>) -> bool {
    forall|i: int, j: int|
        0 <= i < j < rows.len() ==> !T::same_key(#[trigger] rows[i], #[trigger] rows[j])
}

/// Whether every row of `rows` has a number from 1 up to, but not
/// including, `next`, and no two rows have the same number.
pub open spec fn numbers_apart<T: Record>(rows: Seq<T::V>, next: i64) -> bool {
    &&& forall|i: int|
        0 <= i < rows.len() ==> T::number(#[trigger] rows[i]) is Some && 1 <= T::number(
            rows[i],
        )->0 < next
    &&& forall|i: int, j: int|
        0 <= i < j < rows.len() ==> T::number(#[trigger] rows[i]) != T::number(
            #[trigger] rows[j],
        )
}

/// Whether no two rows of `rows` have the same key.
pub fn check_keys<T: Record>(rows: &Vec<T>) -> (r: bool)
    ensures
        r == keys_apart::<T>(views(rows@)),
{
    let ghost all = views(rows@);
    let mut j: usize = 0;
    while j < rows.len()
        invariant
            j <= rows@.len(),
            all == views(rows@),
            forall|a: int, b: int| 0 <= a < b < j ==> !T::same_key(all[a], all[b]),
        decreases rows@.len() - j,
    {
        let mut i: usize = 0;
        while i < j
            invariant
                i <= j < rows@.len(),
                all == views(rows@),
                forall|a: int| 0 <= a < i ==> !T::same_key(all[a], all[j as int]),
            decreases j - i,
        {
            if rows[i].has_key_of(&rows[j]) {
                assert(T::same_key(all[i as int], all[j as int]));
                return false;
            }
            i += 1;
        }
        j += 1;
    }
    true
}

/// Whether every row of `rows` has a number from 1 up to, but not
/// including, `next`, and no two rows have the same number.
pub fn check_numbers<T: Record>(rows: &Vec<T>, next: i64) -> (r: bool)
    ensures
        r == numbers_apart::<T>(views(rows@), next),
{
    let ghost all = views(rows@);
    let mut j: usize = 0;
    while j < rows.len()
        invariant
            j <= rows@.len(),
            all == views(rows@),
            forall|a: int|
                0 <= a < j ==> T::number(all[a]) is Some && 1 <= T::number(all[a])->0 < next,
            forall|a: int, b: int| 0 <= a < b < j ==> T::number(all[a]) != T::number(all[b]),
        decreases rows@.len() - j,
    {
        let n = match rows[j].row_number() {
            Some(n) => n,
            None => {
                assert(T::number(all[j as int]) is None);
                return false;
            },
        };
        if n < 1 || n >= next {
            assert(T::number(all[j as int]) == Some(n));
            return false;
        }
        let mut i: usize = 0;
        while i < j
            invariant
                i <= j < rows@.len(),
                all == views(rows@),
                T::number(all[j as int]) == Some(n),
                forall|a: int| 0 <= a < i ==> T::number(all[a]) != Some(n),
            decreases j - i,
        {
            match rows[i].row_number() {
                Some(m) => {
                    if m == n {
                        assert(T::number(all[i as int]) == T::number(all[j as int]));
                        return false;
                    }
                },
                None => {},
            }
            i += 1;
        }
        j += 1;
    }
    true
}

/// Whether no row of `rows` stands after a row that it comes before.
pub open spec fn ordered<T: Record>(rows: Seq<T::V>) -> bool {
    forall|i: int, j: int| 0 <= i < j < rows.len() ==> !T::before(rows[j], rows[i])
}

/// Whether each row of `rows` comes before all the rows after it.
pub open spec fn strictly_ordered<T: Record>(rows: Seq<T::V>) -> bool {
    forall|i: int, j: int| 0 <= i < j < rows.len() ==> T::before(rows[i], rows[j])
}

/// Whether of any two rows at different places one comes before the
/// other.
pub open spec fn comparable<T: Record>(rows: Seq<T::V>) -> bool {
    forall|i: int, j: int|
        0 <= i < rows.len() && 0 <= j < rows.len() && i != j ==> T::before(rows[i], rows[j])
            || T::before(rows[j], rows[i])
}

/// Whether of any two rows that `keep` selects, at different places, one
/// comes before the other.
pub open spec fn comparable_where<T: Record>(rows: Seq<T::V>, keep: spec_fn(T::V) -> bool) -> bool {
    forall|i: int, j: int|
        0 <= i < rows.len() && 0 <= j < rows.len() && i != j && keep(rows[i]) && keep(rows[j])
            ==> T::before(rows[i], rows[j]) || T::before(rows[j], rows[i])
}

/// Whether `listing` lists exactly the rows of `rows` that `keep` selects,
/// each before all that it comes before.
pub open spec fn is_listing<T: Record>(
    listing: Seq<T::V>,
    rows: Seq<T::V>,
    keep: spec_fn(T::V) -> bool,
) -> bool {
    &&& forall|i: int|
        0 <= i < listing.len() ==> keep(#[trigger] listing[i]) && rows.contains(listing[i])
    &&& forall|j: int| 0 <= j < rows.len() && keep(#[trigger] rows[j]) ==> listing.contains(rows[j])
    &&& strictly_ordered::<T>(listing)
}

proof fn lemma_nothing_in_empty<A>(rows: Seq<A>)
    requires
        rows.len() == 0,
    ensures
        rows.to_multiset() == Multiset::<A>::empty(),
{
    assert forall|a: A| rows.to_multiset().count(a) == 0 by {
        to_multiset_contains(rows, a);
    }
    assert(rows.to_multiset() =~= Multiset::<A>::empty());
}

/// The listing of the rows of `rows` that `keep` selects.
pub open spec fn listed<T: Record>(rows: Seq<T::V>, keep: spec_fn(T::V) -> bool) -> Seq<T::V> {
    choose|listing: Seq<T::V>| is_listing::<T>(listing, rows, keep)
}

/// Two strictly ordered arrangements of the same rows are the same
/// arrangement.
pub proof fn lemma_strictly_ordered_unique<T: Record>(a: Seq<T::V>, b: Seq<T::V>)
    requires
        strictly_ordered::<T>(a),
        strictly_ordered::<T>(b),
        forall|x: T::V| a.contains(x) <==> b.contains(x),
    ensures
        a == b,
    decreases a.len(),
{
    if a.len() == 0 {
        if b.len() > 0 {
            assert(b.contains(b[0]));
            assert(a.contains(b[0]));
        }
        assert(a =~= b);
    } else {
        assert(a.contains(a[0]));
        assert(b.contains(a[0]));
        let k = choose|k: int| 0 <= k < b.len() && b[k] == a[0];
        assert(b.contains(b[0]));
        assert(a.contains(b[0]));
        let m = choose|m: int| 0 <= m < a.len() && a[m] == b[0];
        if k > 0 {
            T::lemma_asymmetric(b[0], b[k]);
            if m > 0 {
                T::lemma_asymmetric(a[0], a[m]);
            }
        }
        assert(a[0] == b[0]);
        let at = a.drop_first();
        let bt = b.drop_first();
        assert forall|x: T::V| at.contains(x) <==> bt.contains(x) by {
            if at.contains(x) {
                let i = choose|i: int| 0 <= i < at.len() && at[i] == x;
                assert(a[i + 1] == x);
                T::lemma_asymmetric(a[0], a[i + 1]);
                assert(a.contains(x));
                assert(b.contains(x));
                let j = choose|j: int| 0 <= j < b.len() && b[j] == x;
                assert(j > 0);
                assert(bt[j - 1] == x);
            }
            if bt.contains(x) {
                let i = choose|i: int| 0 <= i < bt.len() && bt[i] == x;
                assert(b[i + 1] == x);
                T::lemma_asymmetric(b[0], b[i + 1]);
                assert(b.contains(x));
                assert(a.contains(x));
                let j = choose|j: int| 0 <= j < a.len() && a[j] == x;
                assert(j > 0);
                assert(at[j - 1] == x);
            }
        }
        assert forall|i: int, j: int| 0 <= i < j < at.len() implies T::before(at[i], at[j]) by {
            assert(at[i] == a[i + 1] && at[j] == a[j + 1]);
        }
        assert forall|i: int, j: int| 0 <= i < j < bt.len() implies T::before(bt[i], bt[j]) by {
            assert(bt[i] == b[i + 1] && bt[j] == b[j + 1]);
        }
        lemma_strictly_ordered_unique::<T>(at, bt);
        assert(a =~= seq![a[0]] + at);
        assert(b =~= seq![b[0]] + bt);
    }
}

/// Rows have one listing at most: a listing of the rows that `keep`
/// selects is the listing of them.
pub proof fn lemma_listing_unique<T: Record>(
    listing: Seq<T::V>,
    rows: Seq<T::V>,
    keep: spec_fn(T::V) -> bool,
)
    requires
        is_listing::<T>(listing, rows, keep),
    ensures
        listing == listed::<T>(rows, keep),
{
    let other = listed::<T>(rows, keep);
    assert(is_listing::<T>(other, rows, keep));
    assert forall|x: T::V| listing.contains(x) <==> other.contains(x) by {
        if listing.contains(x) {
            let i = choose|i: int| 0 <= i < listing.len() && listing[i] == x;
            assert(keep(listing[i]) && rows.contains(listing[i]));
            let j = choose|j: int| 0 <= j < rows.len() && rows[j] == x;
            assert(other.contains(rows[j]));
        }
        if other.contains(x) {
            let i = choose|i: int| 0 <= i < other.len() && other[i] == x;
            assert(keep(other[i]) && rows.contains(other[i]));
            let j = choose|j: int| 0 <= j < rows.len() && rows[j] == x;
            assert(listing.contains(rows[j]));
        }
    }
    lemma_strictly_ordered_unique::<T>(listing, other);
}

/// The order of a kind of record is transitive.
pub proof fn lemma_transitive<T: Record>(a: T::V, b: T::V, c: T::V)
    ensures
        T::before(a, b) && T::before(b, c) ==> T::before(a, c),
{
    T::lemma_asymmetric(b, c);
    T::lemma_negatively_transitive(b, c, a);
}

/// `listing` with `row` before the first of its rows that `row` comes
/// before.
pub open spec fn inserted<T: Record>(listing: Seq<T::V>, row: T::V) -> Seq<T::V>
    decreases listing.len(),
{
    if listing.len() == 0 {
        seq![row]
    } else if T::before(row, listing[0]) {
        seq![row] + listing
    } else {
        seq![listing[0]] + inserted::<T>(listing.drop_first(), row)
    }
}

/// Inserting a row that is comparable with every row of a strictly
/// ordered arrangement gives a strictly ordered arrangement of the same
/// rows and the new one.
pub proof fn lemma_inserted<T: Record>(listing: Seq<T::V>, row: T::V)
    requires
        strictly_ordered::<T>(listing),
        forall|i: int|
            0 <= i < listing.len() ==> T::before(row, #[trigger] listing[i]) || T::before(
                listing[i],
                row,
            ),
    ensures
        strictly_ordered::<T>(inserted::<T>(listing, row)),
        forall|x: T::V|
            #![trigger inserted::<T>(listing, row).contains(x)]
            #![trigger listing.contains(x)]
            inserted::<T>(listing, row).contains(x) <==> (x == row || listing.contains(x)),
        inserted::<T>(listing, row).contains(row),
    decreases listing.len(),
{
    let out = inserted::<T>(listing, row);
    if listing.len() == 0 {
        assert(out[0] == row);
        assert forall|x: T::V| out.contains(x) <==> (x == row || listing.contains(x)) by {
            if out.contains(x) {
                let i = choose|i: int| 0 <= i < out.len() && out[i] == x;
            }
        }
    } else if T::before(row, listing[0]) {
        assert forall|i: int, j: int| 0 <= i < j < out.len() implies T::before(out[i], out[j]) by {
            if i == 0 {
                assert(out[j] == listing[j - 1]);
                if j - 1 > 0 {
                    lemma_transitive::<T>(row, listing[0], listing[j - 1]);
                }
            } else {
                assert(out[i] == listing[i - 1] && out[j] == listing[j - 1]);
            }
        }
        assert forall|x: T::V| out.contains(x) <==> (x == row || listing.contains(x)) by {
            if out.contains(x) {
                let i = choose|i: int| 0 <= i < out.len() && out[i] == x;
                if i > 0 {
                    assert(listing[i - 1] == x);
                }
            }
            if x == row {
                assert(out[0] == x);
            }
            if listing.contains(x) {
                let i = choose|i: int| 0 <= i < listing.len() && listing[i] == x;
                assert(out[i + 1] == x);
            }
        }
    } else {
        let tail = listing.drop_first();
        let rest = inserted::<T>(tail, row);
        assert forall|i: int, j: int| 0 <= i < j < tail.len() implies T::before(
            tail[i],
            tail[j],
        ) by {
            assert(tail[i] == listing[i + 1] && tail[j] == listing[j + 1]);
        }
        assert forall|i: int| 0 <= i < tail.len() implies T::before(row, #[trigger] tail[i])
            || T::before(tail[i], row) by {
            assert(tail[i] == listing[i + 1]);
        }
        lemma_inserted::<T>(tail, row);
        assert(T::before(listing[0], row));
        assert forall|i: int, j: int| 0 <= i < j < out.len() implies T::before(out[i], out[j]) by {
            if i == 0 {
                assert(out[j] == rest[j - 1]);
                assert(rest.contains(rest[j - 1]));
                if rest[j - 1] != row {
                    assert(tail.contains(rest[j - 1]));
                    let k = choose|k: int| 0 <= k < tail.len() && tail[k] == rest[j - 1];
                    assert(listing[k + 1] == rest[j - 1]);
                }
            } else {
                assert(out[i] == rest[i - 1] && out[j] == rest[j - 1]);
            }
        }
        assert forall|x: T::V| out.contains(x) <==> (x == row || listing.contains(x)) by {
            if out.contains(x) {
                let i = choose|i: int| 0 <= i < out.len() && out[i] == x;
                if i > 0 {
                    assert(rest[i - 1] == x);
                    assert(rest.contains(x));
                    if x != row {
                        assert(tail.contains(x));
                        let k = choose|k: int| 0 <= k < tail.len() && tail[k] == x;
                        assert(listing[k + 1] == x);
                    }
                } else {
                    assert(listing[0] == x);
                }
            }
            if x == row {
                assert(rest.contains(row));
                let i = choose|i: int| 0 <= i < rest.len() && rest[i] == row;
                assert(out[i + 1] == x);
            }
            if listing.contains(x) {
                let i = choose|i: int| 0 <= i < listing.len() && listing[i] == x;
                if i == 0 {
                    assert(out[0] == x);
                } else {
                    assert(tail[i - 1] == x);
                    assert(tail.contains(x));
                    assert(rest.contains(x));
                    let k = choose|k: int| 0 <= k < rest.len() && rest[k] == x;
                    assert(out[k + 1] == x);
                }
            }
        }
    }
}

/// Rows of which any two selected ones are comparable have a listing.
pub proof fn lemma_listing_exists<T: Record>(rows: Seq<T::V>, keep: spec_fn(T::V) -> bool)
    requires
        comparable_where::<T>(rows, keep),
    ensures
        is_listing::<T>(listed::<T>(rows, keep), rows, keep),
    decreases rows.len(),
{
    if rows.len() == 0 {
        let none = Seq::<T::V>::empty();
        assert(is_listing::<T>(none, rows, keep));
    } else {
        let rest = rows.drop_last();
        let last = rows.last();
        assert forall|i: int, j: int|
            0 <= i < rest.len() && 0 <= j < rest.len() && i != j && keep(rest[i]) && keep(
                rest[j],
            ) implies T::before(rest[i], rest[j]) || T::before(rest[j], rest[i]) by {
            assert(rest[i] == rows[i] && rest[j] == rows[j]);
        }
        lemma_listing_exists::<T>(rest, keep);
        let head = listed::<T>(rest, keep);
        if keep(last) {
            assert forall|i: int| 0 <= i < head.len() implies T::before(last, #[trigger] head[i])
                || T::before(head[i], last) by {
                assert(rest.contains(head[i]));
                let k = choose|k: int| 0 <= k < rest.len() && rest[k] == head[i];
                assert(rows[k] == head[i] && rows[rows.len() - 1] == last);
            }
            lemma_inserted::<T>(head, last);
            let out = inserted::<T>(head, last);
            assert forall|i: int| 0 <= i < out.len() implies keep(#[trigger] out[i])
                && rows.contains(out[i]) by {
                assert(out.contains(out[i]));
                if out[i] == last {
                    assert(rows[rows.len() - 1] == last);
                } else {
                    assert(head.contains(out[i]));
                    let k = choose|k: int| 0 <= k < head.len() && head[k] == out[i];
                    assert(rest.contains(head[k]));
                    let m = choose|m: int| 0 <= m < rest.len() && rest[m] == head[k];
                    assert(rows[m] == out[i]);
                }
            }
            assert forall|j: int| 0 <= j < rows.len() && keep(#[trigger] rows[j]) implies
                out.contains(rows[j]) by {
                if j < rest.len() {
                    assert(rest[j] == rows[j]);
                    assert(head.contains(rest[j]));
                    assert(out.contains(rest[j]));
                } else {
                    assert(rows[j] == last);
                    assert(out.contains(last));
                }
            }
            assert(is_listing::<T>(out, rows, keep));
        } else {
            assert forall|i: int| 0 <= i < head.len() implies keep(#[trigger] head[i])
                && rows.contains(head[i]) by {
                assert(rest.contains(head[i]));
                let k = choose|k: int| 0 <= k < rest.len() && rest[k] == head[i];
                assert(rows[k] == head[i]);
            }
            assert forall|j: int| 0 <= j < rows.len() && keep(#[trigger] rows[j]) implies
                head.contains(rows[j]) by {
                assert(rest[j] == rows[j]);
            }
            assert(is_listing::<T>(head, rows, keep));
        }
    }
}

/// The rows of `items`, each before all that it does not come after.
pub fn sort<T: Record>(items: Vec<T>) -> (r: Vec<T>)
    ensures
        ordered::<T>(views(r@)),
        views(r@).to_multiset() == views(items@).to_multiset(),
{
    let ghost all = views(items@);
    let mut rest = items;
    let mut out: Vec<T> = Vec::new();
    proof {
        lemma_nothing_in_empty(views(out@));
        assert(views(out@).to_multiset().add(views(rest@).to_multiset()) =~= all.to_multiset());
    }
    while rest.len() > 0
        invariant
            ordered::<T>(views(out@)),
            views(out@).to_multiset().add(views(rest@).to_multiset()) == all.to_multiset(),
        decreases rest@.len(),
    {
        let ghost rest_before = rest@;
        let ghost out_before = out@;
        let x = rest.pop().unwrap();
        proof {
            assert(views(rest_before) =~= views(rest@).push(x@));
            to_multiset_build(views(rest@), x@);
        }
        let mut j: usize = 0;
        while j < out.len() && !x.comes_before(&out[j])
            invariant
                j <= out@.len(),
                forall|k: int| 0 <= k < j ==> !T::before(x@, #[trigger] views(out@)[k]),
            decreases out@.len() - j,
        {
            j += 1;
        }
        out.insert(j, x);
        proof {
            let before = views(out_before);
            let after = views(out@);
            lemma_views_insert(out_before, j as int, x);
            to_multiset_insert(before, j as int, x@);
            assert(after.to_multiset().add(views(rest@).to_multiset()) =~= all.to_multiset());
            assert forall|a: int, b: int| 0 <= a < b < after.len() implies !T::before(
                after[b],
                after[a],
            ) by {
                if a == j {
                    assert(after[b] == before[b - 1]);
                    if b - 1 > j {
                        T::lemma_asymmetric(x@, before[j as int]);
                        T::lemma_negatively_transitive(x@, before[j as int], before[b - 1]);
                    } else {
                        T::lemma_asymmetric(x@, before[j as int]);
                    }
                } else if b == j {
                    assert(after[a] == before[a]);
                } else {
                    let a0 = if a < j { a } else { a - 1 };
                    let b0 = if b < j { b } else { b - 1 };
                    assert(after[a] == before[a0]);
                    assert(after[b] == before[b0]);
                }
            }
        }
    }
    proof {
        lemma_nothing_in_empty(views(rest@));
        assert(views(out@).to_multiset().add(views(rest@).to_multiset()) =~= views(
            out@,
        ).to_multiset());
    }
    out
}

/// A sorted arrangement of rows of which any two are comparable holds
/// the same rows, each strictly before the next.
pub proof fn lemma_sorted_listing<T: Record>(sorted: Seq<T::V>, picked: Seq<T::V>)
    requires
        ordered::<T>(sorted),
        sorted.to_multiset() == picked.to_multiset(),
        comparable::<T>(picked),
    ensures
        strictly_ordered::<T>(sorted),
        forall|x: T::V| sorted.contains(x) <==> picked.contains(x),
{
    assert forall|x: T::V| sorted.contains(x) <==> picked.contains(x) by {
        to_multiset_contains(sorted, x);
        to_multiset_contains(picked, x);
    }
    assert(picked.no_duplicates()) by {
        assert forall|i: int, j: int|
            0 <= i < picked.len() && 0 <= j < picked.len() && i != j implies picked[i]
            != picked[j] by {
            T::lemma_asymmetric(picked[i], picked[j]);
        }
    }
    picked.lemma_multiset_has_no_duplicates();
    assert forall|x: T::V| sorted.to_multiset().contains(x) implies sorted.to_multiset().count(x)
        == 1 by {
        assert(picked.to_multiset().contains(x));
    }
    assert(sorted.to_multiset().len() == picked.to_multiset().len());
    sorted.lemma_multiset_has_no_duplicates_conv();
    assert forall|i: int, j: int| 0 <= i < j < sorted.len() implies T::before(
        sorted[i],
        sorted[j],
    ) by {
        assert(sorted.contains(sorted[i]));
        assert(sorted.contains(sorted[j]));
        assert(picked.contains(sorted[i]));
        assert(picked.contains(sorted[j]));
        let k = choose|k: int| 0 <= k < picked.len() && picked[k] == sorted[i];
        let l = choose|l: int| 0 <= l < picked.len() && picked[l] == sorted[j];
        assert(sorted[i] != sorted[j]);
        assert(k != l);
    }
}

/// The rows of `rows` that `mask` marks, each before all that it comes
/// before. `mask` marks the rows that `keep` selects.
pub(crate) fn listing<T: Record>(
    rows: &Vec<T>,
    mask: &Vec<bool>,
    Ghost(keep): Ghost<spec_fn(T::V) -> bool>,
) -> (r: Vec<T>)
    requires
        mask@.len() == rows@.len(),
        forall|i: int| 0 <= i < rows@.len() ==> mask@[i] == keep(#[trigger] views(rows@)[i]),
        comparable_where::<T>(views(rows@), keep),
    ensures
        is_listing::<T>(views(r@), views(rows@), keep),
        views(r@) == listed::<T>(views(rows@), keep),
{
    let ghost all = views(rows@);
    let mut picked: Vec<T> = Vec::new();
    let ghost mut places: Seq<int> = Seq::empty();
    let mut i: usize = 0;
    while i < rows.len()
        invariant
            i <= rows@.len(),
            mask@.len() == rows@.len(),
            all == views(rows@),
            forall|k: int| 0 <= k < rows@.len() ==> mask@[k] == keep(#[trigger] all[k]),
            places.len() == picked@.len(),
            forall|k: int|
                0 <= k < places.len() ==> 0 <= #[trigger] places[k] < i && keep(all[places[k]])
                    && views(picked@)[k] == all[places[k]],
            forall|k: int, l: int| 0 <= k < l < places.len() ==> places[k] < places[l],
            forall|j: int| 0 <= j < i && keep(#[trigger] all[j]) ==> views(picked@).contains(all[j]),
        decreases rows@.len() - i,
    {
        if mask[i] {
            let ghost before = views(picked@);
            let row = rows[i].duplicate();
            picked.push(row);
            proof {
                places = places.push(i as int);
                assert(views(picked@) =~= before.push(all[i as int]));
                assert forall|j: int| 0 <= j < i + 1 && keep(
                    #[trigger] all[j],
                ) implies views(picked@).contains(all[j]) by {
                    if j < i {
                        assert(before.contains(all[j]));
                        let k = choose|k: int| 0 <= k < before.len() && before[k] == all[j];
                        assert(views(picked@)[k] == all[j]);
                    } else {
                        assert(views(picked@)[picked@.len() - 1] == all[j]);
                    }
                }
            }
        }
        i += 1;
    }
    let ghost chosen = views(picked@);
    proof {
        assert forall|k: int, l: int|
            0 <= k < chosen.len() && 0 <= l < chosen.len() && k != l implies T::before(
            chosen[k],
            chosen[l],
        ) || T::before(chosen[l], chosen[k]) by {
            assert(places[k] != places[l]);
            assert(chosen[k] == all[places[k]]);
            assert(chosen[l] == all[places[l]]);
        }
    }
    let sorted = sort(picked);
    proof {
        lemma_sorted_listing::<T>(views(sorted@), chosen);
        assert forall|k: int| 0 <= k < sorted@.len() implies keep(#[trigger] views(sorted@)[k])
            && all.contains(views(sorted@)[k]) by {
            let x = views(sorted@)[k];
            assert(views(sorted@).contains(x));
            assert(chosen.contains(x));
            let l = choose|l: int| 0 <= l < chosen.len() && chosen[l] == x;
            assert(x == all[places[l]]);
        }
        lemma_listing_unique::<T>(views(sorted@), all, keep);
    }
    sorted
}

/// The rows of `rows` that `mask` marks, in order. `mask` marks the rows
/// that `keep` selects.
pub(crate) fn retain<T: Record>(
    rows: &Vec<T>,
    mask: &Vec<bool>,
    Ghost(keep): Ghost<spec_fn(T::V) -> bool>,
) -> (r: Vec<T>)
    requires
        mask@.len() == rows@.len(),
        forall|i: int| 0 <= i < rows@.len() ==> mask@[i] == keep(#[trigger] views(rows@)[i]),
    ensures
        views(r@) == views(rows@).filter(keep),
{
    let ghost all = views(rows@);
    let mut out: Vec<T> = Vec::new();
    let mut i: usize = 0;
    proof {
        all.take(0).lemma_filter_len(keep);
        assert(views(out@) =~= all.take(0).filter(keep));
    }
    while i < rows.len()
        invariant
            i <= rows@.len(),
            mask@.len() == rows@.len(),
            all == views(rows@),
            forall|k: int| 0 <= k < rows@.len() ==> mask@[k] == keep(#[trigger] all[k]),
            views(out@) == all.take(i as int).filter(keep),
        decreases rows@.len() - i,
    {
        proof {
            assert(all.take(i + 1) =~= all.take(i as int).push(all[i as int]));
            all.take(i as int).lemma_filter_push(all[i as int], keep);
        }
        if mask[i] {
            let ghost before = views(out@);
            out.push(rows[i].duplicate());
            assert(views(out@) =~= before.push(all[i as int]));
        }
        i += 1;
    }
    assert(all.take(rows@.len() as int) =~= all);
    out
}

} // verus!
