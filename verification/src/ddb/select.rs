//! Facts about selecting rows from a table in table order.

use crate::ddb::schema::{photos_in_order, users_in_order};
use crate::domain::photo::PhotoView;
use crate::domain::user::UserView;
use vstd::prelude::*;

verus! {

/// Selecting from the first `i + 1` rows is selecting from the first `i`
/// rows and then looking at row `i`.
pub proof fn lemma_filter_step<A>(s: Seq<A>, pred: spec_fn(A) -> bool, i: int)
    requires
        0 <= i < s.len(),
    ensures
        s.take(i + 1).filter(pred) == if pred(s[i]) {
            s.take(i).filter(pred).push(s[i])
        } else {
            s.take(i).filter(pred)
        },
{
    reveal(Seq::filter);
    assert(s.take(i + 1).drop_last() =~= s.take(i));
}

/// A row is selected exactly if it is in the table and the predicate holds
/// of it.
pub proof fn lemma_filter_contains<A>(s: Seq<A>, pred: spec_fn(A) -> bool, x: A)
    ensures
        s.filter(pred).contains(x) <==> s.contains(x) && pred(x),
{
    if s.filter(pred).contains(x) {
        let i = choose|i: int| 0 <= i < s.filter(pred).len() && s.filter(pred)[i] == x;
        s.lemma_filter_pred(pred, i);
        s.lemma_filter_contains_rev(pred, x);
    }
    if s.contains(x) && pred(x) {
        let i = choose|i: int| 0 <= i < s.len() && s[i] == x;
        s.lemma_filter_contains(pred, i);
    }
}

/// What holds of every two rows in table order still holds of every two
/// selected rows.
pub proof fn lemma_filter_keeps_order<A>(
    s: Seq<A>,
    pred: spec_fn(A) -> bool,
    rel: spec_fn(A, A) -> bool,
)
    requires
        forall|i: int, j: int| 0 <= i < j < s.len() ==> rel(s[i], s[j]),
    ensures
        forall|i: int, j: int|
            0 <= i < j < s.filter(pred).len() ==> rel(s.filter(pred)[i], s.filter(pred)[j]),
    decreases s.len(),
{
    reveal(Seq::filter);
    if s.len() > 0 {
        let rest = s.drop_last();
        assert forall|i: int, j: int| 0 <= i < j < rest.len() implies rel(rest[i], rest[j]) by {
            assert(rest[i] == s[i] && rest[j] == s[j]);
        }
        lemma_filter_keeps_order(rest, pred, rel);
        let kept = rest.filter(pred);
        if pred(s.last()) {
            assert forall|i: int, j: int| 0 <= i < j < s.filter(pred).len() implies rel(
                s.filter(pred)[i],
                s.filter(pred)[j],
            ) by {
                if j == kept.len() {
                    lemma_filter_contains(rest, pred, kept[i]);
                    assert(kept.contains(kept[i]));
                    let k = choose|k: int| 0 <= k < rest.len() && rest[k] == kept[i];
                    assert(rel(s[k], s[s.len() - 1]));
                }
            }
        }
    }
}

/// Selecting twice, when the second predicate implies the first, is
/// selecting by the second predicate alone.
pub proof fn lemma_filter_twice<A>(s: Seq<A>, outer: spec_fn(A) -> bool, inner: spec_fn(A) -> bool)
    requires
        forall|x: A| #[trigger] inner(x) ==> outer(x),
    ensures
        s.filter(outer).filter(inner) == s.filter(inner),
    decreases s.len(),
{
    reveal(Seq::filter);
    if s.len() > 0 {
        let rest = s.drop_last();
        lemma_filter_twice(rest, outer, inner);
        if outer(s.last()) {
            let kept = rest.filter(outer);
            assert(kept.push(s.last()).drop_last() =~= kept);
        }
    }
}

/// Selecting by a predicate that holds of every row selects every row.
pub proof fn lemma_filter_all<A>(s: Seq<A>, pred: spec_fn(A) -> bool)
    requires
        forall|i: int| 0 <= i < s.len() ==> pred(#[trigger] s[i]),
    ensures
        s.filter(pred) == s,
    decreases s.len(),
{
    reveal(Seq::filter);
    if s.len() > 0 {
        let rest = s.drop_last();
        assert forall|i: int| 0 <= i < rest.len() implies pred(#[trigger] rest[i]) by {
            assert(rest[i] == s[i]);
        }
        lemma_filter_all(rest, pred);
        assert(pred(s[s.len() - 1]));
        assert(rest.push(s.last()) =~= s);
    }
}

/// A selection of users that are in order is in order.
pub proof fn lemma_selected_users_in_order(users: Seq<UserView>, pred: spec_fn(UserView) -> bool)
    requires
        users_in_order(users),
    ensures
        users_in_order(users.filter(pred)),
{
    lemma_filter_keeps_order(
        users,
        pred,
        |a: UserView, b: UserView| a.created_at.micros >= b.created_at.micros,
    );
}

/// A selection of photos that are in order is in order.
pub proof fn lemma_selected_photos_in_order(
    photos: Seq<PhotoView>,
    pred: spec_fn(PhotoView) -> bool,
)
    requires
        photos_in_order(photos),
    ensures
        photos_in_order(photos.filter(pred)),
{
    lemma_filter_keeps_order(
        photos,
        pred,
        |a: PhotoView, b: PhotoView| a.created_at.micros >= b.created_at.micros,
    );
}

} // verus!
