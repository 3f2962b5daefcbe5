//! Why the statements of the store keep the schema's constraints.

use crate::ddb::schema::{
    has_photo, has_user, is_photo_slot, is_user_slot, not_owned_by, photo_at, photo_index,
    photo_slot, user_at, user_index, user_is_not, user_slot, StoreView,
};
use crate::ddb::select::{lemma_filter_contains, lemma_filter_keeps_order};
use crate::domain::photo::PhotoView;
use crate::domain::user::UserView;
use crate::domain::Timestamp;
use vstd::prelude::*;

verus! {

/// With distinct identifiers, a user is found at one position only.
pub proof fn lemma_user_index(s: StoreView, id: Seq<char>, i: int)
    requires
        s.user_ids_distinct(),
        user_at(s.users, id, i),
    ensures
        has_user(s.users, id),
        user_index(s.users, id) == i,
{
    let k = user_index(s.users, id);
    assert(user_at(s.users, id, k));
    if k < i {
        assert(s.users[k].id != s.users[i].id);
    } else if i < k {
        assert(s.users[i].id != s.users[k].id);
    }
}

/// With distinct identifiers, a photo is found at one position only.
pub proof fn lemma_photo_index(s: StoreView, id: Seq<char>, i: int)
    requires
        s.photo_ids_distinct(),
        photo_at(s.photos, id, i),
    ensures
        has_photo(s.photos, id),
        photo_index(s.photos, id) == i,
{
    let k = photo_index(s.photos, id);
    assert(photo_at(s.photos, id, k));
    if k < i {
        assert(s.photos[k].id != s.photos[i].id);
    } else if i < k {
        assert(s.photos[i].id != s.photos[k].id);
    }
}

/// There is a position for a row created at `t`, at or behind `from`, once
/// every row in front of `from` is known to be strictly newer.
proof fn lemma_user_slot_from(users: Seq<UserView>, t: Timestamp, from: int)
    requires
        0 <= from <= users.len(),
        forall|j: int| 0 <= j < from ==> (#[trigger] users[j]).created_at.micros > t.micros,
    ensures
        exists|k: int| is_user_slot(users, t, k),
    decreases users.len() - from,
{
    if from < users.len() && users[from].created_at.micros > t.micros {
        lemma_user_slot_from(users, t, from + 1);
    } else {
        assert(is_user_slot(users, t, from));
    }
}

/// The position for a new user row exists and is the only one.
pub proof fn lemma_user_slot(users: Seq<UserView>, t: Timestamp, k: int)
    ensures
        is_user_slot(users, t, user_slot(users, t)),
        is_user_slot(users, t, k) ==> user_slot(users, t) == k,
{
    lemma_user_slot_from(users, t, 0);
    let c = user_slot(users, t);
    if is_user_slot(users, t, k) {
        if c < k {
            assert(users[c].created_at.micros > t.micros);
        } else if k < c {
            assert(users[k].created_at.micros > t.micros);
        }
    }
}

proof fn lemma_photo_slot_from(photos: Seq<PhotoView>, t: Timestamp, from: int)
    requires
        0 <= from <= photos.len(),
        forall|j: int| 0 <= j < from ==> (#[trigger] photos[j]).created_at.micros > t.micros,
    ensures
        exists|k: int| is_photo_slot(photos, t, k),
    decreases photos.len() - from,
{
    if from < photos.len() && photos[from].created_at.micros > t.micros {
        lemma_photo_slot_from(photos, t, from + 1);
    } else {
        assert(is_photo_slot(photos, t, from));
    }
}

/// The position for a new photo row exists and is the only one.
pub proof fn lemma_photo_slot(photos: Seq<PhotoView>, t: Timestamp, k: int)
    ensures
        is_photo_slot(photos, t, photo_slot(photos, t)),
        is_photo_slot(photos, t, k) ==> photo_slot(photos, t) == k,
{
    lemma_photo_slot_from(photos, t, 0);
    let c = photo_slot(photos, t);
    if is_photo_slot(photos, t, k) {
        if c < k {
            assert(photos[c].created_at.micros > t.micros);
        } else if k < c {
            assert(photos[k].created_at.micros > t.micros);
        }
    }
}

/// Adding a user under an unused identifier keeps the schema's constraints.
pub proof fn lemma_insert_user_wf(s: StoreView, row: UserView)
    requires
        s.wf(),
        !has_user(s.users, row.id),
    ensures
        s.insert_user(row).wf(),
        forall|id: Seq<char>|
            has_user(s.insert_user(row).users, id) <==> has_user(s.users, id) || id == row.id,
{
    let k = user_slot(s.users, row.created_at);
    lemma_user_slot(s.users, row.created_at, k);
    let after = s.insert_user(row);
    assert forall|i: int| 0 <= i < after.users.len() implies #[trigger] after.users[i] == (if i
        < k {
        s.users[i]
    } else if i == k {
        row
    } else {
        s.users[i - 1]
    }) by {}
    assert forall|i: int, j: int| 0 <= i < j < after.users.len() implies after.users[i].id
        != after.users[j].id by {
        if i != k && j != k {
            let a = if i < k { i } else { i - 1 };
            let b = if j < k { j } else { j - 1 };
            assert(s.users[a].id != s.users[b].id);
        } else if i == k {
            assert(!user_at(s.users, row.id, j - 1));
        } else {
            assert(!user_at(s.users, row.id, i));
        }
    }
    assert forall|i: int, j: int| 0 <= i < j < after.users.len() implies after.users[i].created_at.micros
        >= after.users[j].created_at.micros by {
        if i != k && j != k {
            let a = if i < k { i } else { i - 1 };
            let b = if j < k { j } else { j - 1 };
            assert(s.users[a].created_at.micros >= s.users[b].created_at.micros);
        } else if i == k {
            if k < j - 1 {
                assert(s.users[k].created_at.micros >= s.users[j - 1].created_at.micros);
            }
        } else {
            assert(s.users[i].created_at.micros > row.created_at.micros);
        }
    }
    assert forall|id: Seq<char>| has_user(after.users, id) <==> has_user(s.users, id) || id
        == row.id by {
        if has_user(s.users, id) {
            let i = user_index(s.users, id);
            assert(user_at(s.users, id, i));
            assert(user_at(after.users, id, if i < k { i } else { i + 1 }));
        }
        if id == row.id {
            assert(user_at(after.users, id, k));
        }
        if has_user(after.users, id) {
            let i = user_index(after.users, id);
            assert(user_at(after.users, id, i));
            if i != k {
                assert(user_at(s.users, id, if i < k { i } else { i - 1 }));
            }
        }
    }
    assert forall|i: int| 0 <= i < after.photos.len() implies has_user(
        after.users,
        (#[trigger] after.photos[i]).user_id,
    ) by {
        assert(has_user(s.users, s.photos[i].user_id));
    }
}

/// Writing the name and update time of a user keeps the schema's
/// constraints and the set of users.
pub proof fn lemma_update_user_wf(s: StoreView, id: Seq<char>, name: Seq<char>, at: Timestamp)
    requires
        s.wf(),
    ensures
        s.update_user(id, name, at).wf(),
        forall|other: Seq<char>|
            has_user(s.update_user(id, name, at).users, other) <==> has_user(s.users, other),
{
    let after = s.update_user(id, name, at);
    if has_user(s.users, id) {
        let k = user_index(s.users, id);
        assert(user_at(s.users, id, k));
        assert forall|i: int| 0 <= i < after.users.len() implies (#[trigger] after.users[i]).id
            == s.users[i].id && after.users[i].created_at == s.users[i].created_at by {}
        assert forall|other: Seq<char>| has_user(after.users, other) <==> has_user(
            s.users,
            other,
        ) by {
            if has_user(s.users, other) {
                let i = user_index(s.users, other);
                assert(user_at(s.users, other, i));
                assert(user_at(after.users, other, i));
            }
            if has_user(after.users, other) {
                let i = user_index(after.users, other);
                assert(user_at(after.users, other, i));
                assert(user_at(s.users, other, i));
            }
        }
        assert forall|i: int| 0 <= i < after.photos.len() implies has_user(
            after.users,
            (#[trigger] after.photos[i]).user_id,
        ) by {
            assert(has_user(s.users, s.photos[i].user_id));
        }
        assert(after.user_ids_distinct()) by {
            assert forall|i: int, j: int| 0 <= i < j < after.users.len() implies after.users[i].id
                != after.users[j].id by {
                assert(s.users[i].id != s.users[j].id);
            }
        }
        assert(after.users_newest_first()) by {
            assert forall|i: int, j: int|
                0 <= i < j < after.users.len() implies after.users[i].created_at.micros
                >= after.users[j].created_at.micros by {
                assert(s.users[i].created_at.micros >= s.users[j].created_at.micros);
            }
        }
    }
}

/// Removing a user together with their photos keeps the schema's
/// constraints.
pub proof fn lemma_delete_user_wf(s: StoreView, id: Seq<char>)
    requires
        s.wf(),
    ensures
        s.delete_user(id).wf(),
        !has_user(s.delete_user(id).users, id),
        forall|other: Seq<char>|
            other != id ==> (has_user(s.delete_user(id).users, other) <==> has_user(
                s.users,
                other,
            )),
{
    let after = s.delete_user(id);
    lemma_filter_keeps_order(s.users, user_is_not(id), |a: UserView, b: UserView| a.id != b.id);
    lemma_filter_keeps_order(
        s.users,
        user_is_not(id),
        |a: UserView, b: UserView| a.created_at.micros >= b.created_at.micros,
    );
    lemma_filter_keeps_order(
        s.photos,
        not_owned_by(id),
        |a: PhotoView, b: PhotoView| a.id != b.id,
    );
    lemma_filter_keeps_order(
        s.photos,
        not_owned_by(id),
        |a: PhotoView, b: PhotoView| a.created_at.micros >= b.created_at.micros,
    );
    assert forall|other: Seq<char>| (has_user(after.users, other) <==> other != id && has_user(
        s.users,
        other,
    )) by {
        if has_user(after.users, other) {
            let i = user_index(after.users, other);
            assert(user_at(after.users, other, i));
            lemma_filter_contains(s.users, user_is_not(id), after.users[i]);
            assert(after.users.contains(after.users[i]));
            let j = choose|j: int| 0 <= j < s.users.len() && s.users[j] == after.users[i];
            assert(user_at(s.users, other, j));
        }
        if other != id && has_user(s.users, other) {
            let j = user_index(s.users, other);
            assert(user_at(s.users, other, j));
            lemma_filter_contains(s.users, user_is_not(id), s.users[j]);
            assert(s.users.contains(s.users[j]));
            let i = choose|i: int| 0 <= i < after.users.len() && after.users[i] == s.users[j];
            assert(user_at(after.users, other, i));
        }
    }
    assert forall|i: int| 0 <= i < after.photos.len() implies has_user(
        after.users,
        (#[trigger] after.photos[i]).user_id,
    ) by {
        lemma_filter_contains(s.photos, not_owned_by(id), after.photos[i]);
        assert(after.photos.contains(after.photos[i]));
        let j = choose|j: int| 0 <= j < s.photos.len() && s.photos[j] == after.photos[i];
        assert(has_user(s.users, s.photos[j].user_id));
    }
}

/// Adding a photo under an unused identifier, for an existing user, keeps
/// the schema's constraints.
pub proof fn lemma_insert_photo_wf(s: StoreView, row: PhotoView)
    requires
        s.wf(),
        !has_photo(s.photos, row.id),
        has_user(s.users, row.user_id),
    ensures
        s.insert_photo(row).wf(),
{
    let k = photo_slot(s.photos, row.created_at);
    lemma_photo_slot(s.photos, row.created_at, k);
    let after = s.insert_photo(row);
    assert forall|i: int| 0 <= i < after.photos.len() implies #[trigger] after.photos[i] == (if i
        < k {
        s.photos[i]
    } else if i == k {
        row
    } else {
        s.photos[i - 1]
    }) by {}
    assert forall|i: int, j: int| 0 <= i < j < after.photos.len() implies after.photos[i].id
        != after.photos[j].id by {
        if i != k && j != k {
            let a = if i < k { i } else { i - 1 };
            let b = if j < k { j } else { j - 1 };
            assert(s.photos[a].id != s.photos[b].id);
        } else if i == k {
            assert(!photo_at(s.photos, row.id, j - 1));
        } else {
            assert(!photo_at(s.photos, row.id, i));
        }
    }
    assert forall|i: int, j: int|
        0 <= i < j < after.photos.len() implies after.photos[i].created_at.micros
        >= after.photos[j].created_at.micros by {
        if i != k && j != k {
            let a = if i < k { i } else { i - 1 };
            let b = if j < k { j } else { j - 1 };
            assert(s.photos[a].created_at.micros >= s.photos[b].created_at.micros);
        } else if i == k {
            if k < j - 1 {
                assert(s.photos[k].created_at.micros >= s.photos[j - 1].created_at.micros);
            }
        } else {
            assert(s.photos[i].created_at.micros > row.created_at.micros);
        }
    }
    assert forall|i: int| 0 <= i < after.photos.len() implies has_user(
        after.users,
        (#[trigger] after.photos[i]).user_id,
    ) by {
        if i != k {
            let a = if i < k { i } else { i - 1 };
            assert(has_user(s.users, s.photos[a].user_id));
        }
    }
}

/// Writing the visibility and update time of a photo keeps the schema's
/// constraints.
pub proof fn lemma_update_photo_wf(s: StoreView, id: Seq<char>, is_public: bool, at: Timestamp)
    requires
        s.wf(),
    ensures
        s.update_photo(id, is_public, at).wf(),
{
    let after = s.update_photo(id, is_public, at);
    if has_photo(s.photos, id) {
        let k = photo_index(s.photos, id);
        assert(photo_at(s.photos, id, k));
        assert forall|i: int| 0 <= i < after.photos.len() implies (#[trigger] after.photos[i]).id
            == s.photos[i].id && after.photos[i].created_at == s.photos[i].created_at
            && after.photos[i].user_id == s.photos[i].user_id by {}
        assert(after.photo_ids_distinct()) by {
            assert forall|i: int, j: int|
                0 <= i < j < after.photos.len() implies after.photos[i].id
                != after.photos[j].id by {
                assert(s.photos[i].id != s.photos[j].id);
            }
        }
        assert(after.photos_newest_first()) by {
            assert forall|i: int, j: int|
                0 <= i < j < after.photos.len() implies after.photos[i].created_at.micros
                >= after.photos[j].created_at.micros by {
                assert(s.photos[i].created_at.micros >= s.photos[j].created_at.micros);
            }
        }
        assert forall|i: int| 0 <= i < after.photos.len() implies has_user(
            after.users,
            (#[trigger] after.photos[i]).user_id,
        ) by {
            assert(has_user(s.users, s.photos[i].user_id));
        }
    }
}

/// Removing a photo keeps the schema's constraints.
pub proof fn lemma_delete_photo_wf(s: StoreView, id: Seq<char>)
    requires
        s.wf(),
    ensures
        s.delete_photo(id).wf(),
        !has_photo(s.delete_photo(id).photos, id),
{
    let after = s.delete_photo(id);
    if has_photo(s.photos, id) {
        let k = photo_index(s.photos, id);
        assert(photo_at(s.photos, id, k));
        assert forall|i: int| 0 <= i < after.photos.len() implies #[trigger] after.photos[i] == (if i < k {
            s.photos[i]
        } else {
            s.photos[i + 1]
        }) by {}
        assert(after.photo_ids_distinct()) by {
            assert forall|i: int, j: int|
                0 <= i < j < after.photos.len() implies after.photos[i].id
                != after.photos[j].id by {
                let a = if i < k { i } else { i + 1 };
                let b = if j < k { j } else { j + 1 };
                assert(s.photos[a].id != s.photos[b].id);
            }
        }
        assert(after.photos_newest_first()) by {
            assert forall|i: int, j: int|
                0 <= i < j < after.photos.len() implies after.photos[i].created_at.micros
                >= after.photos[j].created_at.micros by {
                let a = if i < k { i } else { i + 1 };
                let b = if j < k { j } else { j + 1 };
                assert(s.photos[a].created_at.micros >= s.photos[b].created_at.micros);
            }
        }
        assert forall|i: int| 0 <= i < after.photos.len() implies has_user(
            after.users,
            (#[trigger] after.photos[i]).user_id,
        ) by {
            let a = if i < k { i } else { i + 1 };
            assert(has_user(s.users, s.photos[a].user_id));
        }
        assert(!has_photo(after.photos, id)) by {
            if has_photo(after.photos, id) {
                let i = photo_index(after.photos, id);
                assert(photo_at(after.photos, id, i));
                let a = if i < k { i } else { i + 1 };
                if a < k {
                    assert(s.photos[a].id != s.photos[k].id);
                } else {
                    assert(s.photos[k].id != s.photos[a].id);
                }
            }
        }
    }
}

} // verus!
