//! What holds of the store in every state that keeps the schema's
//! constraints.

use crate::ddb::constraints::{
    lemma_delete_user_wf,
    lemma_photo_index, lemma_photo_slot, lemma_update_photo_wf, lemma_update_user_wf,
    lemma_user_index, lemma_user_slot,
};
use crate::ddb::schema::{
    has_photo, has_user, owned_by, photo_at, photo_index, photo_slot, user_at, user_index,
    StoreView,
};
use crate::ddb::select::{lemma_filter_contains, lemma_filter_keeps_order};
use crate::ddb::schema::{not_owned_by, user_is_not, user_slot};
use crate::domain::photo::PhotoView;
use crate::domain::user::UserView;
use crate::domain::Timestamp;
use vstd::prelude::*;

verus! {

/// The listing of an owner's photos holds exactly the photos of the store
/// that belong to that owner: every one of them, and no photo of anyone
/// else.
pub proof fn lemma_listing_is_by_owner(s: StoreView, owner: Seq<char>, photo: PhotoView)
    ensures
        s.photos.filter(owned_by(owner)).contains(photo) <==> s.photos.contains(photo)
            && photo.user_id == owner,
{
    lemma_filter_contains(s.photos, owned_by(owner), photo);
}

/// The listing of an owner's photos is ordered newest first and shows no
/// photo twice.
pub proof fn lemma_listing_is_ordered(s: StoreView, owner: Seq<char>)
    requires
        s.wf(),
    ensures
        forall|i: int, j: int|
            0 <= i < j < s.photos.filter(owned_by(owner)).len() ==> {
                &&& s.photos.filter(owned_by(owner))[i].created_at.micros >= s.photos.filter(
                    owned_by(owner),
                )[j].created_at.micros
                &&& s.photos.filter(owned_by(owner))[i].id != s.photos.filter(
                    owned_by(owner),
                )[j].id
            },
{
    lemma_filter_keeps_order(
        s.photos,
        owned_by(owner),
        |a: PhotoView, b: PhotoView| a.created_at.micros >= b.created_at.micros,
    );
    lemma_filter_keeps_order(s.photos, owned_by(owner), |a: PhotoView, b: PhotoView| a.id != b.id);
}

/// A photo that was just stored is in the listing of its owner's photos.
pub proof fn lemma_stored_photo_is_listed(s: StoreView, row: PhotoView)
    ensures
        s.insert_photo(row).photos.contains(row),
        s.insert_photo(row).photos.filter(owned_by(row.user_id)).contains(row),
        has_photo(s.insert_photo(row).photos, row.id),
{
    let k = photo_slot(s.photos, row.created_at);
    lemma_photo_slot(s.photos, row.created_at, k);
    let after = s.insert_photo(row);
    assert(after.photos[k] == row);
    assert(photo_at(after.photos, row.id, k));
    lemma_filter_contains(after.photos, owned_by(row.user_id), row);
}

/// Reading a user after their name was written gives the new name and the
/// time of that write, and everything else as it was.
pub proof fn lemma_user_read_after_write(
    s: StoreView,
    id: Seq<char>,
    name: Seq<char>,
    now: Timestamp,
)
    requires
        s.wf(),
        has_user(s.users, id),
    ensures
        has_user(s.update_user(id, name, now).users, id),
        s.update_user(id, name, now).users[user_index(s.update_user(id, name, now).users, id)]
            == s.users[user_index(s.users, id)].renamed(name, now),
{
    let after = s.update_user(id, name, now);
    let i = user_index(s.users, id);
    assert(user_at(s.users, id, i));
    lemma_update_user_wf(s, id, name, now);
    assert(user_at(after.users, id, i));
    lemma_user_index(after, id, i);
}

/// Of two writes of a user's name, one after the other, the second is what
/// the store holds: never a mixture of the two.
pub proof fn lemma_last_user_write_wins(
    s: StoreView,
    id: Seq<char>,
    first: Seq<char>,
    at_first: Timestamp,
    second: Seq<char>,
    at_second: Timestamp,
)
    requires
        s.wf(),
    ensures
        s.update_user(id, first, at_first).update_user(id, second, at_second) == s.update_user(
            id,
            second,
            at_second,
        ),
{
    if has_user(s.users, id) {
        let mid = s.update_user(id, first, at_first);
        lemma_user_read_after_write(s, id, first, at_first);
        assert(mid.update_user(id, second, at_second).users =~= s.update_user(
            id,
            second,
            at_second,
        ).users);
    }
}

/// Reading a photo after its visibility was written gives the new
/// visibility and the time of that write, and everything else as it was.
pub proof fn lemma_photo_read_after_write(
    s: StoreView,
    id: Seq<char>,
    is_public: bool,
    now: Timestamp,
)
    requires
        s.wf(),
        has_photo(s.photos, id),
    ensures
        has_photo(s.update_photo(id, is_public, now).photos, id),
        s.update_photo(id, is_public, now).photos[photo_index(
            s.update_photo(id, is_public, now).photos,
            id,
        )] == s.photos[photo_index(s.photos, id)].with_visibility(is_public, now),
{
    let after = s.update_photo(id, is_public, now);
    let i = photo_index(s.photos, id);
    assert(photo_at(s.photos, id, i));
    lemma_update_photo_wf(s, id, is_public, now);
    assert(photo_at(after.photos, id, i));
    lemma_photo_index(after, id, i);
}

/// Of two writes of a photo's visibility, one after the other, the second is
/// what the store holds: the visibility and the time of the write that came
/// last.
pub proof fn lemma_last_photo_write_wins(
    s: StoreView,
    id: Seq<char>,
    first: bool,
    at_first: Timestamp,
    second: bool,
    at_second: Timestamp,
)
    requires
        s.wf(),
    ensures
        s.update_photo(id, first, at_first).update_photo(id, second, at_second) == s.update_photo(
            id,
            second,
            at_second,
        ),
{
    if has_photo(s.photos, id) {
        let mid = s.update_photo(id, first, at_first);
        lemma_photo_read_after_write(s, id, first, at_first);
        assert(mid.update_photo(id, second, at_second).photos =~= s.update_photo(
            id,
            second,
            at_second,
        ).photos);
    }
}

/// A write at a later time than the last one moves the time of the last
/// update strictly forward, and keeps it at or after the creation.
pub proof fn lemma_update_time_advances(photo: PhotoView, is_public: bool, now: Timestamp)
    requires
        photo.is_valid(),
        now.micros > photo.updated_at.micros,
    ensures
        photo.with_visibility(is_public, now).updated_at.micros > photo.updated_at.micros,
        photo.with_visibility(is_public, now).is_valid(),
{
}

/// Storing a valid user keeps every row valid.
pub proof fn lemma_insert_user_keeps_rows_valid(s: StoreView, row: UserView)
    requires
        s.rows_valid(),
        row.is_valid(),
    ensures
        s.insert_user(row).rows_valid(),
{
    let k = user_slot(s.users, row.created_at);
    lemma_user_slot(s.users, row.created_at, k);
    let after = s.insert_user(row);
    assert forall|i: int| 0 <= i < after.users.len() implies (#[trigger] after.users[i]).is_valid() by {
        if i < k {
            assert(after.users[i] == s.users[i]);
        } else if i > k {
            assert(after.users[i] == s.users[i - 1]);
        }
    }
}

/// Writing a name that is not empty, at a time that is not earlier than the
/// user's creation, keeps every row valid.
pub proof fn lemma_update_user_keeps_rows_valid(
    s: StoreView,
    id: Seq<char>,
    name: Seq<char>,
    now: Timestamp,
)
    requires
        s.rows_valid(),
        name.len() > 0,
        has_user(s.users, id) ==> s.users[user_index(s.users, id)].created_at.micros <= now.micros,
    ensures
        s.update_user(id, name, now).rows_valid(),
{
    if has_user(s.users, id) {
        let k = user_index(s.users, id);
        assert(user_at(s.users, id, k));
        let after = s.update_user(id, name, now);
        assert forall|i: int| 0 <= i < after.users.len() implies (#[trigger] after.users[i]).is_valid() by {
            if i != k {
                assert(after.users[i] == s.users[i]);
            }
        }
    }
}

/// Removing a user and their photos keeps every row valid.
pub proof fn lemma_delete_user_keeps_rows_valid(s: StoreView, id: Seq<char>)
    requires
        s.rows_valid(),
    ensures
        s.delete_user(id).rows_valid(),
{
    let after = s.delete_user(id);
    assert forall|i: int| 0 <= i < after.users.len() implies (#[trigger] after.users[i]).is_valid() by {
        lemma_filter_contains(s.users, user_is_not(id), after.users[i]);
        assert(after.users.contains(after.users[i]));
        let j = choose|j: int| 0 <= j < s.users.len() && s.users[j] == after.users[i];
        assert(s.users[j].is_valid());
    }
    assert forall|i: int| 0 <= i < after.photos.len() implies (#[trigger] after.photos[i]).is_valid() by {
        lemma_filter_contains(s.photos, not_owned_by(id), after.photos[i]);
        assert(after.photos.contains(after.photos[i]));
        let j = choose|j: int| 0 <= j < s.photos.len() && s.photos[j] == after.photos[i];
        assert(s.photos[j].is_valid());
    }
}

/// Storing a valid photo keeps every row valid.
pub proof fn lemma_insert_photo_keeps_rows_valid(s: StoreView, row: PhotoView)
    requires
        s.rows_valid(),
        row.is_valid(),
    ensures
        s.insert_photo(row).rows_valid(),
{
    let k = photo_slot(s.photos, row.created_at);
    lemma_photo_slot(s.photos, row.created_at, k);
    let after = s.insert_photo(row);
    assert forall|i: int| 0 <= i < after.photos.len() implies (#[trigger] after.photos[i]).is_valid() by {
        if i < k {
            assert(after.photos[i] == s.photos[i]);
        } else if i > k {
            assert(after.photos[i] == s.photos[i - 1]);
        }
    }
}

/// Writing a photo's visibility at a time that is not earlier than its
/// creation keeps every row valid.
pub proof fn lemma_update_photo_keeps_rows_valid(
    s: StoreView,
    id: Seq<char>,
    is_public: bool,
    now: Timestamp,
)
    requires
        s.rows_valid(),
        has_photo(s.photos, id) ==> s.photos[photo_index(s.photos, id)].created_at.micros
            <= now.micros,
    ensures
        s.update_photo(id, is_public, now).rows_valid(),
{
    if has_photo(s.photos, id) {
        let k = photo_index(s.photos, id);
        assert(photo_at(s.photos, id, k));
        let after = s.update_photo(id, is_public, now);
        assert forall|i: int| 0 <= i < after.photos.len() implies (#[trigger] after.photos[i]).is_valid() by {
            if i != k {
                assert(after.photos[i] == s.photos[i]);
            }
        }
    }
}

/// Removing a photo keeps every row valid.
pub proof fn lemma_delete_photo_keeps_rows_valid(s: StoreView, id: Seq<char>)
    requires
        s.rows_valid(),
    ensures
        s.delete_photo(id).rows_valid(),
{
    if has_photo(s.photos, id) {
        let k = photo_index(s.photos, id);
        assert(photo_at(s.photos, id, k));
        let after = s.delete_photo(id);
        assert forall|i: int| 0 <= i < after.photos.len() implies (#[trigger] after.photos[i]).is_valid() by {
            if i < k {
                assert(after.photos[i] == s.photos[i]);
            } else {
                assert(after.photos[i] == s.photos[i + 1]);
            }
        }
    }
}

/// Once a user is removed, no photo of theirs is left, and the photos of
/// everyone else are all still there.
pub proof fn lemma_removed_user_leaves_no_photo(s: StoreView, id: Seq<char>, photo: PhotoView)
    requires
        s.wf(),
    ensures
        !has_user(s.delete_user(id).users, id),
        s.delete_user(id).photos.filter(owned_by(id)).len() == 0,
        s.delete_user(id).photos.contains(photo) <==> s.photos.contains(photo) && photo.user_id
            != id,
{
    lemma_delete_user_wf(s, id);
    let after = s.delete_user(id);
    lemma_filter_contains(s.photos, not_owned_by(id), photo);
    let left = after.photos.filter(owned_by(id));
    if left.len() > 0 {
        assert(left.contains(left[0]));
        lemma_filter_contains(after.photos, owned_by(id), left[0]);
        lemma_filter_contains(s.photos, not_owned_by(id), left[0]);
    }
}

} // verus!
