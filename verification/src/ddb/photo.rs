//! The `photos` table and its data access object.

use crate::ddb::schema::{
    duplicate_key_text, has_photo, has_user, missing_owner_text, owned_by, owned_by_any,
    photo_index, photos_in_order, photos_with_owner, Store,
};
use crate::ddb::select::lemma_selected_photos_in_order;
use crate::ddb::user;
use crate::ddb::{
    changed, removed, surfaced, written, Dao, DaoError, DaoErrorView, DaoResult, StoreError,
};
use crate::domain::photo::{Photo, PhotoView};
use crate::domain::user::User;
use crate::domain::Timestamp;
use vstd::prelude::*;
use vstd::std_specs::convert::{FromSpecImpl, TryFromSpecImpl};

verus! {

/// A row of the `photos` table.
#[derive(Debug)]
pub struct Entity {
    pub id: String,
    pub user_id: String,
    pub url: String,
    pub is_public: bool,
    pub created_at: Timestamp,
    pub updated_at: Timestamp,
}

impl View for Entity {
    type V = PhotoView;

    open spec fn view(&self) -> PhotoView {
        PhotoView {
            id: self.id@,
            user_id: self.user_id@,
            url: self.url@,
            is_public: self.is_public,
            created_at: self.created_at,
            updated_at: self.updated_at,
        }
    }
}

impl DeepView for Entity {
    type V = PhotoView;

    open spec fn deep_view(&self) -> PhotoView {
        self@
    }
}

impl Clone for Entity {
    fn clone(&self) -> (r: Self)
        ensures
            r == *self,
    {
        Entity {
            id: self.id.clone(),
            user_id: self.user_id.clone(),
            url: self.url.clone(),
            is_public: self.is_public,
            created_at: self.created_at,
            updated_at: self.updated_at,
        }
    }
}

impl TryFrom<Entity> for Photo {
    type Error = String;

    /// Every row is a photo: the conversion never fails.
    fn try_from(e: Entity) -> (r: Result<Self, String>) {
        Ok(
            Photo {
                id: e.id,
                user_id: e.user_id,
                url: e.url,
                is_public: e.is_public,
                created_at: e.created_at,
                updated_at: e.updated_at,
            },
        )
    }
}

impl TryFromSpecImpl<Entity> for Photo {
    open spec fn obeys_try_from_spec() -> bool {
        true
    }

    open spec fn try_from_spec(e: Entity) -> Result<Self, String> {
        Ok(
            Photo {
                id: e.id,
                user_id: e.user_id,
                url: e.url,
                is_public: e.is_public,
                created_at: e.created_at,
                updated_at: e.updated_at,
            },
        )
    }
}

impl From<Photo> for Entity {
    fn from(d: Photo) -> (e: Entity) {
        Entity {
            id: d.id,
            user_id: d.user_id,
            url: d.url,
            is_public: d.is_public,
            created_at: d.created_at,
            updated_at: d.updated_at,
        }
    }
}

impl FromSpecImpl<Photo> for Entity {
    open spec fn obeys_from_spec() -> bool {
        true
    }

    open spec fn from_spec(d: Photo) -> Entity {
        Entity {
            id: d.id,
            user_id: d.user_id,
            url: d.url,
            is_public: d.is_public,
            created_at: d.created_at,
            updated_at: d.updated_at,
        }
    }
}

/// The photos that a listing of rows stands for, or the surfaced failure.
pub fn loaded(outcome: Result<Vec<Entity>, StoreError>) -> (res: DaoResult<Vec<Photo>>)
    ensures
        match outcome {
            Ok(rows) => res matches Ok(photos) && photos.deep_view() == rows.deep_view(),
            Err(e) => res == Err::<Vec<Photo>, DaoError>(surfaced(e)),
        },
{
    match outcome {
        Ok(rows) => {
            let ghost all = rows.deep_view();
            let mut photos: Vec<Photo> = Vec::new();
            for row in it: rows
                invariant
                    it.seq().len() == all.len(),
                    forall|j: int| 0 <= j < all.len() ==> (#[trigger] it.seq()[j])@ == all[j],
                    photos.len() == it.index(),
                    forall|j: int| 0 <= j < photos.len() ==> (#[trigger] photos[j])@ == all[j],
            {
                photos.push(Photo::try_from(row).unwrap());
            }
            assert(photos.deep_view() =~= all);
            Ok(photos)
        },
        Err(e) => Err(DaoError::from(e)),
    }
}

/// The photo that a row stands for, or the surfaced failure.
pub fn found(outcome: Result<Entity, StoreError>) -> (res: DaoResult<Photo>)
    ensures
        match outcome {
            Ok(row) => res matches Ok(photo) && photo@ == row@,
            Err(e) => res == Err::<Photo, DaoError>(surfaced(e)),
        },
{
    match outcome {
        Ok(row) => Ok(Photo::try_from(row).unwrap()),
        Err(e) => Err(DaoError::from(e)),
    }
}

/// The photos and owners that the rows of a join stand for, or the surfaced
/// failure.
pub fn joined(outcome: Result<Vec<(Entity, user::Entity)>, StoreError>) -> (res: DaoResult<
    Vec<(Photo, User)>,
>)
    ensures
        match outcome {
            Ok(rows) => res matches Ok(pairs) && pairs.deep_view() == rows.deep_view(),
            Err(e) => res == Err::<Vec<(Photo, User)>, DaoError>(surfaced(e)),
        },
{
    match outcome {
        Ok(rows) => {
            let ghost all = rows.deep_view();
            let mut pairs: Vec<(Photo, User)> = Vec::new();
            for pair in it: rows
                invariant
                    it.seq().len() == all.len(),
                    forall|j: int|
                        0 <= j < all.len() ==> (#[trigger] it.seq()[j]).deep_view() == all[j],
                    pairs.len() == it.index(),
                    forall|j: int|
                        0 <= j < pairs.len() ==> (#[trigger] pairs[j]).deep_view() == all[j],
            {
                let (photo, owner) = pair;
                pairs.push((Photo::try_from(photo).unwrap(), User::try_from(owner).unwrap()));
            }
            assert(pairs.deep_view() =~= all);
            Ok(pairs)
        },
        Err(e) => Err(DaoError::from(e)),
    }
}

impl Dao<Photo> {
    /// Every photo joined with its owner, newest photo first. Never fails
    /// on this store.
    pub fn get_all_with_user(&self, conn: &Store) -> (res: DaoResult<Vec<(Photo, User)>>)
        requires
            conn@.wf(),
        ensures
            res matches Ok(pairs) && pairs.deep_view() == photos_with_owner(
                conn@.photos,
                conn@.users,
            ),
    {
        joined(conn.load_photos_with_user())
    }

    /// The photos of `user_id`, newest first; none where the user has none.
    /// Never fails on this store.
    pub fn get_all_by_user(&self, conn: &Store, user_id: String) -> (res: DaoResult<Vec<Photo>>)
        ensures
            res matches Ok(photos) && photos.deep_view() == conn@.photos.filter(
                owned_by(user_id@),
            ) && (conn@.wf() ==> photos_in_order(photos.deep_view())),
    {
        proof {
            if conn@.wf() {
                lemma_selected_photos_in_order(conn@.photos, owned_by(user_id@));
            }
        }
        loaded(conn.load_photos_by_user(&user_id))
    }

    /// The photos that belong to one of `user_ids`, newest first: one round
    /// trip for a whole batch of keys.
    pub fn get_all_by_users(&self, conn: &Store, user_ids: &Vec<String>) -> (res: DaoResult<
        Vec<Photo>,
    >)
        ensures
            res matches Ok(photos) && photos.deep_view() == conn@.photos.filter(
                owned_by_any(user_ids.deep_view()),
            ) && (conn@.wf() ==> photos_in_order(photos.deep_view())),
    {
        proof {
            if conn@.wf() {
                lemma_selected_photos_in_order(conn@.photos, owned_by_any(user_ids.deep_view()));
            }
        }
        loaded(conn.load_photos_among(user_ids))
    }

    /// The photo `id`; `NotFound` where there is none.
    pub fn get(&self, conn: &Store, id: String) -> (res: DaoResult<Photo>)
        requires
            conn@.wf(),
        ensures
            match res {
                Ok(photo) => has_photo(conn@.photos, id@) && photo@ == conn@.photos[photo_index(
                    conn@.photos,
                    id@,
                )],
                Err(e) => !has_photo(conn@.photos, id@) && e == DaoError::NotFound,
            },
    {
        found(conn.first_photo(&id))
    }

    /// Stores a new photo. Fails with an internal error, and changes
    /// nothing, where the identifier is taken or the owner does not exist.
    pub fn insert(&self, conn: &mut Store, item: &Photo) -> (res: DaoResult<()>)
        requires
            old(conn)@.wf(),
        ensures
            final(conn)@.wf(),
            match res {
                Ok(_) => {
                    &&& !has_photo(old(conn)@.photos, item@.id)
                    &&& has_user(old(conn)@.users, item@.user_id)
                    &&& final(conn)@ == old(conn)@.insert_photo(item@)
                },
                Err(e) => {
                    &&& final(conn)@ == old(conn)@
                    &&& if has_photo(old(conn)@.photos, item@.id) {
                        e@ == DaoErrorView::InternalError(duplicate_key_text())
                    } else {
                        &&& !has_user(old(conn)@.users, item@.user_id)
                        &&& e@ == DaoErrorView::InternalError(missing_owner_text())
                    }
                },
            },
    {
        let e: Entity = Entity::from(item.clone());
        written(conn.insert_photo(e))
    }

    /// Writes the visibility and update time of `item` to the row with its
    /// identifier, and nothing else of it. Fails with `NotFound`, and changes
    /// nothing, where there is no such row.
    pub fn update(&self, conn: &mut Store, item: &Photo) -> (res: DaoResult<()>)
        requires
            old(conn)@.wf(),
        ensures
            final(conn)@.wf(),
            final(conn)@ == old(conn)@.update_photo(item@.id, item.is_public, item.updated_at),
            match res {
                Ok(_) => has_photo(old(conn)@.photos, item@.id),
                Err(e) => !has_photo(old(conn)@.photos, item@.id) && e == DaoError::NotFound,
            },
    {
        let e: Entity = Entity::from(item.clone());
        changed(conn.update_photo(&e.id, e.is_public, e.updated_at))
    }

    /// Removes photo `id`. Deleting is idempotent: it succeeds whether or
    /// not the photo was there.
    pub fn delete(&self, conn: &mut Store, id: String) -> (res: DaoResult<bool>)
        requires
            old(conn)@.wf(),
        ensures
            final(conn)@.wf(),
            final(conn)@ == old(conn)@.delete_photo(id@),
            res == Ok::<bool, DaoError>(true),
    {
        removed(conn.delete_photo(&id))
    }
}

} // verus!
