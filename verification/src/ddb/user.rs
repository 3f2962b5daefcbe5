//! The `users` table and its data access object.

use crate::ddb::photo;
use crate::ddb::schema::{
    duplicate_key_text, has_user, owned_by, photos_in_order, user_among, user_index,
    user_is_not, users_in_order, users_with_photos, Store,
};
use crate::ddb::select::{lemma_selected_photos_in_order, lemma_selected_users_in_order};
use crate::ddb::{
    changed, removed, surfaced, written, Dao, DaoError, DaoErrorView, DaoResult, StoreError,
};
use crate::domain::photo::Photo;
use crate::domain::user::{User, UserView};
use crate::domain::Timestamp;
use vstd::prelude::*;
use vstd::std_specs::convert::{FromSpecImpl, TryFromSpecImpl};

verus! {

/// A row of the `users` table.
#[derive(Debug)]
pub struct Entity {
    pub id: String,
    pub name: String,
    pub created_at: Timestamp,
    pub updated_at: Timestamp,
}

impl View for Entity {
    type V = UserView;

    open spec fn view(&self) -> UserView {
        UserView {
            id: self.id@,
            name: self.name@,
            created_at: self.created_at,
            updated_at: self.updated_at,
        }
    }
}

impl DeepView for Entity {
    type V = UserView;

    open spec fn deep_view(&self) -> UserView {
        self@
    }
}

impl Clone for Entity {
    fn clone(&self) -> (r: Self)
        ensures
            r == *self,
    {
        Entity {
            id: self.id.clone(),
            name: self.name.clone(),
            created_at: self.created_at,
            updated_at: self.updated_at,
        }
    }
}

impl TryFrom<Entity> for User {
    type Error = String;

    /// Every row is a user: the conversion never fails.
    fn try_from(e: Entity) -> (r: Result<Self, String>) {
        Ok(User { id: e.id, name: e.name, created_at: e.created_at, updated_at: e.updated_at })
    }
}

impl TryFromSpecImpl<Entity> for User {
    open spec fn obeys_try_from_spec() -> bool {
        true
    }

    open spec fn try_from_spec(e: Entity) -> Result<Self, String> {
        Ok(User { id: e.id, name: e.name, created_at: e.created_at, updated_at: e.updated_at })
    }
}

impl From<User> for Entity {
    fn from(d: User) -> (e: Entity) {
        Entity { id: d.id, name: d.name, created_at: d.created_at, updated_at: d.updated_at }
    }
}

impl FromSpecImpl<User> for Entity {
    open spec fn obeys_from_spec() -> bool {
        true
    }

    open spec fn from_spec(d: User) -> Entity {
        Entity { id: d.id, name: d.name, created_at: d.created_at, updated_at: d.updated_at }
    }
}

/// The users that a listing of rows stands for, or the surfaced failure.
pub fn loaded(outcome: Result<Vec<Entity>, StoreError>) -> (res: DaoResult<Vec<User>>)
    ensures
        match outcome {
            Ok(rows) => res matches Ok(users) && users.deep_view() == rows.deep_view(),
            Err(e) => res == Err::<Vec<User>, DaoError>(surfaced(e)),
        },
{
    match outcome {
        Ok(rows) => {
            let ghost all = rows.deep_view();
            let mut users: Vec<User> = Vec::new();
            for row in it: rows
                invariant
                    it.seq().len() == all.len(),
                    forall|j: int| 0 <= j < all.len() ==> (#[trigger] it.seq()[j])@ == all[j],
                    users.len() == it.index(),
                    forall|j: int| 0 <= j < users.len() ==> (#[trigger] users[j])@ == all[j],
            {
                users.push(User::try_from(row).unwrap());
            }
            assert(users.deep_view() =~= all);
            Ok(users)
        },
        Err(e) => Err(DaoError::from(e)),
    }
}

/// The user that a row stands for, or the surfaced failure.
pub fn found(outcome: Result<Entity, StoreError>) -> (res: DaoResult<User>)
    ensures
        match outcome {
            Ok(row) => res matches Ok(user) && user@ == row@,
            Err(e) => res == Err::<User, DaoError>(surfaced(e)),
        },
{
    match outcome {
        Ok(row) => Ok(User::try_from(row).unwrap()),
        Err(e) => Err(DaoError::from(e)),
    }
}

impl Dao<User> {
    /// Every user but `exclude_id`, newest first. Never fails on this store.
    pub fn get_all_with_exclude(&self, conn: &Store, exclude_id: String) -> (res: DaoResult<
        Vec<User>,
    >)
        ensures
            res matches Ok(users) && users.deep_view() == conn@.users.filter(
                user_is_not(exclude_id@),
            ) && (conn@.wf() ==> users_in_order(users.deep_view())),
    {
        proof {
            if conn@.wf() {
                lemma_selected_users_in_order(conn@.users, user_is_not(exclude_id@));
            }
        }
        loaded(conn.load_users_except(&exclude_id))
    }

    /// The users whose identifier is one of `ids`, newest first: one round
    /// trip for a whole batch of keys.
    pub fn get_all_by_ids(&self, conn: &Store, ids: &Vec<String>) -> (res: DaoResult<Vec<User>>)
        ensures
            res matches Ok(users) && users.deep_view() == conn@.users.filter(
                user_among(ids.deep_view()),
            ) && (conn@.wf() ==> users_in_order(users.deep_view())),
    {
        proof {
            if conn@.wf() {
                lemma_selected_users_in_order(conn@.users, user_among(ids.deep_view()));
            }
        }
        loaded(conn.load_users_among(ids))
    }

    /// The user `id`; `NotFound` where there is none.
    pub fn get(&self, conn: &Store, id: String) -> (res: DaoResult<User>)
        requires
            conn@.wf(),
        ensures
            match res {
                Ok(user) => has_user(conn@.users, id@) && user@ == conn@.users[user_index(
                    conn@.users,
                    id@,
                )],
                Err(e) => !has_user(conn@.users, id@) && e == DaoError::NotFound,
            },
    {
        found(conn.first_user(&id))
    }

    /// The user `id` together with their photos, newest photo first;
    /// `NotFound` where there is no such user.
    pub fn get_with_photos(&self, conn: &Store, id: String) -> (res: DaoResult<(User, Vec<Photo>)>)
        requires
            conn@.wf(),
        ensures
            match res {
                Ok((user, photos)) => {
                    &&& has_user(conn@.users, id@)
                    &&& user@ == conn@.users[user_index(conn@.users, id@)]
                    &&& photos.deep_view() == conn@.photos.filter(owned_by(id@))
                    &&& photos_in_order(photos.deep_view())
                },
                Err(e) => !has_user(conn@.users, id@) && e == DaoError::NotFound,
            },
    {
        proof {
            lemma_selected_photos_in_order(conn@.photos, owned_by(id@));
        }
        let user = match found(conn.first_user(&id)) {
            Ok(user) => user,
            Err(e) => {
                return Err(e);
            },
        };
        let photos = match photo::loaded(conn.load_photos_by_user(&id)) {
            Ok(photos) => photos,
            Err(e) => {
                return Err(e);
            },
        };
        Ok((user, photos))
    }

    /// Every user together with their photos, newest user first and, for
    /// each user, newest photo first. Never fails on this store.
    pub fn get_all_with_photos(&self, conn: &Store) -> (res: DaoResult<Vec<(User, Vec<Photo>)>>)
        ensures
            res matches Ok(all) && all.deep_view() == users_with_photos(conn@.users, conn@.photos),
    {
        match conn.load_users_with_photos() {
            Ok(rows) => {
                let ghost all = rows.deep_view();
                let mut out: Vec<(User, Vec<Photo>)> = Vec::new();
                for pair in it: rows
                    invariant
                        it.seq().len() == all.len(),
                        forall|j: int|
                            0 <= j < all.len() ==> (#[trigger] it.seq()[j]).deep_view() == all[j],
                        out.len() == it.index(),
                        forall|j: int|
                            0 <= j < out.len() ==> (#[trigger] out[j]).deep_view() == all[j],
                {
                    let (row, owned) = pair;
                    if let Ok(photos) = photo::loaded(Ok(owned)) {
                        out.push((User::try_from(row).unwrap(), photos));
                    }
                }
                assert(out.deep_view() =~= all);
                Ok(out)
            },
            Err(e) => Err(DaoError::from(e)),
        }
    }

    /// Stores a new user. Fails with an internal error, and changes nothing,
    /// where the identifier is taken.
    pub fn insert(&self, conn: &mut Store, item: User) -> (res: DaoResult<User>)
        requires
            old(conn)@.wf(),
        ensures
            final(conn)@.wf(),
            match res {
                Ok(user) => {
                    &&& user == item
                    &&& !has_user(old(conn)@.users, item@.id)
                    &&& final(conn)@ == old(conn)@.insert_user(item@)
                },
                Err(e) => {
                    &&& has_user(old(conn)@.users, item@.id)
                    &&& final(conn)@ == old(conn)@
                    &&& e@ == DaoErrorView::InternalError(duplicate_key_text())
                },
            },
    {
        let e: Entity = Entity::from(item.clone());
        match written(conn.insert_user(e)) {
            Ok(_) => Ok(item),
            Err(e) => Err(e),
        }
    }

    /// Writes the name and update time of `item` to the row with its
    /// identifier, and nothing else of it. Fails with `NotFound`, and changes
    /// nothing, where there is no such row.
    pub fn update(&self, conn: &mut Store, item: User) -> (res: DaoResult<User>)
        requires
            old(conn)@.wf(),
        ensures
            final(conn)@.wf(),
            final(conn)@ == old(conn)@.update_user(item@.id, item@.name, item.updated_at),
            match res {
                Ok(user) => user == item && has_user(old(conn)@.users, item@.id),
                Err(e) => !has_user(old(conn)@.users, item@.id) && e == DaoError::NotFound,
            },
    {
        let e: Entity = Entity::from(item.clone());
        match changed(conn.update_user(&e.id, e.name, e.updated_at)) {
            Ok(_) => Ok(item),
            Err(e) => Err(e),
        }
    }

    /// Removes user `id` and every photo they own. Deleting is idempotent:
    /// it succeeds whether or not the user was there.
    pub fn delete(&self, conn: &mut Store, id: String) -> (res: DaoResult<bool>)
        requires
            old(conn)@.wf(),
        ensures
            final(conn)@.wf(),
            final(conn)@ == old(conn)@.delete_user(id@),
            res == Ok::<bool, DaoError>(true),
    {
        removed(conn.delete_user(&id))
    }
}

} // verus!
