//! The entity store: the tables `users` and `photos`.
//!
//! Both tables are keyed by `id`, every photo refers to an existing user
//! through `user_id`, and each table keeps its rows newest first, so that a
//! listing is always a selection of rows in table order.

use crate::ddb::photo;
use crate::ddb::constraints::{
    lemma_delete_photo_wf, lemma_delete_user_wf, lemma_insert_photo_wf, lemma_insert_user_wf,
    lemma_photo_index, lemma_photo_slot, lemma_update_photo_wf, lemma_update_user_wf,
    lemma_user_index, lemma_user_slot,
};
use crate::ddb::select::lemma_filter_step;
use crate::ddb::user;
use crate::ddb::StoreError;
use crate::domain::photo::PhotoView;
use crate::domain::user::UserView;
use crate::domain::Timestamp;
use vstd::prelude::*;
use vstd::string::StringExecFns;

verus! {

/// The tables of the store.
pub struct Store {
    users: Vec<user::Entity>,
    photos: Vec<photo::Entity>,
}

/// The rows of both tables, in table order.
#[verifier::ext_equal]
pub struct StoreView {
    pub users: Seq<UserView>,
    pub photos: Seq<PhotoView>,
}

/// Row `i` of `users` has the identifier `id`.
pub open spec fn user_at(users: Seq<UserView>, id: Seq<char>, i: int) -> bool {
    0 <= i < users.len() && users[i].id == id
}

pub open spec fn has_user(users: Seq<UserView>, id: Seq<char>) -> bool {
    exists|i: int| user_at(users, id, i)
}

/// The position of the user `id`, where there is one.
pub open spec fn user_index(users: Seq<UserView>, id: Seq<char>) -> int {
    choose|i: int| user_at(users, id, i)
}

/// Row `i` of `photos` has the identifier `id`.
pub open spec fn photo_at(photos: Seq<PhotoView>, id: Seq<char>, i: int) -> bool {
    0 <= i < photos.len() && photos[i].id == id
}

pub open spec fn has_photo(photos: Seq<PhotoView>, id: Seq<char>) -> bool {
    exists|i: int| photo_at(photos, id, i)
}

/// The position of the photo `id`, where there is one.
pub open spec fn photo_index(photos: Seq<PhotoView>, id: Seq<char>) -> int {
    choose|i: int| photo_at(photos, id, i)
}

/// Selects the user `id`.
pub open spec fn user_is(id: Seq<char>) -> spec_fn(UserView) -> bool {
    |u: UserView| u.id == id
}

/// Selects the users other than `id`.
pub open spec fn user_is_not(id: Seq<char>) -> spec_fn(UserView) -> bool {
    |u: UserView| u.id != id
}

/// Selects the users whose identifier is one of `ids`.
pub open spec fn user_among(ids: Seq<Seq<char>>) -> spec_fn(UserView) -> bool {
    |u: UserView| ids.contains(u.id)
}

/// Selects the photos that belong to `owner`.
pub open spec fn owned_by(owner: Seq<char>) -> spec_fn(PhotoView) -> bool {
    |p: PhotoView| p.user_id == owner
}

/// Selects the photos that belong to anyone but `owner`.
pub open spec fn not_owned_by(owner: Seq<char>) -> spec_fn(PhotoView) -> bool {
    |p: PhotoView| p.user_id != owner
}

/// Selects the photos that belong to one of `owners`.
pub open spec fn owned_by_any(owners: Seq<Seq<char>>) -> spec_fn(PhotoView) -> bool {
    |p: PhotoView| owners.contains(p.user_id)
}

/// Position `k` is where a user row created at `t` goes: behind every row
/// that is strictly newer, in front of the rest.
pub open spec fn is_user_slot(users: Seq<UserView>, t: Timestamp, k: int) -> bool {
    &&& 0 <= k <= users.len()
    &&& forall|j: int| 0 <= j < k ==> (#[trigger] users[j]).created_at.micros > t.micros
    &&& k < users.len() ==> users[k].created_at.micros <= t.micros
}

pub open spec fn user_slot(users: Seq<UserView>, t: Timestamp) -> int {
    choose|k: int| is_user_slot(users, t, k)
}

/// Position `k` is where a photo row created at `t` goes: behind every row
/// that is strictly newer, in front of the rest.
pub open spec fn is_photo_slot(photos: Seq<PhotoView>, t: Timestamp, k: int) -> bool {
    &&& 0 <= k <= photos.len()
    &&& forall|j: int| 0 <= j < k ==> (#[trigger] photos[j]).created_at.micros > t.micros
    &&& k < photos.len() ==> photos[k].created_at.micros <= t.micros
}

pub open spec fn photo_slot(photos: Seq<PhotoView>, t: Timestamp) -> int {
    choose|k: int| is_photo_slot(photos, t, k)
}

/// Each photo together with the user it belongs to, in the order of the
/// photos.
pub open spec fn photos_with_owner(photos: Seq<PhotoView>, users: Seq<UserView>) -> Seq<
    (PhotoView, UserView),
> {
    Seq::new(photos.len(), |i: int| (photos[i], users[user_index(users, photos[i].user_id)]))
}

/// Each user together with the photos that belong to them, in the order of
/// the users.
pub open spec fn users_with_photos(users: Seq<UserView>, photos: Seq<PhotoView>) -> Seq<
    (UserView, Seq<PhotoView>),
> {
    Seq::new(users.len(), |i: int| (users[i], photos.filter(owned_by(users[i].id))))
}

/// The users are in order of creation, newest first.
pub open spec fn users_in_order(users: Seq<UserView>) -> bool {
    forall|i: int, j: int|
        #![trigger users[i], users[j]]
        0 <= i < j < users.len() ==> users[i].created_at.micros >= users[j].created_at.micros
}

/// The photos are in order of creation, newest first.
pub open spec fn photos_in_order(photos: Seq<PhotoView>) -> bool {
    forall|i: int, j: int|
        #![trigger photos[i], photos[j]]
        0 <= i < j < photos.len() ==> photos[i].created_at.micros >= photos[j].created_at.micros
}

/// What the store says when a row with the same primary key is already there.
pub open spec fn duplicate_key_text() -> Seq<char> {
    "duplicate entry for the primary key"@
}

/// What the store says when a photo names a user that is not there.
pub open spec fn missing_owner_text() -> Seq<char> {
    "foreign key constraint fails: no such user"@
}

impl StoreView {
    pub open spec fn user_ids_distinct(self) -> bool {
        forall|i: int, j: int|
            #![trigger self.users[i], self.users[j]]
            0 <= i < j < self.users.len() ==> self.users[i].id != self.users[j].id
    }

    pub open spec fn photo_ids_distinct(self) -> bool {
        forall|i: int, j: int|
            #![trigger self.photos[i], self.photos[j]]
            0 <= i < j < self.photos.len() ==> self.photos[i].id != self.photos[j].id
    }

    pub open spec fn owners_exist(self) -> bool {
        forall|i: int|
            0 <= i < self.photos.len() ==> has_user(self.users, (#[trigger] self.photos[i]).user_id)
    }

    pub open spec fn users_newest_first(self) -> bool {
        users_in_order(self.users)
    }

    pub open spec fn photos_newest_first(self) -> bool {
        photos_in_order(self.photos)
    }

    /// The constraints of the schema: primary keys, the foreign key from
    /// photos to users, and the order of the rows.
    pub open spec fn wf(self) -> bool {
        &&& self.user_ids_distinct()
        &&& self.photo_ids_distinct()
        &&& self.owners_exist()
        &&& self.users_newest_first()
        &&& self.photos_newest_first()
    }

    /// Every row holds what the data model asks of it: a name or an address
    /// that is not empty, and a last update that is not earlier than the
    /// creation.
    pub open spec fn rows_valid(self) -> bool {
        &&& forall|i: int| 0 <= i < self.users.len() ==> (#[trigger] self.users[i]).is_valid()
        &&& forall|i: int| 0 <= i < self.photos.len() ==> (#[trigger] self.photos[i]).is_valid()
    }

    /// No row was created later than `now`: the clock does not run behind
    /// the store.
    pub open spec fn created_by(self, now: Timestamp) -> bool {
        &&& forall|i: int|
            0 <= i < self.users.len() ==> (#[trigger] self.users[i]).created_at.micros <= now.micros
        &&& forall|i: int|
            0 <= i < self.photos.len() ==> (#[trigger] self.photos[i]).created_at.micros
                <= now.micros
    }

    /// The store after a user row was added.
    pub open spec fn insert_user(self, row: UserView) -> StoreView {
        StoreView { users: self.users.insert(user_slot(self.users, row.created_at), row), ..self }
    }

    /// The store after the name and update time of user `id` were written;
    /// the same store where there is no such user.
    pub open spec fn update_user(self, id: Seq<char>, name: Seq<char>, updated_at: Timestamp)
        -> StoreView {
        if has_user(self.users, id) {
            let i = user_index(self.users, id);
            StoreView { users: self.users.update(i, self.users[i].renamed(name, updated_at)), ..self }
        } else {
            self
        }
    }

    /// The store after user `id` was removed together with every photo
    /// that belonged to them.
    pub open spec fn delete_user(self, id: Seq<char>) -> StoreView {
        StoreView {
            users: self.users.filter(user_is_not(id)),
            photos: self.photos.filter(not_owned_by(id)),
        }
    }

    /// The store after a photo row was added.
    pub open spec fn insert_photo(self, row: PhotoView) -> StoreView {
        StoreView {
            photos: self.photos.insert(photo_slot(self.photos, row.created_at), row),
            ..self
        }
    }

    /// The store after the visibility and update time of photo `id` were
    /// written; the same store where there is no such photo.
    pub open spec fn update_photo(self, id: Seq<char>, is_public: bool, updated_at: Timestamp)
        -> StoreView {
        if has_photo(self.photos, id) {
            let i = photo_index(self.photos, id);
            StoreView {
                photos: self.photos.update(i, self.photos[i].with_visibility(is_public, updated_at)),
                ..self
            }
        } else {
            self
        }
    }

    /// The store after photo `id` was removed; the same store where there is
    /// no such photo.
    pub open spec fn delete_photo(self, id: Seq<char>) -> StoreView {
        if has_photo(self.photos, id) {
            StoreView { photos: self.photos.remove(photo_index(self.photos, id)), ..self }
        } else {
            self
        }
    }
}

impl View for Store {
    type V = StoreView;

    closed spec fn view(&self) -> StoreView {
        StoreView { users: self.users.deep_view(), photos: self.photos.deep_view() }
    }
}

/// Whether `id` is one of `ids`.
pub fn contains_id(ids: &Vec<String>, id: &String) -> (b: bool)
    ensures
        b == ids.deep_view().contains(id@),
{
    let mut i: usize = 0;
    while i < ids.len()
        invariant
            i <= ids.len(),
            forall|j: int| 0 <= j < i ==> ids.deep_view()[j] != id@,
        decreases ids.len() - i,
    {
        if ids[i] == *id {
            assert(ids.deep_view()[i as int] == id@);
            return true;
        }
        i += 1;
    }
    false
}

impl Store {
    /// A store without rows.
    pub fn new() -> (store: Self)
        ensures
            store@.users.len() == 0,
            store@.photos.len() == 0,
            store@.wf(),
    {
        Store { users: Vec::new(), photos: Vec::new() }
    }

    /// The rows of `users`, newest first.
    pub fn users(&self) -> (rows: &Vec<user::Entity>)
        ensures
            rows.deep_view() == self@.users,
    {
        &self.users
    }

    /// The rows of `photos`, newest first.
    pub fn photos(&self) -> (rows: &Vec<photo::Entity>)
        ensures
            rows.deep_view() == self@.photos,
    {
        &self.photos
    }

    /// The position of user `id` in the table.
    pub fn find_user(&self, id: &String) -> (found: Option<usize>)
        ensures
            match found {
                Some(i) => user_at(self@.users, id@, i as int),
                None => !has_user(self@.users, id@),
            },
    {
        let mut i: usize = 0;
        while i < self.users.len()
            invariant
                i <= self.users.len(),
                forall|j: int| 0 <= j < i ==> !user_at(self@.users, id@, j),
            decreases self.users.len() - i,
        {
            if self.users[i].id == *id {
                return Some(i);
            }
            i += 1;
        }
        None
    }

    /// The position of photo `id` in the table.
    pub fn find_photo(&self, id: &String) -> (found: Option<usize>)
        ensures
            match found {
                Some(i) => photo_at(self@.photos, id@, i as int),
                None => !has_photo(self@.photos, id@),
            },
    {
        let mut i: usize = 0;
        while i < self.photos.len()
            invariant
                i <= self.photos.len(),
                forall|j: int| 0 <= j < i ==> !photo_at(self@.photos, id@, j),
            decreases self.photos.len() - i,
        {
            if self.photos[i].id == *id {
                return Some(i);
            }
            i += 1;
        }
        None
    }

    /// The row of user `id`; `NotFound` where there is none.
    pub fn first_user(&self, id: &String) -> (res: Result<user::Entity, StoreError>)
        requires
            self@.wf(),
        ensures
            match res {
                Ok(row) => has_user(self@.users, id@) && row@ == self@.users[user_index(
                    self@.users,
                    id@,
                )],
                Err(e) => !has_user(self@.users, id@) && e == StoreError::NotFound,
            },
    {
        match self.find_user(id) {
            Some(i) => {
                proof {
                    lemma_user_index(self@, id@, i as int);
                }
                Ok(self.users[i].clone())
            },
            None => Err(StoreError::NotFound),
        }
    }

    /// The row of photo `id`; `NotFound` where there is none.
    pub fn first_photo(&self, id: &String) -> (res: Result<photo::Entity, StoreError>)
        requires
            self@.wf(),
        ensures
            match res {
                Ok(row) => has_photo(self@.photos, id@) && row@ == self@.photos[photo_index(
                    self@.photos,
                    id@,
                )],
                Err(e) => !has_photo(self@.photos, id@) && e == StoreError::NotFound,
            },
    {
        match self.find_photo(id) {
            Some(i) => {
                proof {
                    lemma_photo_index(self@, id@, i as int);
                }
                Ok(self.photos[i].clone())
            },
            None => Err(StoreError::NotFound),
        }
    }

    /// Every user but `exclude_id`, newest first.
    pub fn load_users_except(&self, exclude_id: &String) -> (res: Result<
        Vec<user::Entity>,
        StoreError,
    >)
        ensures
            res matches Ok(rows) && rows.deep_view() == self@.users.filter(
                user_is_not(exclude_id@),
            ),
    {
        let mut rows: Vec<user::Entity> = Vec::new();
        let mut i: usize = 0;
        assert(self@.users.take(0).filter(user_is_not(exclude_id@)) =~= Seq::empty()) by {
            reveal(Seq::filter);
        }
        while i < self.users.len()
            invariant
                i <= self.users.len(),
                rows.deep_view() =~= self@.users.take(i as int).filter(user_is_not(exclude_id@)),
            decreases self.users.len() - i,
        {
            proof {
                lemma_filter_step(self@.users, user_is_not(exclude_id@), i as int);
            }
            if self.users[i].id != *exclude_id {
                rows.push(self.users[i].clone());
            }
            i += 1;
        }
        assert(self@.users.take(i as int) =~= self@.users);
        Ok(rows)
    }

    /// The users whose identifier is one of `ids`, newest first.
    pub fn load_users_among(&self, ids: &Vec<String>) -> (res: Result<
        Vec<user::Entity>,
        StoreError,
    >)
        ensures
            res matches Ok(rows) && rows.deep_view() == self@.users.filter(
                user_among(ids.deep_view()),
            ),
    {
        let mut rows: Vec<user::Entity> = Vec::new();
        let mut i: usize = 0;
        assert(self@.users.take(0).filter(user_among(ids.deep_view())) =~= Seq::empty()) by {
            reveal(Seq::filter);
        }
        while i < self.users.len()
            invariant
                i <= self.users.len(),
                rows.deep_view() =~= self@.users.take(i as int).filter(
                    user_among(ids.deep_view()),
                ),
            decreases self.users.len() - i,
        {
            proof {
                lemma_filter_step(self@.users, user_among(ids.deep_view()), i as int);
            }
            if contains_id(ids, &self.users[i].id) {
                rows.push(self.users[i].clone());
            }
            i += 1;
        }
        assert(self@.users.take(i as int) =~= self@.users);
        Ok(rows)
    }

    /// The photos of `user_id`, newest first.
    pub fn load_photos_by_user(&self, user_id: &String) -> (res: Result<
        Vec<photo::Entity>,
        StoreError,
    >)
        ensures
            res matches Ok(rows) && rows.deep_view() == self@.photos.filter(owned_by(user_id@)),
    {
        let mut rows: Vec<photo::Entity> = Vec::new();
        let mut i: usize = 0;
        assert(self@.photos.take(0).filter(owned_by(user_id@)) =~= Seq::empty()) by {
            reveal(Seq::filter);
        }
        while i < self.photos.len()
            invariant
                i <= self.photos.len(),
                rows.deep_view() =~= self@.photos.take(i as int).filter(owned_by(user_id@)),
            decreases self.photos.len() - i,
        {
            proof {
                lemma_filter_step(self@.photos, owned_by(user_id@), i as int);
            }
            if self.photos[i].user_id == *user_id {
                rows.push(self.photos[i].clone());
            }
            i += 1;
        }
        assert(self@.photos.take(i as int) =~= self@.photos);
        Ok(rows)
    }

    /// The photos that belong to one of `user_ids`, newest first.
    pub fn load_photos_among(&self, user_ids: &Vec<String>) -> (res: Result<
        Vec<photo::Entity>,
        StoreError,
    >)
        ensures
            res matches Ok(rows) && rows.deep_view() == self@.photos.filter(
                owned_by_any(user_ids.deep_view()),
            ),
    {
        let mut rows: Vec<photo::Entity> = Vec::new();
        let mut i: usize = 0;
        assert(self@.photos.take(0).filter(owned_by_any(user_ids.deep_view())) =~= Seq::empty())
            by {
            reveal(Seq::filter);
        }
        while i < self.photos.len()
            invariant
                i <= self.photos.len(),
                rows.deep_view() =~= self@.photos.take(i as int).filter(
                    owned_by_any(user_ids.deep_view()),
                ),
            decreases self.photos.len() - i,
        {
            proof {
                lemma_filter_step(self@.photos, owned_by_any(user_ids.deep_view()), i as int);
            }
            if contains_id(user_ids, &self.photos[i].user_id) {
                rows.push(self.photos[i].clone());
            }
            i += 1;
        }
        assert(self@.photos.take(i as int) =~= self@.photos);
        Ok(rows)
    }

    /// Every photo joined with the user it belongs to, newest photo first.
    pub fn load_photos_with_user(&self) -> (res: Result<
        Vec<(photo::Entity, user::Entity)>,
        StoreError,
    >)
        requires
            self@.wf(),
        ensures
            res matches Ok(rows) && rows.deep_view() == photos_with_owner(
                self@.photos,
                self@.users,
            ),
    {
        let mut rows: Vec<(photo::Entity, user::Entity)> = Vec::new();
        let mut i: usize = 0;
        while i < self.photos.len()
            invariant
                self@.wf(),
                i <= self.photos.len(),
                rows.deep_view() =~= photos_with_owner(self@.photos, self@.users).take(i as int),
            decreases self.photos.len() - i,
        {
            assert(has_user(self@.users, self@.photos[i as int].user_id));
            if let Ok(owner) = self.first_user(&self.photos[i].user_id) {
                let pair = (self.photos[i].clone(), owner);
                let ghost joined = photos_with_owner(self@.photos, self@.users);
                let ghost before = rows.deep_view();
                assert(pair.deep_view() == joined[i as int]);
                assert(before.len() == i);
                rows.push(pair);
                assert forall|j: int| 0 <= j <= i implies rows.deep_view()[j] == joined[j] by {
                    if j < i {
                        assert(rows.deep_view()[j] == before[j]);
                    }
                }
            }
            i += 1;
        }
        assert(photos_with_owner(self@.photos, self@.users).take(i as int) =~= photos_with_owner(
            self@.photos,
            self@.users,
        ));
        Ok(rows)
    }

    /// Every user joined with the photos that belong to them, newest user
    /// first and, for each user, newest photo first.
    pub fn load_users_with_photos(&self) -> (res: Result<
        Vec<(user::Entity, Vec<photo::Entity>)>,
        StoreError,
    >)
        ensures
            res matches Ok(rows) && rows.deep_view() == users_with_photos(
                self@.users,
                self@.photos,
            ),
    {
        let mut rows: Vec<(user::Entity, Vec<photo::Entity>)> = Vec::new();
        let mut i: usize = 0;
        while i < self.users.len()
            invariant
                i <= self.users.len(),
                rows.deep_view() =~= users_with_photos(self@.users, self@.photos).take(i as int),
            decreases self.users.len() - i,
        {
            if let Ok(owned) = self.load_photos_by_user(&self.users[i].id) {
                let pair = (self.users[i].clone(), owned);
                let ghost joined = users_with_photos(self@.users, self@.photos);
                let ghost before = rows.deep_view();
                assert(pair.deep_view() == joined[i as int]);
                assert(before.len() == i);
                rows.push(pair);
                assert forall|j: int| 0 <= j <= i implies rows.deep_view()[j] == joined[j] by {
                    if j < i {
                        assert(rows.deep_view()[j] == before[j]);
                    }
                }
            }
            i += 1;
        }
        assert(users_with_photos(self@.users, self@.photos).take(i as int) =~= users_with_photos(
            self@.users,
            self@.photos,
        ));
        Ok(rows)
    }

    /// A copy of the store as it is now.
    pub fn snapshot(&self) -> (copy: Self)
        ensures
            copy@ == self@,
    {
        let users = self.users.clone();
        let photos = self.photos.clone();
        assert(users@ =~= self.users@);
        assert(photos@ =~= self.photos@);
        Store { users, photos }
    }

    /// Adds a row to `users`. Fails, and changes nothing, where the
    /// identifier is taken. Returns the number of rows written.
    pub fn insert_user(&mut self, row: user::Entity) -> (res: Result<usize, StoreError>)
        requires
            old(self)@.wf(),
        ensures
            final(self)@.wf(),
            match res {
                Ok(n) => n == 1 && !has_user(old(self)@.users, row@.id) && final(self)@ == old(
                    self,
                )@.insert_user(row@),
                Err(e) => {
                    &&& has_user(old(self)@.users, row@.id)
                    &&& final(self)@ == old(self)@
                    &&& e matches StoreError::Other(m)
                    &&& m@ == duplicate_key_text()
                },
            },
    {
        if self.find_user(&row.id).is_some() {
            return Err(StoreError::Other(String::from_str("duplicate entry for the primary key")));
        }
        let mut k: usize = 0;
        while k < self.users.len() && self.users[k].created_at.micros > row.created_at.micros
            invariant
                k <= self.users.len(),
                forall|j: int|
                    0 <= j < k ==> (#[trigger] self@.users[j]).created_at.micros
                        > row.created_at.micros,
            decreases self.users.len() - k,
        {
            k += 1;
        }
        proof {
            assert(is_user_slot(self@.users, row.created_at, k as int));
            lemma_user_slot(self@.users, row.created_at, k as int);
            lemma_insert_user_wf(self@, row@);
        }
        let ghost before = self@;
        let ghost added = row@;
        self.users.insert(k, row);
        assert(self@.users =~= before.users.insert(k as int, added));
        Ok(1)
    }

    /// Writes the name and update time of user `id`. Returns the number of
    /// rows that the statement matched, whether or not their values changed:
    /// none where there is no such user.
    pub fn update_user(&mut self, id: &String, name: String, updated_at: Timestamp) -> (res:
        Result<usize, StoreError>)
        requires
            old(self)@.wf(),
        ensures
            final(self)@.wf(),
            final(self)@ == old(self)@.update_user(id@, name@, updated_at),
            res matches Ok(n) && n == (if has_user(old(self)@.users, id@) {
                1usize
            } else {
                0usize
            }),
    {
        proof {
            lemma_update_user_wf(self@, id@, name@, updated_at);
        }
        match self.find_user(id) {
            Some(i) => {
                proof {
                    lemma_user_index(self@, id@, i as int);
                }
                let ghost before = self@;
                let row = user::Entity {
                    id: self.users[i].id.clone(),
                    name,
                    created_at: self.users[i].created_at,
                    updated_at,
                };
                self.users[i] = row;
                assert(self@.users =~= before.users.update(
                    i as int,
                    before.users[i as int].renamed(name@, updated_at),
                ));
                Ok(1)
            },
            None => Ok(0),
        }
    }

    /// Removes user `id` and, with them, every photo they own. Returns the
    /// number of user rows removed: none where there is no such user.
    pub fn delete_user(&mut self, id: &String) -> (res: Result<usize, StoreError>)
        requires
            old(self)@.wf(),
        ensures
            final(self)@.wf(),
            final(self)@ == old(self)@.delete_user(id@),
            res matches Ok(n) && n == (if has_user(old(self)@.users, id@) {
                1usize
            } else {
                0usize
            }),
    {
        proof {
            lemma_delete_user_wf(self@, id@);
        }
        let n: usize = if self.find_user(id).is_some() {
            1
        } else {
            0
        };
        let ghost before = self@;
        let mut users: Vec<user::Entity> = Vec::new();
        let mut i: usize = 0;
        assert(before.users.take(0).filter(user_is_not(id@)) =~= Seq::empty()) by {
            reveal(Seq::filter);
        }
        while i < self.users.len()
            invariant
                self@ == before,
                i <= self.users.len(),
                users.deep_view() =~= before.users.take(i as int).filter(user_is_not(id@)),
            decreases self.users.len() - i,
        {
            proof {
                lemma_filter_step(before.users, user_is_not(id@), i as int);
            }
            if self.users[i].id != *id {
                users.push(self.users[i].clone());
            }
            i += 1;
        }
        assert(before.users.take(i as int) =~= before.users);
        let mut photos: Vec<photo::Entity> = Vec::new();
        let mut j: usize = 0;
        assert(before.photos.take(0).filter(not_owned_by(id@)) =~= Seq::empty()) by {
            reveal(Seq::filter);
        }
        while j < self.photos.len()
            invariant
                self@ == before,
                j <= self.photos.len(),
                photos.deep_view() =~= before.photos.take(j as int).filter(not_owned_by(id@)),
            decreases self.photos.len() - j,
        {
            proof {
                lemma_filter_step(before.photos, not_owned_by(id@), j as int);
            }
            if self.photos[j].user_id != *id {
                photos.push(self.photos[j].clone());
            }
            j += 1;
        }
        assert(before.photos.take(j as int) =~= before.photos);
        self.users = users;
        self.photos = photos;
        Ok(n)
    }

    /// Adds a row to `photos`. Fails, and changes nothing, where the
    /// identifier is taken or the owner does not exist. Returns the number
    /// of rows written.
    pub fn insert_photo(&mut self, row: photo::Entity) -> (res: Result<usize, StoreError>)
        requires
            old(self)@.wf(),
        ensures
            final(self)@.wf(),
            match res {
                Ok(n) => n == 1 && !has_photo(old(self)@.photos, row@.id) && has_user(
                    old(self)@.users,
                    row@.user_id,
                ) && final(self)@ == old(self)@.insert_photo(row@),
                Err(e) => {
                    &&& final(self)@ == old(self)@
                    &&& e matches StoreError::Other(m)
                    &&& if has_photo(old(self)@.photos, row@.id) {
                        m@ == duplicate_key_text()
                    } else {
                        !has_user(old(self)@.users, row@.user_id) && m@ == missing_owner_text()
                    }
                },
            },
    {
        if self.find_photo(&row.id).is_some() {
            return Err(StoreError::Other(String::from_str("duplicate entry for the primary key")));
        }
        if self.find_user(&row.user_id).is_none() {
            return Err(
                StoreError::Other(String::from_str("foreign key constraint fails: no such user")),
            );
        }
        let mut k: usize = 0;
        while k < self.photos.len() && self.photos[k].created_at.micros > row.created_at.micros
            invariant
                k <= self.photos.len(),
                forall|j: int|
                    0 <= j < k ==> (#[trigger] self@.photos[j]).created_at.micros
                        > row.created_at.micros,
            decreases self.photos.len() - k,
        {
            k += 1;
        }
        proof {
            assert(is_photo_slot(self@.photos, row.created_at, k as int));
            lemma_photo_slot(self@.photos, row.created_at, k as int);
            lemma_insert_photo_wf(self@, row@);
        }
        let ghost before = self@;
        let ghost added = row@;
        self.photos.insert(k, row);
        assert(self@.photos =~= before.photos.insert(k as int, added));
        Ok(1)
    }

    /// Writes the visibility and update time of photo `id`. Returns the
    /// number of rows that the statement matched, whether or not their
    /// values changed: none where there is no such photo.
    pub fn update_photo(&mut self, id: &String, is_public: bool, updated_at: Timestamp) -> (res:
        Result<usize, StoreError>)
        requires
            old(self)@.wf(),
        ensures
            final(self)@.wf(),
            final(self)@ == old(self)@.update_photo(id@, is_public, updated_at),
            res matches Ok(n) && n == (if has_photo(old(self)@.photos, id@) {
                1usize
            } else {
                0usize
            }),
    {
        proof {
            lemma_update_photo_wf(self@, id@, is_public, updated_at);
        }
        match self.find_photo(id) {
            Some(i) => {
                proof {
                    lemma_photo_index(self@, id@, i as int);
                }
                let ghost before = self@;
                let row = photo::Entity {
                    id: self.photos[i].id.clone(),
                    user_id: self.photos[i].user_id.clone(),
                    url: self.photos[i].url.clone(),
                    is_public,
                    created_at: self.photos[i].created_at,
                    updated_at,
                };
                self.photos[i] = row;
                assert(self@.photos =~= before.photos.update(
                    i as int,
                    before.photos[i as int].with_visibility(is_public, updated_at),
                ));
                Ok(1)
            },
            None => Ok(0),
        }
    }

    /// Removes photo `id`. Returns the number of rows removed: none where
    /// there is no such photo.
    pub fn delete_photo(&mut self, id: &String) -> (res: Result<usize, StoreError>)
        requires
            old(self)@.wf(),
        ensures
            final(self)@.wf(),
            final(self)@ == old(self)@.delete_photo(id@),
            res matches Ok(n) && n == (if has_photo(old(self)@.photos, id@) {
                1usize
            } else {
                0usize
            }),
    {
        proof {
            lemma_delete_photo_wf(self@, id@);
        }
        match self.find_photo(id) {
            Some(i) => {
                proof {
                    lemma_photo_index(self@, id@, i as int);
                }
                let ghost before = self@;
                self.photos.remove(i);
                assert(self@.photos =~= before.photos.remove(i as int));
                Ok(1)
            },
            None => Ok(0),
        }
    }
}

} // verus!
