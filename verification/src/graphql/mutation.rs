//! The resolvers of the mutations.

use crate::ddb::laws::{
    lemma_delete_photo_keeps_rows_valid, lemma_delete_user_keeps_rows_valid,
    lemma_insert_photo_keeps_rows_valid, lemma_insert_user_keeps_rows_valid,
    lemma_photo_read_after_write, lemma_update_photo_keeps_rows_valid,
    lemma_update_user_keeps_rows_valid, lemma_user_read_after_write,
};
use crate::ddb::schema::{
    has_photo, has_user, photo_at, photo_index, user_at, user_index, Store, StoreView,
};
use crate::ddb::{DaoError, DaoErrorView, DaoResult, Tx};
use crate::domain;
use crate::domain::photo::PhotoView;
use crate::domain::user::UserView;
use crate::domain::{is_hyphenated_token, Timestamp};
use crate::graphql::me::Me;
use crate::graphql::photo::Photo;
use crate::graphql::errors::{FieldErrorCode, FieldErrorView, FieldErrorWithCode};
use crate::graphql::{
    authenticated, entitled, required, Context, CreatePhotoInput, DeletePhotoInput, FieldResult,
    SignUpInput, UpdatePhotoInput, UpdateUserInput,
};
use vstd::prelude::*;

verus! {

pub struct Mutation;

/// What `updatePhoto` does to the store and what it answers, for a caller
/// that is known: the visibility of the caller's own photo is set and the
/// time recorded; a photo that is absent or someone else's is left alone.
pub open spec fn update_photo_outcome(
    store: StoreView,
    caller: Seq<char>,
    id: Seq<char>,
    is_public: bool,
    now: Timestamp,
) -> (StoreView, Result<PhotoView, DaoErrorView>) {
    if !has_photo(store.photos, id) {
        (store, Err(DaoErrorView::NotFound))
    } else {
        let photo = store.photos[photo_index(store.photos, id)];
        if photo.user_id != caller {
            (store, Err(DaoErrorView::Forbidden))
        } else {
            (
                store.update_photo(id, is_public, now),
                Ok(photo.with_visibility(is_public, now)),
            )
        }
    }
}

/// What `updateUser` does to the store and what it answers, for a caller
/// that is known and a name that is not empty: the caller's name is set and
/// the time recorded; a caller without a row is `NotFound`.
pub open spec fn update_user_outcome(
    store: StoreView,
    caller: Seq<char>,
    name: Seq<char>,
    now: Timestamp,
) -> (StoreView, Result<UserView, DaoErrorView>) {
    if !has_user(store.users, caller) {
        (store, Err(DaoErrorView::NotFound))
    } else {
        (
            store.update_user(caller, name, now),
            Ok(store.users[user_index(store.users, caller)].renamed(name, now)),
        )
    }
}

/// What `deletePhoto` does to the store and what it answers, for a caller
/// that is known: the caller's own photo is removed; a photo that is absent
/// is `NotFound`, and a photo of someone else is `Forbidden` and stays.
pub open spec fn delete_photo_outcome(store: StoreView, caller: Seq<char>, id: Seq<char>) -> (
    StoreView,
    Result<bool, DaoErrorView>,
) {
    if !has_photo(store.photos, id) {
        (store, Err(DaoErrorView::NotFound))
    } else if store.photos[photo_index(store.photos, id)].user_id != caller {
        (store, Err(DaoErrorView::Forbidden))
    } else {
        (store.delete_photo(id), Ok(true))
    }
}

/// Some user is stored under an identifier in the canonical form. Only then
/// can a freshly drawn identifier be taken.
pub open spec fn a_user_holds_a_token(users: Seq<UserView>) -> bool {
    exists|id: Seq<char>| is_hyphenated_token(id) && #[trigger] has_user(users, id)
}

/// Some photo is stored under an identifier in the canonical form. Only then
/// can a freshly drawn identifier be taken.
pub open spec fn a_photo_holds_a_token(photos: Seq<PhotoView>) -> bool {
    exists|id: Seq<char>| is_hyphenated_token(id) && #[trigger] has_photo(photos, id)
}

impl Mutation {
    /// The user that `signUp` stores: of the given name, under a fresh
    /// identifier, created at `now`. An empty name is a bad request.
    pub fn new_user(input: SignUpInput, now: Timestamp) -> (res: FieldResult<domain::user::User>)
        ensures
            match res {
                Ok(user) => {
                    &&& input.name@.len() > 0
                    &&& is_hyphenated_token(user@.id)
                    &&& user@ == (UserView {
                        id: user@.id,
                        name: input.name@,
                        created_at: now,
                        updated_at: now,
                    })
                },
                Err(e) => input.name@.len() == 0 && e@ == FieldErrorView::of(
                    FieldErrorCode::BadRequest,
                ),
            },
    {
        let name: String = input.name;
        match required(&name) {
            Ok(_) => Ok(domain::user::User::new(name, now)),
            Err(e) => Err(e),
        }
    }

    /// Who asks for `updateUser` and the name they ask for. A request
    /// without identity is turned away first; then an empty name is a bad
    /// request.
    pub fn renaming(identity: &Option<String>, input: UpdateUserInput) -> (res: FieldResult<
        (String, String),
    >)
        ensures
            match identity {
                None => res matches Err(e) && e@ == FieldErrorView::of(
                    FieldErrorCode::UnAuthenticate,
                ),
                Some(caller) => if input.name@.len() == 0 {
                    res matches Err(e) && e@ == FieldErrorView::of(FieldErrorCode::BadRequest)
                } else {
                    res matches Ok(asked) && asked.0@ == caller@ && asked.1@ == input.name@
                },
            },
    {
        let caller = match authenticated(identity) {
            Ok(caller) => caller,
            Err(e) => {
                return Err(e);
            },
        };
        let name: String = input.name;
        match required(&name) {
            Ok(_) => Ok((caller, name)),
            Err(e) => Err(e),
        }
    }

    /// The photo that `createPhoto` stores: of the caller, under a fresh
    /// identifier, created at `now`. A request without identity is turned
    /// away first; then an empty address is a bad request.
    pub fn new_photo(identity: &Option<String>, input: CreatePhotoInput, now: Timestamp) -> (res:
        FieldResult<domain::photo::Photo>)
        ensures
            match identity {
                None => res matches Err(e) && e@ == FieldErrorView::of(
                    FieldErrorCode::UnAuthenticate,
                ),
                Some(caller) => if input.url@.len() == 0 {
                    res matches Err(e) && e@ == FieldErrorView::of(FieldErrorCode::BadRequest)
                } else {
                    &&& res matches Ok(photo)
                    &&& is_hyphenated_token(photo@.id)
                    &&& photo@ == (PhotoView {
                        id: photo@.id,
                        user_id: caller@,
                        url: input.url@,
                        is_public: input.is_public,
                        created_at: now,
                        updated_at: now,
                    })
                },
            },
    {
        let caller = match authenticated(identity) {
            Ok(caller) => caller,
            Err(e) => {
                return Err(e);
            },
        };
        let url: String = input.url;
        match required(&url) {
            Ok(_) => Ok(domain::photo::Photo::new(caller, url, input.is_public, now)),
            Err(e) => Err(e),
        }
    }

    /// The user to write back for `updateUser`, from what was read: the
    /// same user under the new name, updated at `now`.
    pub fn renamed(found: DaoResult<domain::user::User>, name: String, now: Timestamp) -> (res:
        DaoResult<domain::user::User>)
        ensures
            match found {
                Ok(user) => res matches Ok(renamed) && renamed@ == user@.renamed(name@, now),
                Err(e) => res == Err::<domain::user::User, DaoError>(e),
            },
    {
        match found {
            Ok(user) => {
                let mut user = user;
                user.update(name, now);
                Ok(user)
            },
            Err(e) => Err(e),
        }
    }

    /// Stores a user that has just been made and answers with them, without
    /// photos. An identifier that is taken is an internal error.
    pub fn enroll(&self, ctx: &mut Context, user: domain::user::User) -> (res: FieldResult<Me>)
        requires
            old(ctx).wf(),
        ensures
            final(ctx).wf(),
            final(ctx).authorized_user_id == old(ctx).authorized_user_id,
            old(ctx).connection@.rows_valid() && user@.is_valid() ==> final(ctx).connection@.rows_valid(),
            match res {
                Ok(me) => {
                    &&& !has_user(old(ctx).connection@.users, user@.id)
                    &&& final(ctx).connection@ == old(ctx).connection@.insert_user(user@)
                    &&& me.user@ == user@
                    &&& me.photos.len() == 0
                },
                Err(e) => {
                    &&& has_user(old(ctx).connection@.users, user@.id)
                    &&& final(ctx).connection@ == old(ctx).connection@
                    &&& e@ == FieldErrorView::of(FieldErrorCode::Internal)
                },
            },
    {
        proof {
            if ctx.connection@.rows_valid() && user@.is_valid() {
                lemma_insert_user_keeps_rows_valid(ctx.connection@, user@);
            }
        }
        let user_dao = ctx.ddb_dao::<domain::user::User>();
        match user_dao.insert(&mut ctx.connection, user) {
            Ok(user) => Ok(Me { user, photos: Vec::new() }),
            Err(e) => Err(FieldErrorWithCode::from(e)),
        }
    }

    /// `signUp`: makes a user of the given name under a fresh identifier.
    /// An empty name is a bad request, and nothing is stored. A name that is
    /// not empty fails only if the identifier that was drawn is taken, which
    /// takes a user stored under an identifier of that form: on a store
    /// without one, signing up succeeds.
    pub fn field_sign_up(&self, ctx: &mut Context, input: SignUpInput, now: Timestamp) -> (res:
        FieldResult<Me>)
        requires
            old(ctx).wf(),
        ensures
            final(ctx).wf(),
            final(ctx).authorized_user_id == old(ctx).authorized_user_id,
            old(ctx).connection@.rows_valid() ==> final(ctx).connection@.rows_valid(),
            match res {
                Ok(me) => {
                    &&& input.name@.len() > 0
                    &&& is_hyphenated_token(me.user@.id)
                    &&& me.user@ == (UserView {
                        id: me.user@.id,
                        name: input.name@,
                        created_at: now,
                        updated_at: now,
                    })
                    &&& me.photos.len() == 0
                    &&& !has_user(old(ctx).connection@.users, me.user@.id)
                    &&& final(ctx).connection@ == old(ctx).connection@.insert_user(me.user@)
                },
                Err(e) => {
                    &&& final(ctx).connection@ == old(ctx).connection@
                    &&& e@ == FieldErrorView::of(
                        if input.name@.len() == 0 {
                            FieldErrorCode::BadRequest
                        } else {
                            FieldErrorCode::Internal
                        },
                    )
                    &&& input.name@.len() > 0 ==> a_user_holds_a_token(old(ctx).connection@.users)
                },
            },
    {
        match Mutation::new_user(input, now) {
            Ok(user) => self.enroll(ctx, user),
            Err(e) => Err(e),
        }
    }

    /// `updateUser`: changes the caller's own name, as one unit of work.
    /// The caller's identity is asked for first, then the name is validated.
    pub fn field_update_user(&self, ctx: &mut Context, input: UpdateUserInput, now: Timestamp) -> (res:
        FieldResult<Me>)
        requires
            old(ctx).wf(),
        ensures
            final(ctx).wf(),
            final(ctx).authorized_user_id == old(ctx).authorized_user_id,
            old(ctx).connection@.rows_valid() && old(ctx).connection@.created_by(now) ==> final(ctx).connection@.rows_valid(),
            match old(ctx).authorized_user_id {
                None => {
                    &&& final(ctx).connection@ == old(ctx).connection@
                    &&& res matches Err(e)
                    &&& e@ == FieldErrorView::of(FieldErrorCode::UnAuthenticate)
                },
                Some(caller) => if input.name@.len() == 0 {
                    &&& final(ctx).connection@ == old(ctx).connection@
                    &&& res matches Err(e)
                    &&& e@ == FieldErrorView::of(FieldErrorCode::BadRequest)
                } else {
                    let expected = update_user_outcome(
                        old(ctx).connection@,
                        caller@,
                        input.name@,
                        now,
                    );
                    &&& final(ctx).connection@ == expected.0
                    &&& match expected.1 {
                        Ok(user) => res matches Ok(me) && me.user@ == user && me.photos.len() == 0,
                        Err(e) => res matches Err(err) && err@ == FieldErrorView::of(
                            FieldErrorCode::of(e),
                        ),
                    }
                },
            },
    {
        let (caller, name) = match Mutation::renaming(&ctx.authorized_user_id, input) {
            Ok(asked) => asked,
            Err(e) => {
                return Err(e);
            },
        };
        let user_dao = ctx.ddb_dao::<domain::user::User>();
        proof {
            let store = ctx.connection@;
            if store.rows_valid() && store.created_by(now) && has_user(store.users, caller@) && name@.len() > 0 {
                assert(user_at(store.users, caller@, user_index(store.users, caller@)));
                lemma_update_user_keeps_rows_valid(store, caller@, name@, now);
            }
        }
        let ghost wanted = name@;
        let body = |conn: &mut Store| -> (r: DaoResult<domain::user::User>)
            requires
                old(conn)@.wf(),
            ensures
                final(conn)@.wf(),
                match r {
                    Ok(user) => {
                        &&& update_user_outcome(old(conn)@, caller@, wanted, now).1 == Ok::<
                            UserView,
                            DaoErrorView,
                        >(user@)
                        &&& final(conn)@ == update_user_outcome(old(conn)@, caller@, wanted, now).0
                    },
                    Err(e) => update_user_outcome(old(conn)@, caller@, wanted, now).1 == Err::<
                        UserView,
                        DaoErrorView,
                    >(e@),
                },
            {
                let found = user_dao.get(conn, caller.clone());
                match Mutation::renamed(found, name, now) {
                    Ok(user) => user_dao.update(conn, user),
                    Err(e) => Err(e),
                }
            };
        match Tx::run(&mut ctx.connection, body) {
            Ok(user) => Ok(Me { user, photos: Vec::new() }),
            Err(e) => Err(FieldErrorWithCode::from(e)),
        }
    }

    /// `leave`: removes the caller's account and, with it, every photo the
    /// caller owns. Succeeds whether or not the account was there.
    pub fn field_leave(&self, ctx: &mut Context) -> (res: FieldResult<bool>)
        requires
            old(ctx).wf(),
        ensures
            final(ctx).wf(),
            final(ctx).authorized_user_id == old(ctx).authorized_user_id,
            old(ctx).connection@.rows_valid() ==> final(ctx).connection@.rows_valid(),
            match old(ctx).authorized_user_id {
                None => {
                    &&& final(ctx).connection@ == old(ctx).connection@
                    &&& res matches Err(e)
                    &&& e@ == FieldErrorView::of(FieldErrorCode::UnAuthenticate)
                },
                Some(caller) => {
                    &&& final(ctx).connection@ == old(ctx).connection@.delete_user(caller@)
                    &&& res matches Ok(done)
                    &&& done
                },
            },
    {
        let caller = match authenticated(&ctx.authorized_user_id) {
            Ok(caller) => caller,
            Err(e) => {
                return Err(e);
            },
        };
        proof {
            if ctx.connection@.rows_valid() {
                lemma_delete_user_keeps_rows_valid(ctx.connection@, caller@);
            }
        }
        let user_dao = ctx.ddb_dao::<domain::user::User>();
        match user_dao.delete(&mut ctx.connection, caller) {
            Ok(_) => Ok(true),
            Err(e) => Err(FieldErrorWithCode::from(e)),
        }
    }

    /// Stores a photo that has just been made and answers with it, without
    /// its owner. An identifier that is taken, or an owner without a row, is
    /// an internal error.
    pub fn post(&self, ctx: &mut Context, photo: domain::photo::Photo) -> (res: FieldResult<Photo>)
        requires
            old(ctx).wf(),
        ensures
            final(ctx).wf(),
            final(ctx).authorized_user_id == old(ctx).authorized_user_id,
            old(ctx).connection@.rows_valid() && photo@.is_valid() ==> final(ctx).connection@.rows_valid(),
            match res {
                Ok(out) => {
                    &&& !has_photo(old(ctx).connection@.photos, photo@.id)
                    &&& has_user(old(ctx).connection@.users, photo@.user_id)
                    &&& final(ctx).connection@ == old(ctx).connection@.insert_photo(photo@)
                    &&& out.photo@ == photo@
                    &&& out.user is None
                },
                Err(e) => {
                    &&& has_photo(old(ctx).connection@.photos, photo@.id) || !has_user(
                        old(ctx).connection@.users,
                        photo@.user_id,
                    )
                    &&& final(ctx).connection@ == old(ctx).connection@
                    &&& e@ == FieldErrorView::of(FieldErrorCode::Internal)
                },
            },
    {
        proof {
            if ctx.connection@.rows_valid() && photo@.is_valid() {
                lemma_insert_photo_keeps_rows_valid(ctx.connection@, photo@);
            }
        }
        let photo_dao = ctx.ddb_dao::<domain::photo::Photo>();
        match photo_dao.insert(&mut ctx.connection, &photo) {
            Ok(_) => Ok(Photo { photo, user: None }),
            Err(e) => Err(FieldErrorWithCode::from(e)),
        }
    }

    /// `createPhoto`: makes a photo of the caller under a fresh identifier.
    /// The caller's identity is asked for first; an empty address is a bad
    /// request; nothing is stored on either. For a caller that is known and
    /// an address that is not empty it fails only if the caller has no row,
    /// or if the identifier that was drawn is taken, which takes a photo
    /// stored under an identifier of that form.
    pub fn field_create_photo(&self, ctx: &mut Context, input: CreatePhotoInput, now: Timestamp)
        -> (res: FieldResult<Photo>)
        requires
            old(ctx).wf(),
        ensures
            final(ctx).wf(),
            final(ctx).authorized_user_id == old(ctx).authorized_user_id,
            old(ctx).connection@.rows_valid() ==> final(ctx).connection@.rows_valid(),
            match old(ctx).authorized_user_id {
                None => {
                    &&& final(ctx).connection@ == old(ctx).connection@
                    &&& res matches Err(e)
                    &&& e@ == FieldErrorView::of(FieldErrorCode::UnAuthenticate)
                },
                Some(caller) => match res {
                    Ok(out) => {
                        &&& input.url@.len() > 0
                        &&& is_hyphenated_token(out.photo@.id)
                        &&& out.photo@ == (PhotoView {
                            id: out.photo@.id,
                            user_id: caller@,
                            url: input.url@,
                            is_public: input.is_public,
                            created_at: now,
                            updated_at: now,
                        })
                        &&& out.user is None
                        &&& !has_photo(old(ctx).connection@.photos, out.photo@.id)
                        &&& has_user(old(ctx).connection@.users, caller@)
                        &&& final(ctx).connection@ == old(ctx).connection@.insert_photo(out.photo@)
                    },
                    Err(e) => {
                        &&& final(ctx).connection@ == old(ctx).connection@
                        &&& e@ == FieldErrorView::of(
                            if input.url@.len() == 0 {
                                FieldErrorCode::BadRequest
                            } else {
                                FieldErrorCode::Internal
                            },
                        )
                        &&& input.url@.len() > 0 ==> !has_user(old(ctx).connection@.users, caller@)
                            || a_photo_holds_a_token(old(ctx).connection@.photos)
                    },
                },
            },
    {
        match Mutation::new_photo(&ctx.authorized_user_id, input, now) {
            Ok(photo) => self.post(ctx, photo),
            Err(e) => Err(e),
        }
    }

    /// Whether the caller may delete the photo that was read: only where it
    /// is there and is the caller's own.
    pub fn deletable(caller: &String, found: DaoResult<domain::photo::Photo>) -> (res: DaoResult<()>)
        ensures
            match found {
                Ok(photo) => if photo@.user_id == caller@ {
                    res is Ok
                } else {
                    res == Err::<(), DaoError>(DaoError::Forbidden)
                },
                Err(e) => res == Err::<(), DaoError>(e),
            },
    {
        match entitled(caller, found) {
            Ok(_) => Ok(()),
            Err(e) => Err(e),
        }
    }

    /// `deletePhoto`: removes one of the caller's photos, as one unit of
    /// work. A photo that is absent is `NotFound`; a photo of someone else
    /// is `Forbidden` and is left as it is.
    pub fn field_delete_photo(&self, ctx: &mut Context, input: DeletePhotoInput) -> (res:
        FieldResult<bool>)
        requires
            old(ctx).wf(),
        ensures
            final(ctx).wf(),
            final(ctx).authorized_user_id == old(ctx).authorized_user_id,
            old(ctx).connection@.rows_valid() ==> final(ctx).connection@.rows_valid(),
            match old(ctx).authorized_user_id {
                None => {
                    &&& final(ctx).connection@ == old(ctx).connection@
                    &&& res matches Err(e)
                    &&& e@ == FieldErrorView::of(FieldErrorCode::UnAuthenticate)
                },
                Some(caller) => {
                    let expected = delete_photo_outcome(old(ctx).connection@, caller@, input.id@);
                    &&& final(ctx).connection@ == expected.0
                    &&& match expected.1 {
                        Ok(done) => res == Ok::<bool, FieldErrorWithCode>(done),
                        Err(e) => res matches Err(err) && err@ == FieldErrorView::of(
                            FieldErrorCode::of(e),
                        ),
                    }
                },
            },
    {
        let caller = match authenticated(&ctx.authorized_user_id) {
            Ok(caller) => caller,
            Err(e) => {
                return Err(e);
            },
        };
        proof {
            if ctx.connection@.rows_valid() {
                lemma_delete_photo_keeps_rows_valid(ctx.connection@, input.id@);
            }
        }
        let photo_dao = ctx.ddb_dao::<domain::photo::Photo>();
        let id = input.id;
        let body = |conn: &mut Store| -> (r: DaoResult<bool>)
            requires
                old(conn)@.wf(),
            ensures
                final(conn)@.wf(),
                match r {
                    Ok(done) => {
                        &&& delete_photo_outcome(old(conn)@, caller@, id@).1 == Ok::<
                            bool,
                            DaoErrorView,
                        >(done)
                        &&& final(conn)@ == delete_photo_outcome(old(conn)@, caller@, id@).0
                    },
                    Err(e) => delete_photo_outcome(old(conn)@, caller@, id@).1 == Err::<
                        bool,
                        DaoErrorView,
                    >(e@),
                },
            {
                let found = photo_dao.get(conn, id.clone());
                match Mutation::deletable(&caller, found) {
                    Ok(_) => photo_dao.delete(conn, id),
                    Err(e) => Err(e),
                }
            };
        match Tx::run(&mut ctx.connection, body) {
            Ok(done) => Ok(done),
            Err(e) => Err(FieldErrorWithCode::from(e)),
        }
    }

    /// The photo to write back for `updatePhoto`, from what was read: the
    /// caller's own photo with the new visibility and update time.
    pub fn revised(
        caller: &String,
        found: DaoResult<domain::photo::Photo>,
        is_public: bool,
        now: Timestamp,
    ) -> (res: DaoResult<domain::photo::Photo>)
        ensures
            match found {
                Ok(photo) => if photo@.user_id == caller@ {
                    res matches Ok(revised) && revised@ == photo@.with_visibility(is_public, now)
                } else {
                    res == Err::<domain::photo::Photo, DaoError>(DaoError::Forbidden)
                },
                Err(e) => res == Err::<domain::photo::Photo, DaoError>(e),
            },
    {
        match entitled(caller, found) {
            Ok(photo) => {
                let mut photo = photo;
                photo.update_visibility(is_public, now);
                Ok(photo)
            },
            Err(e) => Err(e),
        }
    }

    /// `updatePhoto`: sets the visibility of one of the caller's photos, as
    /// one unit of work.
    pub fn field_update_photo(&self, ctx: &mut Context, input: UpdatePhotoInput, now: Timestamp)
        -> (res: FieldResult<Photo>)
        requires
            old(ctx).wf(),
        ensures
            final(ctx).wf(),
            final(ctx).authorized_user_id == old(ctx).authorized_user_id,
            old(ctx).connection@.rows_valid() && old(ctx).connection@.created_by(now) ==> final(ctx).connection@.rows_valid(),
            match old(ctx).authorized_user_id {
                None => {
                    &&& final(ctx).connection@ == old(ctx).connection@
                    &&& res matches Err(e)
                    &&& e@ == FieldErrorView::of(FieldErrorCode::UnAuthenticate)
                },
                Some(caller) => {
                    let expected = update_photo_outcome(
                        old(ctx).connection@,
                        caller@,
                        input.id@,
                        input.is_public,
                        now,
                    );
                    &&& final(ctx).connection@ == expected.0
                    &&& match expected.1 {
                        Ok(photo) => res matches Ok(out) && out.photo@ == photo && out.user is None,
                        Err(e) => res matches Err(err) && err@ == FieldErrorView::of(
                            FieldErrorCode::of(e),
                        ),
                    }
                },
            },
    {
        let caller = match authenticated(&ctx.authorized_user_id) {
            Ok(caller) => caller,
            Err(e) => {
                return Err(e);
            },
        };
        proof {
            let store = ctx.connection@;
            if store.rows_valid() && store.created_by(now) && has_photo(store.photos, input.id@) {
                assert(photo_at(store.photos, input.id@, photo_index(store.photos, input.id@)));
                lemma_update_photo_keeps_rows_valid(store, input.id@, input.is_public, now);
            }
        }
        let photo_dao = ctx.ddb_dao::<domain::photo::Photo>();
        let id = input.id;
        let is_public = input.is_public;
        let ghost before = ctx.connection@;
        let body = |conn: &mut Store| -> (r: DaoResult<domain::photo::Photo>)
            requires
                old(conn)@.wf(),
            ensures
                final(conn)@.wf(),
                match r {
                    Ok(photo) => {
                        &&& update_photo_outcome(old(conn)@, caller@, id@, is_public, now).1
                            == Ok::<PhotoView, DaoErrorView>(photo@)
                        &&& final(conn)@ == update_photo_outcome(
                            old(conn)@,
                            caller@,
                            id@,
                            is_public,
                            now,
                        ).0
                    },
                    Err(e) => update_photo_outcome(old(conn)@, caller@, id@, is_public, now).1
                        == Err::<PhotoView, DaoErrorView>(e@),
                },
            {
                let found = photo_dao.get(conn, id.clone());
                match Mutation::revised(&caller, found, is_public, now) {
                    Ok(photo) => match photo_dao.update(conn, &photo) {
                        Ok(_) => Ok(photo),
                        Err(e) => Err(e),
                    },
                    Err(e) => Err(e),
                }
            };
        match Tx::run(&mut ctx.connection, body) {
            Ok(photo) => Ok(Photo { photo, user: None }),
            Err(e) => Err(FieldErrorWithCode::from(e)),
        }
    }
}

/// Two `updatePhoto` calls of the owner on one photo, one unit of work after
/// the other, leave what the second alone would have left: the visibility
/// and the update time of the call that came last.
pub proof fn lemma_last_update_photo_wins(
    store: StoreView,
    caller: Seq<char>,
    id: Seq<char>,
    first: bool,
    at_first: Timestamp,
    second: bool,
    at_second: Timestamp,
)
    requires
        store.wf(),
    ensures
        ({
            let mid = update_photo_outcome(store, caller, id, first, at_first).0;
            update_photo_outcome(mid, caller, id, second, at_second) == update_photo_outcome(
                store,
                caller,
                id,
                second,
                at_second,
            )
        }),
{
    if has_photo(store.photos, id) && store.photos[photo_index(store.photos, id)].user_id == caller {
        lemma_photo_read_after_write(store, id, first, at_first);
        crate::ddb::laws::lemma_last_photo_write_wins(
            store,
            id,
            first,
            at_first,
            second,
            at_second,
        );
    }
}

/// After a successful `updatePhoto`, reading the photo again shows the
/// visibility that was asked for and `now` as the time of the last update,
/// which is strictly later than before if `now` is.
pub proof fn lemma_update_photo_is_read_back(
    store: StoreView,
    caller: Seq<char>,
    id: Seq<char>,
    is_public: bool,
    now: Timestamp,
)
    requires
        store.wf(),
        update_photo_outcome(store, caller, id, is_public, now).1 is Ok,
    ensures
        ({
            let before = store.photos[photo_index(store.photos, id)];
            let after_store = update_photo_outcome(store, caller, id, is_public, now).0;
            let after = after_store.photos[photo_index(after_store.photos, id)];
            &&& has_photo(after_store.photos, id)
            &&& after == before.with_visibility(is_public, now)
            &&& after.is_public == is_public
            &&& now.micros > before.updated_at.micros ==> after.updated_at.micros
                > before.updated_at.micros
        }),
{
    lemma_photo_read_after_write(store, id, is_public, now);
}

/// Two `updateUser` calls of one caller, one unit of work after the other,
/// leave what the second alone would have left: never a mixture of the two.
pub proof fn lemma_last_update_user_wins(
    store: StoreView,
    caller: Seq<char>,
    first: Seq<char>,
    at_first: Timestamp,
    second: Seq<char>,
    at_second: Timestamp,
)
    requires
        store.wf(),
    ensures
        ({
            let mid = update_user_outcome(store, caller, first, at_first).0;
            update_user_outcome(mid, caller, second, at_second) == update_user_outcome(
                store,
                caller,
                second,
                at_second,
            )
        }),
{
    if has_user(store.users, caller) {
        lemma_user_read_after_write(store, caller, first, at_first);
        crate::ddb::laws::lemma_last_user_write_wins(
            store,
            caller,
            first,
            at_first,
            second,
            at_second,
        );
    }
}

/// After a successful `updateUser`, reading the caller again shows the new
/// name and `now` as the time of the last update, which is strictly later
/// than before if `now` is.
pub proof fn lemma_update_user_is_read_back(
    store: StoreView,
    caller: Seq<char>,
    name: Seq<char>,
    now: Timestamp,
)
    requires
        store.wf(),
        has_user(store.users, caller),
    ensures
        ({
            let before = store.users[user_index(store.users, caller)];
            let after_store = update_user_outcome(store, caller, name, now).0;
            let after = after_store.users[user_index(after_store.users, caller)];
            &&& has_user(after_store.users, caller)
            &&& after == before.renamed(name, now)
            &&& after.name == name
            &&& now.micros > before.updated_at.micros ==> after.updated_at.micros
                > before.updated_at.micros
        }),
{
    lemma_user_read_after_write(store, caller, name, now);
}

/// `deletePhoto` on a photo of someone else is `Forbidden` and leaves the
/// store, and so the photo's row, as it was.
pub proof fn lemma_foreign_photo_is_not_deleted(store: StoreView, caller: Seq<char>, id: Seq<char>)
    requires
        has_photo(store.photos, id),
        store.photos[photo_index(store.photos, id)].user_id != caller,
    ensures
        delete_photo_outcome(store, caller, id) == (
            store,
            Err::<bool, DaoErrorView>(DaoErrorView::Forbidden),
        ),
{
}

/// `deletePhoto` on an identifier that no photo has is `NotFound` and
/// leaves the store as it was.
pub proof fn lemma_absent_photo_is_not_found(store: StoreView, caller: Seq<char>, id: Seq<char>)
    requires
        !has_photo(store.photos, id),
    ensures
        delete_photo_outcome(store, caller, id) == (
            store,
            Err::<bool, DaoErrorView>(DaoErrorView::NotFound),
        ),
{
}

} // verus!
