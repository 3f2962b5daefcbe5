//! The resolvers of the queries. Every query is for a caller that is known;
//! none changes the store.

use crate::ddb::schema::{
    has_photo, has_user, owned_by, photo_index, photos_with_owner, user_index, user_is_not,
    users_with_photos,
};
use crate::domain;
use crate::domain::photo::PhotoView;
use crate::graphql::errors::{FieldErrorCode, FieldErrorView, FieldErrorWithCode};
use crate::graphql::me::Me;
use crate::graphql::other::{with_photos, without_photos, OtherConnection};
use crate::graphql::photo::{with_owner, without_owner, Photo, PhotoConnection};
use crate::graphql::{authenticated, entitled, Context, FieldResult};
use vstd::prelude::*;

verus! {

pub struct Query;

/// The answer to a request without an identity.
pub open spec fn turned_away<T>(res: FieldResult<T>) -> bool {
    res matches Err(e) && e@ == FieldErrorView::of(FieldErrorCode::UnAuthenticate)
}

impl Query {
    /// `me`: the caller with their photos, newest first. `NotFound` where
    /// the caller has no row.
    pub fn field_me(&self, ctx: &Context) -> (res: FieldResult<Me>)
        requires
            ctx.wf(),
        ensures
            match ctx.authorized_user_id {
                None => turned_away(res),
                Some(caller) => if has_user(ctx.connection@.users, caller@) {
                    &&& res matches Ok(me)
                    &&& me.user@ == ctx.connection@.users[user_index(
                        ctx.connection@.users,
                        caller@,
                    )]
                    &&& me.photos.deep_view() == ctx.connection@.photos.filter(owned_by(caller@))
                } else {
                    res matches Err(e) && e@ == FieldErrorView::of(FieldErrorCode::NotFound)
                },
            },
    {
        let caller = match authenticated(&ctx.authorized_user_id) {
            Ok(caller) => caller,
            Err(e) => {
                return Err(e);
            },
        };
        let user_dao = ctx.ddb_dao::<domain::user::User>();
        match user_dao.get_with_photos(&ctx.connection, caller) {
            Ok((user, photos)) => Ok(Me { user, photos }),
            Err(e) => Err(FieldErrorWithCode::from(e)),
        }
    }

    /// `others`: every user but the caller, newest first, without their
    /// photos.
    pub fn field_others(&self, ctx: &Context) -> (res: FieldResult<OtherConnection>)
        requires
            ctx.wf(),
        ensures
            match ctx.authorized_user_id {
                None => turned_away(res),
                Some(caller) => res matches Ok(others) && others.0.deep_view() == without_photos(
                    ctx.connection@.users.filter(user_is_not(caller@)),
                ),
            },
    {
        let caller = match authenticated(&ctx.authorized_user_id) {
            Ok(caller) => caller,
            Err(e) => {
                return Err(e);
            },
        };
        let user_dao = ctx.ddb_dao::<domain::user::User>();
        match user_dao.get_all_with_exclude(&ctx.connection, caller) {
            Ok(users) => {
                let ghost all = users.deep_view();
                let mut others: Vec<(domain::user::User, Option<Vec<domain::photo::Photo>>)> =
                    Vec::new();
                for user in it: users
                    invariant
                        it.seq().len() == all.len(),
                        forall|j: int| 0 <= j < all.len() ==> (#[trigger] it.seq()[j])@ == all[j],
                        others.len() == it.index(),
                        forall|j: int|
                            0 <= j < others.len() ==> (#[trigger] others[j]).deep_view() == (
                                all[j],
                                None::<Seq<PhotoView>>,
                            ),
                {
                    others.push((user, None));
                }
                assert(others.deep_view() =~= without_photos(all));
                Ok(OtherConnection(others))
            },
            Err(e) => Err(FieldErrorWithCode::from(e)),
        }
    }

    /// `allUsers`: every user, newest first, each with their photos.
    pub fn field_all_users(&self, ctx: &Context) -> (res: FieldResult<OtherConnection>)
        requires
            ctx.wf(),
        ensures
            match ctx.authorized_user_id {
                None => turned_away(res),
                Some(_) => res matches Ok(others) && others.0.deep_view() == with_photos(
                    users_with_photos(ctx.connection@.users, ctx.connection@.photos),
                ),
            },
    {
        let _caller = match authenticated(&ctx.authorized_user_id) {
            Ok(caller) => caller,
            Err(e) => {
                return Err(e);
            },
        };
        let user_dao = ctx.ddb_dao::<domain::user::User>();
        match user_dao.get_all_with_photos(&ctx.connection) {
            Ok(pairs) => {
                let ghost all = pairs.deep_view();
                let mut others: Vec<(domain::user::User, Option<Vec<domain::photo::Photo>>)> =
                    Vec::new();
                for pair in it: pairs
                    invariant
                        it.seq().len() == all.len(),
                        forall|j: int|
                            0 <= j < all.len() ==> (#[trigger] it.seq()[j]).deep_view() == all[j],
                        others.len() == it.index(),
                        forall|j: int|
                            0 <= j < others.len() ==> (#[trigger] others[j]).deep_view() == (
                                all[j].0,
                                Some(all[j].1),
                            ),
                {
                    let (user, photos) = pair;
                    others.push((user, Some(photos)));
                }
                assert(others.deep_view() =~= with_photos(all));
                Ok(OtherConnection(others))
            },
            Err(e) => Err(FieldErrorWithCode::from(e)),
        }
    }

    /// `myPhotos`: the caller's photos, newest first, without their owner.
    pub fn field_photos(&self, ctx: &Context) -> (res: FieldResult<PhotoConnection>)
        requires
            ctx.wf(),
        ensures
            match ctx.authorized_user_id {
                None => turned_away(res),
                Some(caller) => res matches Ok(photos) && photos.0.deep_view() == without_owner(
                    ctx.connection@.photos.filter(owned_by(caller@)),
                ),
            },
    {
        let caller = match authenticated(&ctx.authorized_user_id) {
            Ok(caller) => caller,
            Err(e) => {
                return Err(e);
            },
        };
        let photo_dao = ctx.ddb_dao::<domain::photo::Photo>();
        match photo_dao.get_all_by_user(&ctx.connection, caller) {
            Ok(photos) => Ok(crate::graphql::other::connected(&photos)),
            Err(e) => Err(FieldErrorWithCode::from(e)),
        }
    }

    /// `myPhoto`: one of the caller's photos. `NotFound` where there is no
    /// such photo, `Forbidden` where it is someone else's.
    pub fn field_photo(&self, ctx: &Context, id: String) -> (res: FieldResult<Photo>)
        requires
            ctx.wf(),
        ensures
            match ctx.authorized_user_id {
                None => turned_away(res),
                Some(caller) => if !has_photo(ctx.connection@.photos, id@) {
                    res matches Err(e) && e@ == FieldErrorView::of(FieldErrorCode::NotFound)
                } else {
                    let photo = ctx.connection@.photos[photo_index(ctx.connection@.photos, id@)];
                    if photo.user_id != caller@ {
                        res matches Err(e) && e@ == FieldErrorView::of(FieldErrorCode::Forbidden)
                    } else {
                        res matches Ok(out) && out.photo@ == photo && out.user is None
                    }
                },
            },
    {
        let caller = match authenticated(&ctx.authorized_user_id) {
            Ok(caller) => caller,
            Err(e) => {
                return Err(e);
            },
        };
        let photo_dao = ctx.ddb_dao::<domain::photo::Photo>();
        match entitled(&caller, photo_dao.get(&ctx.connection, id)) {
            Ok(photo) => Ok(Photo { photo, user: None }),
            Err(e) => Err(FieldErrorWithCode::from(e)),
        }
    }

    /// `allPhotos`: every photo, newest first, each with its owner.
    pub fn field_all_photos(&self, ctx: &Context) -> (res: FieldResult<PhotoConnection>)
        requires
            ctx.wf(),
        ensures
            match ctx.authorized_user_id {
                None => turned_away(res),
                Some(_) => res matches Ok(photos) && photos.0.deep_view() == with_owner(
                    photos_with_owner(ctx.connection@.photos, ctx.connection@.users),
                ),
            },
    {
        let _caller = match authenticated(&ctx.authorized_user_id) {
            Ok(caller) => caller,
            Err(e) => {
                return Err(e);
            },
        };
        let photo_dao = ctx.ddb_dao::<domain::photo::Photo>();
        match photo_dao.get_all_with_user(&ctx.connection) {
            Ok(pairs) => {
                let ghost all = pairs.deep_view();
                let mut photos: Vec<(domain::photo::Photo, Option<domain::user::User>)> =
                    Vec::new();
                for pair in it: pairs
                    invariant
                        it.seq().len() == all.len(),
                        forall|j: int|
                            0 <= j < all.len() ==> (#[trigger] it.seq()[j]).deep_view() == all[j],
                        photos.len() == it.index(),
                        forall|j: int|
                            0 <= j < photos.len() ==> (#[trigger] photos[j]).deep_view() == (
                                all[j].0,
                                Some(all[j].1),
                            ),
                {
                    let (photo, user) = pair;
                    photos.push((photo, Some(user)));
                }
                assert(photos.deep_view() =~= with_owner(all));
                Ok(PhotoConnection(photos))
            },
            Err(e) => Err(FieldErrorWithCode::from(e)),
        }
    }
}

} // verus!
