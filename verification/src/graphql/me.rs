//! The caller as the GraphQL schema shows them.

use crate::ddb::schema::owned_by;
use crate::ddb::DaoResult;
use crate::domain;
use crate::graphql::errors::{FieldErrorCode, FieldErrorView, FieldErrorWithCode};
use crate::graphql::photo::{shown, without_owner, Photo};
use crate::graphql::{Context, FieldResult};
use vstd::prelude::*;

verus! {

/// The caller, with the photos that the query has fetched along.
#[derive(Debug)]
pub struct Me {
    pub user: domain::user::User,
    pub photos: Vec<domain::photo::Photo>,
}

impl Clone for Me {
    fn clone(&self) -> (r: Self)
        ensures
            r.user@ == self.user@,
            r.photos.deep_view() == self.photos.deep_view(),
    {
        let photos = self.photos.clone();
        assert(photos@ =~= self.photos@);
        Me { user: self.user.clone(), photos }
    }
}

impl Me {
    pub fn field_id(&self) -> (res: FieldResult<String>)
        ensures
            res matches Ok(id) && id@ == self.user@.id,
    {
        Ok(self.user.id.clone())
    }

    pub fn field_name(&self) -> (res: FieldResult<String>)
        ensures
            res matches Ok(name) && name@ == self.user@.name,
    {
        Ok(self.user.name.clone())
    }

    /// The photos fetched along, none with its owner.
    pub fn field_photos(&self) -> (res: FieldResult<Vec<Photo>>)
        ensures
            res matches Ok(photos) && photos.deep_view() == without_owner(self.photos.deep_view()),
    {
        Ok(shown(&self.photos))
    }

    /// What `loadPhotos` answers with, from what the loader settled the
    /// caller's identifier with: the photos, none with its owner, or the
    /// failure under its code.
    pub fn loaded_photos(loaded: DaoResult<Vec<domain::photo::Photo>>) -> (res: FieldResult<
        Vec<Photo>,
    >)
        ensures
            match loaded {
                Ok(photos) => res matches Ok(out) && out.deep_view() == without_owner(
                    photos.deep_view(),
                ),
                Err(e) => res matches Err(err) && err@ == FieldErrorView::of(
                    FieldErrorCode::of(e@),
                ),
            },
    {
        match loaded {
            Ok(photos) => Ok(shown(&photos)),
            Err(e) => Err(FieldErrorWithCode::from(e)),
        }
    }

    /// `loadPhotos`: the photos of the caller, looked up through the loader
    /// of the request. The loader remembers them from then on, so that a
    /// second call answers the same without a round trip, whatever the store
    /// holds by then; it also settles every key that waited, and keeps what
    /// it remembered.
    pub fn field_load_photos(&self, ctx: &mut Context) -> (res: FieldResult<Vec<Photo>>)
        requires
            old(ctx).wf(),
        ensures
            final(ctx).wf(),
            final(ctx).connection == old(ctx).connection,
            final(ctx).authorized_user_id == old(ctx).authorized_user_id,
            final(ctx).user_loader == old(ctx).user_loader,
            match old(ctx).photo_loader@.answer(
                self.user@.id,
                old(ctx).connection@.photos.filter(owned_by(self.user@.id)),
            ) {
                Ok(photos) => res matches Ok(out) && out.deep_view() == without_owner(photos),
                Err(e) => res matches Err(err) && err@ == FieldErrorView::of(FieldErrorCode::of(e)),
            },
            final(ctx).photo_loader@.pending.len() == 0,
            final(ctx).photo_loader@.is_settled(self.user@.id),
            final(ctx).photo_loader@.outcome(self.user@.id) == old(ctx).photo_loader@.answer(
                self.user@.id,
                old(ctx).connection@.photos.filter(owned_by(self.user@.id)),
            ),
            forall|key: Seq<char>|
                #[trigger] final(ctx).photo_loader@.is_settled(key) <==> old(ctx).photo_loader@.is_settled(key)
                    || old(ctx).photo_loader@.pending.contains(key) || key == self.user@.id,
            forall|key: Seq<char>|
                old(ctx).photo_loader@.is_settled(key) ==> #[trigger] final(ctx).photo_loader@.outcome(key)
                    == old(ctx).photo_loader@.outcome(key),
    {
        let mut keys: Vec<String> = Vec::new();
        keys.push(self.user.id.clone());
        let ghost before = ctx.photo_loader@;
        let (mut outcomes, _) = ctx.photo_loader.load_many(&ctx.connection, &keys);
        proof {
            let after = ctx.photo_loader@;
            let asked = keys.deep_view();
            assert(keys[0]@ == self.user@.id);
            assert(asked[0] == self.user@.id);
            assert forall|key: Seq<char>|
                after.is_settled(key) <==> before.is_settled(key) || before.pending.contains(key)
                    || key == self.user@.id by {
                assert(after.is_settled(key) <==> before.is_settled(key)
                    || before.pending.contains(key) || asked.contains(key));
                if asked.contains(key) {
                    let w = choose|w: int| 0 <= w < asked.len() && asked[w] == key;
                    assert(w == 0);
                }
            }
        }
        Me::loaded_photos(outcomes.remove(0))
    }
}

} // verus!
