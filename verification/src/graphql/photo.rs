//! Photos as the GraphQL schema shows them.

use crate::ddb::schema::user_is;
use crate::ddb::DaoResult;
use crate::domain;
use crate::domain::photo::PhotoView;
use crate::domain::user::UserView;
use crate::graphql::errors::{FieldErrorCode, FieldErrorView, FieldErrorWithCode};
use crate::graphql::other::Other;
use crate::graphql::{Context, FieldResult};
use vstd::prelude::*;

verus! {

/// A photo, with its owner where the query has fetched them along.
#[derive(Debug)]
pub struct Photo {
    pub photo: domain::photo::Photo,
    pub user: Option<domain::user::User>,
}

/// An edge of a connection of photos.
#[derive(Debug)]
pub struct PhotoEdge {
    pub photo: domain::photo::Photo,
    pub user: Option<domain::user::User>,
}

/// A connection of photos: each with its owner, where fetched along.
#[derive(Debug)]
pub struct PhotoConnection(pub Vec<(domain::photo::Photo, Option<domain::user::User>)>);

/// Photos shown without their owner.
pub open spec fn without_owner(photos: Seq<PhotoView>) -> Seq<(PhotoView, Option<UserView>)> {
    Seq::new(photos.len(), |i: int| (photos[i], None::<UserView>))
}

/// Photos shown with their owner.
pub open spec fn with_owner(pairs: Seq<(PhotoView, UserView)>) -> Seq<
    (PhotoView, Option<UserView>),
> {
    Seq::new(pairs.len(), |i: int| (pairs[i].0, Some(pairs[i].1)))
}

impl DeepView for Photo {
    type V = (PhotoView, Option<UserView>);

    open spec fn deep_view(&self) -> (PhotoView, Option<UserView>) {
        (self.photo@, self.user.deep_view())
    }
}

impl DeepView for PhotoEdge {
    type V = (PhotoView, Option<UserView>);

    open spec fn deep_view(&self) -> (PhotoView, Option<UserView>) {
        (self.photo@, self.user.deep_view())
    }
}

impl Clone for Photo {
    fn clone(&self) -> (r: Self)
        ensures
            r == *self,
    {
        Photo { photo: self.photo.clone(), user: copy_owner(&self.user) }
    }
}

impl Clone for PhotoEdge {
    fn clone(&self) -> (r: Self)
        ensures
            r == *self,
    {
        PhotoEdge { photo: self.photo.clone(), user: copy_owner(&self.user) }
    }
}

impl Clone for PhotoConnection {
    fn clone(&self) -> (r: Self)
        ensures
            r.0.deep_view() == self.0.deep_view(),
    {
        let mut pairs: Vec<(domain::photo::Photo, Option<domain::user::User>)> = Vec::new();
        let mut i: usize = 0;
        while i < self.0.len()
            invariant
                i <= self.0.len(),
                pairs.len() == i,
                forall|j: int|
                    0 <= j < i ==> (#[trigger] pairs[j]).deep_view() == self.0[j].deep_view(),
            decreases self.0.len() - i,
        {
            pairs.push((self.0[i].0.clone(), copy_owner(&self.0[i].1)));
            i += 1;
        }
        assert(pairs.deep_view() =~= self.0.deep_view());
        PhotoConnection(pairs)
    }
}

/// A copy of an owner that may have been fetched along.
pub fn copy_owner(user: &Option<domain::user::User>) -> (copy: Option<domain::user::User>)
    ensures
        copy == *user,
{
    match user {
        Some(user) => Some(user.clone()),
        None => None,
    }
}

/// The photos as the schema shows them, none with its owner.
pub fn shown(photos: &Vec<domain::photo::Photo>) -> (out: Vec<Photo>)
    ensures
        out.deep_view() == without_owner(photos.deep_view()),
{
    let mut out: Vec<Photo> = Vec::new();
    let mut i: usize = 0;
    while i < photos.len()
        invariant
            i <= photos.len(),
            out.len() == i,
            forall|j: int|
                0 <= j < i ==> (#[trigger] out[j]).deep_view() == (photos[j]@, None::<UserView>),
        decreases photos.len() - i,
    {
        out.push(Photo { photo: photos[i].clone(), user: None });
        i += 1;
    }
    assert(out.deep_view() =~= without_owner(photos.deep_view()));
    out
}

impl Photo {
    pub fn field_id(&self) -> (res: FieldResult<String>)
        ensures
            res matches Ok(id) && id@ == self.photo@.id,
    {
        Ok(self.photo.id.clone())
    }

    pub fn field_user_id(&self) -> (res: FieldResult<String>)
        ensures
            res matches Ok(id) && id@ == self.photo@.user_id,
    {
        Ok(self.photo.user_id.clone())
    }

    pub fn field_url(&self) -> (res: FieldResult<String>)
        ensures
            res matches Ok(url) && url@ == self.photo@.url,
    {
        Ok(self.photo.url.clone())
    }

    pub fn field_is_public(&self) -> (res: FieldResult<bool>)
        ensures
            res matches Ok(flag) && flag == self.photo.is_public,
    {
        Ok(self.photo.is_public)
    }

    /// The owner, where the query has fetched them along, without their
    /// photos.
    pub fn field_user(&self) -> (res: FieldResult<Option<Other>>)
        ensures
            res matches Ok(shown) && match self.user {
                Some(user) => shown matches Some(other) && other.user@ == user@
                    && other.photos is None,
                None => shown is None,
            },
    {
        match &self.user {
            Some(user) => Ok(Some(Other { user: user.clone(), photos: None })),
            None => Ok(None),
        }
    }

    /// What `loadUser` answers with, from what the loader settled the
    /// owner's identifier with: the first user, without their photos;
    /// `NotFound` where no user came back; or the failure under its code.
    pub fn loaded_user(loaded: DaoResult<Vec<domain::user::User>>) -> (res: FieldResult<Other>)
        ensures
            match loaded {
                Ok(users) => if users.len() == 0 {
                    res matches Err(e) && e@ == FieldErrorView::of(FieldErrorCode::NotFound)
                } else {
                    res matches Ok(other) && other.user@ == users.deep_view()[0]
                        && other.photos is None
                },
                Err(e) => res matches Err(err) && err@ == FieldErrorView::of(
                    FieldErrorCode::of(e@),
                ),
            },
    {
        match loaded {
            Ok(users) => {
                if users.len() == 0 {
                    Err(FieldErrorWithCode::not_found())
                } else {
                    Ok(Other { user: users[0].clone(), photos: None })
                }
            },
            Err(e) => Err(FieldErrorWithCode::from(e)),
        }
    }

    /// `loadUser`: the owner, looked up through the loader of the request.
    /// `NotFound` where no such user came back. The loader remembers the
    /// answer from then on, so that a second call answers the same without a
    /// round trip; it also settles every key that waited, and keeps what it
    /// remembered.
    pub fn field_load_user(&self, ctx: &mut Context) -> (res: FieldResult<Other>)
        requires
            old(ctx).wf(),
        ensures
            final(ctx).wf(),
            final(ctx).connection == old(ctx).connection,
            final(ctx).authorized_user_id == old(ctx).authorized_user_id,
            final(ctx).photo_loader == old(ctx).photo_loader,
            match old(ctx).user_loader@.answer(
                self.photo@.user_id,
                old(ctx).connection@.users.filter(user_is(self.photo@.user_id)),
            ) {
                Ok(users) => if users.len() == 0 {
                    res matches Err(e) && e@ == FieldErrorView::of(FieldErrorCode::NotFound)
                } else {
                    res matches Ok(other) && other.user@ == users[0] && other.photos is None
                },
                Err(e) => res matches Err(err) && err@ == FieldErrorView::of(FieldErrorCode::of(e)),
            },
            final(ctx).user_loader@.pending.len() == 0,
            final(ctx).user_loader@.is_settled(self.photo@.user_id),
            final(ctx).user_loader@.outcome(self.photo@.user_id) == old(ctx).user_loader@.answer(
                self.photo@.user_id,
                old(ctx).connection@.users.filter(user_is(self.photo@.user_id)),
            ),
            forall|key: Seq<char>|
                #[trigger] final(ctx).user_loader@.is_settled(key) <==> old(ctx).user_loader@.is_settled(key)
                    || old(ctx).user_loader@.pending.contains(key) || key == self.photo@.user_id,
            forall|key: Seq<char>|
                old(ctx).user_loader@.is_settled(key) ==> #[trigger] final(ctx).user_loader@.outcome(key)
                    == old(ctx).user_loader@.outcome(key),
    {
        let mut keys: Vec<String> = Vec::new();
        keys.push(self.photo.user_id.clone());
        let ghost before = ctx.user_loader@;
        let (mut outcomes, _) = ctx.user_loader.load_many(&ctx.connection, &keys);
        proof {
            let after = ctx.user_loader@;
            let asked = keys.deep_view();
            assert(keys[0]@ == self.photo@.user_id);
            assert(asked[0] == self.photo@.user_id);
            assert forall|key: Seq<char>|
                after.is_settled(key) <==> before.is_settled(key) || before.pending.contains(key)
                    || key == self.photo@.user_id by {
                assert(after.is_settled(key) <==> before.is_settled(key)
                    || before.pending.contains(key) || asked.contains(key));
                if asked.contains(key) {
                    let w = choose|w: int| 0 <= w < asked.len() && asked[w] == key;
                    assert(w == 0);
                }
            }
        }
        Photo::loaded_user(outcomes.remove(0))
    }
}

impl PhotoEdge {
    pub fn field_node(&self) -> (res: FieldResult<Photo>)
        ensures
            res matches Ok(node) && node.deep_view() == self.deep_view(),
    {
        Ok(Photo { photo: self.photo.clone(), user: copy_owner(&self.user) })
    }
}

impl PhotoConnection {
    pub fn field_edges(&self) -> (res: FieldResult<Vec<PhotoEdge>>)
        ensures
            res matches Ok(edges) && edges.deep_view() == self.0.deep_view(),
    {
        let mut edges: Vec<PhotoEdge> = Vec::new();
        let mut i: usize = 0;
        while i < self.0.len()
            invariant
                i <= self.0.len(),
                edges.len() == i,
                forall|j: int|
                    0 <= j < i ==> (#[trigger] edges[j]).deep_view() == self.0[j].deep_view(),
            decreases self.0.len() - i,
        {
            edges.push(PhotoEdge { photo: self.0[i].0.clone(), user: copy_owner(&self.0[i].1) });
            i += 1;
        }
        assert(edges.deep_view() =~= self.0.deep_view());
        Ok(edges)
    }
}

} // verus!
