//! Other users as the GraphQL schema shows them.

use crate::ddb::schema::owned_by;
use crate::ddb::DaoResult;
use crate::domain;
use crate::domain::photo::PhotoView;
use crate::domain::user::UserView;
use crate::graphql::errors::{FieldErrorCode, FieldErrorView, FieldErrorWithCode};
use crate::graphql::photo::{without_owner, PhotoConnection};
use crate::graphql::{Context, FieldResult};
use vstd::prelude::*;

verus! {

/// A user other than the caller, with their photos where the query has
/// fetched them along.
#[derive(Debug)]
pub struct Other {
    pub user: domain::user::User,
    pub photos: Option<Vec<domain::photo::Photo>>,
}

/// An edge of a connection of users.
#[derive(Debug)]
pub struct OtherEdge {
    pub user: domain::user::User,
    pub photos: Option<Vec<domain::photo::Photo>>,
}

/// A connection of users: each with their photos, where fetched along.
#[derive(Debug)]
pub struct OtherConnection(pub Vec<(domain::user::User, Option<Vec<domain::photo::Photo>>)>);

/// Users shown without their photos.
pub open spec fn without_photos(users: Seq<UserView>) -> Seq<(UserView, Option<Seq<PhotoView>>)> {
    Seq::new(users.len(), |i: int| (users[i], None::<Seq<PhotoView>>))
}

/// Users shown with their photos.
pub open spec fn with_photos(pairs: Seq<(UserView, Seq<PhotoView>)>) -> Seq<
    (UserView, Option<Seq<PhotoView>>),
> {
    Seq::new(pairs.len(), |i: int| (pairs[i].0, Some(pairs[i].1)))
}

impl DeepView for Other {
    type V = (UserView, Option<Seq<PhotoView>>);

    open spec fn deep_view(&self) -> (UserView, Option<Seq<PhotoView>>) {
        (self.user@, self.photos.deep_view())
    }
}

impl DeepView for OtherEdge {
    type V = (UserView, Option<Seq<PhotoView>>);

    open spec fn deep_view(&self) -> (UserView, Option<Seq<PhotoView>>) {
        (self.user@, self.photos.deep_view())
    }
}

/// A copy of photos that may have been fetched along.
pub fn copy_photos(photos: &Option<Vec<domain::photo::Photo>>) -> (copy: Option<
    Vec<domain::photo::Photo>,
>)
    ensures
        copy.deep_view() == photos.deep_view(),
{
    match photos {
        Some(photos) => {
            let copy = photos.clone();
            assert(copy@ =~= photos@);
            Some(copy)
        },
        None => None,
    }
}

/// The photos as a connection, none with its owner.
pub fn connected(photos: &Vec<domain::photo::Photo>) -> (out: PhotoConnection)
    ensures
        out.0.deep_view() == without_owner(photos.deep_view()),
{
    let mut pairs: Vec<(domain::photo::Photo, Option<domain::user::User>)> = Vec::new();
    let mut i: usize = 0;
    while i < photos.len()
        invariant
            i <= photos.len(),
            pairs.len() == i,
            forall|j: int|
                0 <= j < i ==> (#[trigger] pairs[j]).deep_view() == (photos[j]@, None::<UserView>),
        decreases photos.len() - i,
    {
        pairs.push((photos[i].clone(), None));
        i += 1;
    }
    assert(pairs.deep_view() =~= without_owner(photos.deep_view()));
    PhotoConnection(pairs)
}

impl Clone for Other {
    fn clone(&self) -> (r: Self)
        ensures
            r.deep_view() == self.deep_view(),
    {
        Other { user: self.user.clone(), photos: copy_photos(&self.photos) }
    }
}

impl Clone for OtherEdge {
    fn clone(&self) -> (r: Self)
        ensures
            r.deep_view() == self.deep_view(),
    {
        OtherEdge { user: self.user.clone(), photos: copy_photos(&self.photos) }
    }
}

impl Clone for OtherConnection {
    fn clone(&self) -> (r: Self)
        ensures
            r.0.deep_view() == self.0.deep_view(),
    {
        let mut pairs: Vec<(domain::user::User, Option<Vec<domain::photo::Photo>>)> = Vec::new();
        let mut i: usize = 0;
        while i < self.0.len()
            invariant
                i <= self.0.len(),
                pairs.len() == i,
                forall|j: int|
                    0 <= j < i ==> (#[trigger] pairs[j]).deep_view() == self.0[j].deep_view(),
            decreases self.0.len() - i,
        {
            pairs.push((self.0[i].0.clone(), copy_photos(&self.0[i].1)));
            i += 1;
        }
        assert(pairs.deep_view() =~= self.0.deep_view());
        OtherConnection(pairs)
    }
}

impl Other {
    pub fn field_id(&self) -> (res: FieldResult<String>)
        ensures
            res matches Ok(id) && id@ == self.user@.id,
    {
        Ok(self.user.id.clone())
    }

    pub fn field_name(&self) -> (res: FieldResult<String>)
        ensures
            res matches Ok(name) && name@ == self.user@.name,
    {
        Ok(self.user.name.clone())
    }

    /// The photos that were fetched along, as a connection; none where the
    /// query has fetched none along and they have to be looked up.
    pub fn given_photos(&self) -> (res: Option<PhotoConnection>)
        ensures
            match self.photos {
                Some(photos) => res matches Some(connection) && connection.0.deep_view()
                    == without_owner(photos.deep_view()),
                None => res is None,
            },
    {
        match &self.photos {
            Some(photos) => Some(connected(photos)),
            None => None,
        }
    }

    /// What `photos` answers with once the photos were looked up: the
    /// photos as a connection, none with its owner, or the failure under its
    /// code.
    pub fn found_photos(found: DaoResult<Vec<domain::photo::Photo>>) -> (res: FieldResult<
        PhotoConnection,
    >)
        ensures
            match found {
                Ok(photos) => res matches Ok(connection) && connection.0.deep_view()
                    == without_owner(photos.deep_view()),
                Err(e) => res matches Err(err) && err@ == FieldErrorView::of(
                    FieldErrorCode::of(e@),
                ),
            },
    {
        match found {
            Ok(photos) => Ok(connected(&photos)),
            Err(e) => Err(FieldErrorWithCode::from(e)),
        }
    }

    /// The photos of this user, newest first: those fetched along, where
    /// there are any, and else those that the store holds. Never fails on
    /// this store.
    pub fn field_photos(&self, ctx: &Context) -> (res: FieldResult<PhotoConnection>)
        requires
            ctx.wf(),
        ensures
            res matches Ok(connection) && connection.0.deep_view() == without_owner(
                match self.photos {
                    Some(photos) => photos.deep_view(),
                    None => ctx.connection@.photos.filter(owned_by(self.user@.id)),
                },
            ),
    {
        if let Some(connection) = self.given_photos() {
            return Ok(connection);
        }
        let photo_dao = ctx.ddb_dao::<domain::photo::Photo>();
        Other::found_photos(photo_dao.get_all_by_user(&ctx.connection, self.user.id.clone()))
    }
}

impl OtherEdge {
    pub fn field_node(&self) -> (res: FieldResult<Other>)
        ensures
            res matches Ok(node) && node.deep_view() == self.deep_view(),
    {
        Ok(Other { user: self.user.clone(), photos: copy_photos(&self.photos) })
    }
}

impl OtherConnection {
    pub fn field_edges(&self) -> (res: FieldResult<Vec<OtherEdge>>)
        ensures
            res matches Ok(edges) && edges.deep_view() == self.0.deep_view(),
    {
        let mut edges: Vec<OtherEdge> = Vec::new();
        let mut i: usize = 0;
        while i < self.0.len()
            invariant
                i <= self.0.len(),
                edges.len() == i,
                forall|j: int|
                    0 <= j < i ==> (#[trigger] edges[j]).deep_view() == self.0[j].deep_view(),
            decreases self.0.len() - i,
        {
            edges.push(OtherEdge { user: self.0[i].0.clone(), photos: copy_photos(&self.0[i].1) });
            i += 1;
        }
        assert(edges.deep_view() =~= self.0.deep_view());
        Ok(edges)
    }
}

} // verus!
