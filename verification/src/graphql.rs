//! The resolvers of the GraphQL operations, the request context they run in,
//! the authorization rules, and the errors they answer with.

use crate::ddb::schema::Store;
use crate::ddb::{Dao, DaoError, DaoResult};
use crate::domain;
use crate::graphql::errors::{FieldErrorCode, FieldErrorView, FieldErrorWithCode};
use crate::loader::BatchLoader;
use vstd::prelude::*;

pub mod errors;
pub mod me;
pub mod mutation;
pub mod other;
pub mod photo;
pub mod query;

verus! {

/// What a resolver returns.
pub type FieldResult<T> = Result<T, FieldErrorWithCode>;

/// What one request works with: who is asking, the store connection of the
/// request, and the loaders of the request.
pub struct Context {
    pub authorized_user_id: Option<String>,
    pub connection: Store,
    pub photo_loader: BatchLoader<domain::photo::Photo>,
    pub user_loader: BatchLoader<domain::user::User>,
}

/// The input of `signUp`.
pub struct SignUpInput {
    pub name: String,
}

/// The input of `updateUser`.
pub struct UpdateUserInput {
    pub name: String,
}

/// The input of `createPhoto`.
pub struct CreatePhotoInput {
    pub url: String,
    pub is_public: bool,
}

/// The input of `updatePhoto`.
pub struct UpdatePhotoInput {
    pub id: String,
    pub is_public: bool,
}

/// The input of `deletePhoto`.
pub struct DeletePhotoInput {
    pub id: String,
}

/// The first rule of authorization: a request without an identity
/// is turned away as unauthenticated, before anything else is looked at.
pub fn authenticated(identity: &Option<String>) -> (res: FieldResult<String>)
    ensures
        match identity {
            Some(id) => res matches Ok(caller) && caller@ == id@,
            None => res matches Err(e) && e@ == FieldErrorView::of(FieldErrorCode::UnAuthenticate),
        },
{
    match identity {
        Some(id) => Ok(id.clone()),
        None => Err(FieldErrorWithCode::un_authenticate()),
    }
}

/// The second rule of authorization: a photo is handed on to its
/// owner only. A lookup that failed stays as it is; a photo of someone else
/// is `Forbidden`.
pub fn entitled(caller: &String, found: DaoResult<domain::photo::Photo>) -> (res: DaoResult<
    domain::photo::Photo,
>)
    ensures
        match found {
            Ok(photo) => if photo@.user_id == caller@ {
                res == Ok::<domain::photo::Photo, DaoError>(photo)
            } else {
                res == Err::<domain::photo::Photo, DaoError>(DaoError::Forbidden)
            },
            Err(e) => res == Err::<domain::photo::Photo, DaoError>(e),
        },
{
    match found {
        Ok(photo) => if photo.user_id == *caller {
            Ok(photo)
        } else {
            Err(DaoError::Forbidden)
        },
        Err(e) => Err(e),
    }
}

/// Input validation: a required text must not be empty.
pub fn required(text: &String) -> (res: FieldResult<()>)
    ensures
        if text@.len() > 0 {
            res is Ok
        } else {
            res matches Err(e) && e@ == FieldErrorView::of(FieldErrorCode::BadRequest)
        },
{
    if text.as_str().is_empty() {
        Err(FieldErrorWithCode::bad_request())
    } else {
        Ok(())
    }
}

impl Context {
    /// The store and both loaders are well formed.
    pub open spec fn wf(&self) -> bool {
        &&& self.connection@.wf()
        &&& self.photo_loader@.wf()
        &&& self.user_loader@.wf()
    }

    /// The context of a request by `authorized_user_id`, or by nobody known,
    /// on the given connection, with loaders that remember nothing yet.
    pub fn new(authorized_user_id: Option<String>, connection: Store) -> (ctx: Self)
        requires
            connection@.wf(),
        ensures
            ctx.wf(),
            ctx.authorized_user_id == authorized_user_id,
            ctx.connection == connection,
            ctx.photo_loader@.pending.len() == 0,
            ctx.photo_loader@.resolved.len() == 0,
            ctx.user_loader@.pending.len() == 0,
            ctx.user_loader@.resolved.len() == 0,
    {
        Context {
            authorized_user_id,
            connection,
            photo_loader: BatchLoader::new(),
            user_loader: BatchLoader::new(),
        }
    }

    /// The data access object of entity type `T`.
    pub fn ddb_dao<T>(&self) -> Dao<T> {
        Dao::new()
    }
}

} // verus!
