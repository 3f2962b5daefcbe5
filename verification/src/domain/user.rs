//! The account of a person using the service.

use crate::domain::{fresh_token, is_hyphenated_token, Timestamp};
use vstd::prelude::*;
use vstd::std_specs::cmp::PartialEqSpecImpl;

verus! {

/// A user. The identifier and creation time never change; the name and the
/// time of the last update do.
#[derive(Debug)]
pub struct User {
    pub id: String,
    pub name: String,
    pub created_at: Timestamp,
    pub updated_at: Timestamp,
}

/// What a user, or a row of the `users` table, holds.
pub struct UserView {
    pub id: Seq<char>,
    pub name: Seq<char>,
    pub created_at: Timestamp,
    pub updated_at: Timestamp,
}

impl UserView {
    /// The name is not empty and the last update is not earlier than the
    /// creation.
    pub open spec fn is_valid(self) -> bool {
        self.name.len() > 0 && self.created_at.micros <= self.updated_at.micros
    }

    /// The same user after a change of name at time `now`.
    pub open spec fn renamed(self, name: Seq<char>, now: Timestamp) -> UserView {
        UserView { name, updated_at: now, ..self }
    }
}

impl View for User {
    type V = UserView;

    open spec fn view(&self) -> UserView {
        UserView {
            id: self.id@,
            name: self.name@,
            created_at: self.created_at,
            updated_at: self.updated_at,
        }
    }
}

impl DeepView for User {
    type V = UserView;

    open spec fn deep_view(&self) -> UserView {
        self@
    }
}

impl Clone for User {
    fn clone(&self) -> (r: Self)
        ensures
            r == *self,
    {
        User {
            id: self.id.clone(),
            name: self.name.clone(),
            created_at: self.created_at,
            updated_at: self.updated_at,
        }
    }
}

impl PartialEq for User {
    fn eq(&self, other: &Self) -> (r: bool) {
        self.id == other.id && self.name == other.name && self.created_at == other.created_at
            && self.updated_at == other.updated_at
    }
}

impl PartialEqSpecImpl for User {
    open spec fn obeys_eq_spec() -> bool {
        true
    }

    open spec fn eq_spec(&self, other: &Self) -> bool {
        self@ == other@
    }
}

impl Eq for User {

}

impl User {
    /// A new user under a freshly drawn identifier.
    pub fn new(name: String, now: Timestamp) -> (user: Self)
        ensures
            is_hyphenated_token(user.id@),
            user@ == (UserView { id: user.id@, name: name@, created_at: now, updated_at: now }),
    {
        User::with_id(fresh_token(), name, now)
    }

    /// A new user under the given identifier, created and last updated at
    /// `now`.
    pub fn with_id(id: String, name: String, now: Timestamp) -> (user: Self)
        ensures
            user@ == (UserView { id: id@, name: name@, created_at: now, updated_at: now }),
            name@.len() > 0 ==> user@.is_valid(),
    {
        User { id, name, created_at: now, updated_at: now }
    }

    /// Changes the name and records `now` as the time of the update.
    pub fn update(&mut self, name: String, now: Timestamp)
        ensures
            final(self)@ == old(self)@.renamed(name@, now),
            name@.len() > 0 && old(self).created_at.micros <= now.micros ==> final(self)@.is_valid(),
    {
        self.name = name;
        self.updated_at = now;
    }
}

} // verus!
