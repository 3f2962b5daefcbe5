//! A photo posted by a user.

use crate::domain::{fresh_token, is_hyphenated_token, Timestamp};
use vstd::prelude::*;
use vstd::std_specs::cmp::PartialEqSpecImpl;

verus! {

/// A photo. Only the visibility flag and the time of the last update change
/// after creation; the owner never does.
#[derive(Debug)]
pub struct Photo {
    pub id: String,
    pub user_id: String,
    pub url: String,
    pub is_public: bool,
    pub created_at: Timestamp,
    pub updated_at: Timestamp,
}

/// What a photo, or a row of the `photos` table, holds.
pub struct PhotoView {
    pub id: Seq<char>,
    pub user_id: Seq<char>,
    pub url: Seq<char>,
    pub is_public: bool,
    pub created_at: Timestamp,
    pub updated_at: Timestamp,
}

impl PhotoView {
    /// The address is not empty and the last update is not earlier than the
    /// creation.
    pub open spec fn is_valid(self) -> bool {
        self.url.len() > 0 && self.created_at.micros <= self.updated_at.micros
    }

    /// The same photo after its visibility was set at time `now`.
    pub open spec fn with_visibility(self, is_public: bool, now: Timestamp) -> PhotoView {
        PhotoView { is_public, updated_at: now, ..self }
    }
}

impl View for Photo {
    type V = PhotoView;

    open spec fn view(&self) -> PhotoView {
        PhotoView {
            id: self.id@,
            user_id: self.user_id@,
            url: self.url@,
            is_public: self.is_public,
            created_at: self.created_at,
            updated_at: self.updated_at,
        }
    }
}

impl DeepView for Photo {
    type V = PhotoView;

    open spec fn deep_view(&self) -> PhotoView {
        self@
    }
}

impl Clone for Photo {
    fn clone(&self) -> (r: Self)
        ensures
            r == *self,
    {
        Photo {
            id: self.id.clone(),
            user_id: self.user_id.clone(),
            url: self.url.clone(),
            is_public: self.is_public,
            created_at: self.created_at,
            updated_at: self.updated_at,
        }
    }
}

impl PartialEq for Photo {
    fn eq(&self, other: &Self) -> (r: bool) {
        self.id == other.id && self.user_id == other.user_id && self.url == other.url
            && self.is_public == other.is_public && self.created_at == other.created_at
            && self.updated_at == other.updated_at
    }
}

impl PartialEqSpecImpl for Photo {
    open spec fn obeys_eq_spec() -> bool {
        true
    }

    open spec fn eq_spec(&self, other: &Self) -> bool {
        self@ == other@
    }
}

impl Eq for Photo {

}

impl Photo {
    /// A new photo of `user_id` under a freshly drawn identifier.
    pub fn new(user_id: String, url: String, is_public: bool, now: Timestamp) -> (photo: Self)
        ensures
            is_hyphenated_token(photo.id@),
            photo@ == (PhotoView {
                id: photo.id@,
                user_id: user_id@,
                url: url@,
                is_public,
                created_at: now,
                updated_at: now,
            }),
    {
        Photo::with_id(fresh_token(), user_id, url, is_public, now)
    }

    /// A new photo under the given identifier, created and last updated at
    /// `now`.
    pub fn with_id(id: String, user_id: String, url: String, is_public: bool, now: Timestamp) -> (photo:
        Self)
        ensures
            photo@ == (PhotoView {
                id: id@,
                user_id: user_id@,
                url: url@,
                is_public,
                created_at: now,
                updated_at: now,
            }),
            url@.len() > 0 ==> photo@.is_valid(),
    {
        Photo { id, user_id, url, is_public, created_at: now, updated_at: now }
    }

    /// Sets the visibility and records `now` as the time of the update.
    pub fn update_visibility(&mut self, is_public: bool, now: Timestamp)
        ensures
            final(self)@ == old(self)@.with_visibility(is_public, now),
            old(self)@.url.len() > 0 && old(self).created_at.micros <= now.micros
                ==> final(self)@.is_valid(),
    {
        self.is_public = is_public;
        self.updated_at = now;
    }
}

} // verus!
