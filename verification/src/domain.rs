//! Domain objects: the in-memory values that business logic works on,
//! independent of how the store lays them out.

use vstd::prelude::*;

pub mod photo;
pub mod user;

verus! {

/// A wall-clock instant without time zone, counted in microseconds since the
/// Unix epoch.
#[derive(Clone, Copy, Debug, PartialEq, Eq, Structural)]
pub struct Timestamp {
    pub micros: i64,
}

impl Timestamp {
    pub fn from_micros(micros: i64) -> (t: Self)
        ensures
            t.micros == micros,
    {
        Timestamp { micros }
    }

    /// Whether `self` lies strictly later than `other`.
    pub fn is_after(self, other: Timestamp) -> (b: bool)
        ensures
            b == (self.micros > other.micros),
    {
        self.micros > other.micros
    }
}

pub open spec fn is_lower_hex(c: char) -> bool {
    ('0' <= c && c <= '9') || ('a' <= c && c <= 'f')
}

/// The canonical text of an identifier: 32 lower-case hexadecimal digits in
/// groups of 8, 4, 4, 4 and 12, separated by hyphens.
pub open spec fn is_hyphenated_token(s: Seq<char>) -> bool {
    &&& s.len() == 36
    &&& forall|i: int|
        0 <= i < 36 ==> if i == 8 || i == 13 || i == 18 || i == 23 {
            s[i] == '-'
        } else {
            is_lower_hex(#[trigger] s[i])
        }
}

/// Draws a new random identifier with `uuid::Uuid::new_v4` and renders it
/// with the `Display` impl of `uuid::Uuid`.
///
/// Trusted: the text is in the hyphenated lower-case form. Nothing is claimed
/// about which identifier is drawn; two calls may return anything. The call
/// aborts if the operating system cannot supply random bytes.
#[verifier::external_body]
pub(crate) fn fresh_token() -> (id: String)
    ensures
        is_hyphenated_token(id@),
{
    uuid::Uuid::new_v4().to_string()
}

} // verus!
