//! The errors that a resolver answers with: a message for people and a code
//! for machines.

use crate::ddb::{DaoError, DaoErrorView};
use convert_case::{Case, Casing};
use vstd::prelude::*;
use vstd::string::StringExecFns;

verus! {

/// The kinds of failure that a client can tell apart.
#[derive(Debug, Clone, Copy, PartialEq, Eq, Structural)]
pub enum FieldErrorCode {
    /// The input fails validation.
    BadRequest,
    /// No identity came with the request.
    UnAuthenticate,
    /// The requested identifier is absent.
    NotFound,
    /// The caller is known but not entitled to the resource.
    Forbidden,
    /// The store or the connection failed.
    Internal,
}

/// The error as told to people.
#[derive(Debug)]
pub enum APIError {
    Text(String),
}

/// An error of a resolver: what is told to people, and the kind of failure.
#[derive(Debug)]
pub struct FieldErrorWithCode {
    err: APIError,
    code: FieldErrorCode,
}

/// What an error of a resolver holds.
pub struct FieldErrorView {
    pub text: Seq<char>,
    pub code: FieldErrorCode,
}

/// The structured error object that a client receives.
#[derive(Debug)]
pub struct ErrorBody {
    pub message: String,
    pub code: String,
}

/// The text that every error carries: clients get a stable code, never an
/// internal message.
pub open spec fn generic_text() -> Seq<char> {
    "エラーです"@
}

/// The result of `convert_case::Casing::to_case` with `Case::UpperSnake` on
/// a text: its words in upper case, joined by underscores.
pub uninterp spec fn upper_snake_case(name: Seq<char>) -> Seq<char>;

/// Calls `convert_case::Casing::to_case` with `Case::UpperSnake`.
///
/// Trusted: the result is a function of the text alone. The text has to be
/// ASCII, since the conversion splits it at positions counted in characters
/// and would stop on a character of several bytes.
#[verifier::external_body]
fn to_upper_snake(name: &str) -> (code: String)
    requires
        name.is_ascii(),
    ensures
        code@ == upper_snake_case(name@),
{
    name.to_case(Case::UpperSnake)
}

impl FieldErrorCode {
    /// The name of the kind, in upper camel case.
    pub open spec fn name(self) -> Seq<char> {
        match self {
            FieldErrorCode::BadRequest => "BadRequest"@,
            FieldErrorCode::UnAuthenticate => "Unauthenticated"@,
            FieldErrorCode::NotFound => "NotFound"@,
            FieldErrorCode::Forbidden => "Forbidden"@,
            FieldErrorCode::Internal => "Internal"@,
        }
    }

    pub fn to_string(&self) -> (s: String)
        ensures
            s@ == self.name(),
            s.is_ascii(),
    {
        proof {
            reveal_strlit("BadRequest");
            reveal_strlit("Unauthenticated");
            reveal_strlit("NotFound");
            reveal_strlit("Forbidden");
            reveal_strlit("Internal");
        }
        match self {
            FieldErrorCode::BadRequest => String::from_str("BadRequest"),
            FieldErrorCode::UnAuthenticate => String::from_str("Unauthenticated"),
            FieldErrorCode::NotFound => String::from_str("NotFound"),
            FieldErrorCode::Forbidden => String::from_str("Forbidden"),
            FieldErrorCode::Internal => String::from_str("Internal"),
        }
    }

    /// The machine-readable code of the kind: its name in upper snake case.
    pub fn code(&self) -> (code: String)
        ensures
            code@ == upper_snake_case(self.name()),
    {
        let name = self.to_string();
        to_upper_snake(name.as_str())
    }

    /// The kind of failure that a data access error is answered with.
    pub open spec fn of(err: DaoErrorView) -> FieldErrorCode {
        match err {
            DaoErrorView::NotFound => FieldErrorCode::NotFound,
            DaoErrorView::Forbidden => FieldErrorCode::Forbidden,
            DaoErrorView::InternalError(_) => FieldErrorCode::Internal,
        }
    }
}

impl APIError {
    pub open spec fn text(self) -> Seq<char> {
        match self {
            APIError::Text(text) => "api error: "@ + text@,
        }
    }

    pub fn to_string(&self) -> (s: String)
        ensures
            s@ == self.text(),
    {
        match self {
            APIError::Text(text) => String::from_str("api error: ").concat(text.as_str()),
        }
    }
}

impl Clone for APIError {
    fn clone(&self) -> (r: Self)
        ensures
            r == *self,
    {
        match self {
            APIError::Text(text) => APIError::Text(text.clone()),
        }
    }
}

impl View for FieldErrorWithCode {
    type V = FieldErrorView;

    closed spec fn view(&self) -> FieldErrorView {
        FieldErrorView {
            text: match self.err {
                APIError::Text(text) => text@,
            },
            code: self.code,
        }
    }
}

impl FieldErrorView {
    /// The error of the given kind.
    pub open spec fn of(code: FieldErrorCode) -> FieldErrorView {
        FieldErrorView { text: generic_text(), code }
    }
}

impl FieldErrorWithCode {
    fn with_code(code: FieldErrorCode) -> (e: Self)
        ensures
            e@ == FieldErrorView::of(code),
    {
        FieldErrorWithCode { err: APIError::Text(String::from_str("エラーです")), code }
    }

    pub fn bad_request() -> (e: Self)
        ensures
            e@ == FieldErrorView::of(FieldErrorCode::BadRequest),
    {
        FieldErrorWithCode::with_code(FieldErrorCode::BadRequest)
    }

    pub fn un_authenticate() -> (e: Self)
        ensures
            e@ == FieldErrorView::of(FieldErrorCode::UnAuthenticate),
    {
        FieldErrorWithCode::with_code(FieldErrorCode::UnAuthenticate)
    }

    pub fn forbidden() -> (e: Self)
        ensures
            e@ == FieldErrorView::of(FieldErrorCode::Forbidden),
    {
        FieldErrorWithCode::with_code(FieldErrorCode::Forbidden)
    }

    pub fn not_found() -> (e: Self)
        ensures
            e@ == FieldErrorView::of(FieldErrorCode::NotFound),
    {
        FieldErrorWithCode::with_code(FieldErrorCode::NotFound)
    }

    /// The error that a data access error is answered with: the kind is
    /// kept, the internal message is not.
    pub fn from(err: DaoError) -> (e: Self)
        ensures
            e@ == FieldErrorView::of(FieldErrorCode::of(err@)),
    {
        let code = match err {
            DaoError::NotFound => FieldErrorCode::NotFound,
            DaoError::Forbidden => FieldErrorCode::Forbidden,
            DaoError::InternalError(_) => FieldErrorCode::Internal,
        };
        FieldErrorWithCode::with_code(code)
    }

    /// The kind of failure.
    pub fn code(&self) -> (code: FieldErrorCode)
        ensures
            code == self@.code,
    {
        self.code
    }

    /// The message for people.
    pub fn message(&self) -> (s: String)
        ensures
            s@ == "api error: "@ + self@.text,
    {
        self.err.to_string()
    }

    /// The structured error object under the given machine-readable code.
    pub fn body_with(&self, code: String) -> (body: ErrorBody)
        ensures
            body.message@ == "api error: "@ + self@.text,
            body.code@ == code@,
    {
        ErrorBody { message: self.message(), code }
    }

    /// The structured error object that a client receives: the message and
    /// the machine-readable code of the kind.
    pub fn into_body(self) -> (body: ErrorBody)
        ensures
            body.message@ == "api error: "@ + self@.text,
            body.code@ == upper_snake_case(self@.code.name()),
    {
        let code = self.code.code();
        self.body_with(code)
    }
}

} // verus!
