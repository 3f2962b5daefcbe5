//! Request-scoped data access for a small photo-sharing service: users sign
//! up, post photos with a visibility flag, and browse each other's photos.
//!
//! - `domain` holds the users and photos that business logic works on.
//! - `ddb` holds the entity store with its two tables and their
//!   constraints, one data access object per entity type, and the
//!   transaction runner.
//! - `loader` holds the batch loader that turns many lookups by key into few
//!   round trips and remembers what it loaded.
//! - `graphql` holds the request context, the rules of authorization, the
//!   resolvers of the queries and mutations, and the errors they answer
//!   with.
//!
//! Every function states what it returns and changes over the views of its
//! arguments; the store is described by the sequences of rows it holds. What
//! a statement's outcome means, who may do what, and what is written back
//! are functions of plain values, so that a server on a database takes its
//! decisions from here and only sends the statements itself.

pub mod ddb;
pub mod domain;
pub mod graphql;
pub mod loader;
