//! Data access: the entity store, one data access object per entity type,
//! and the transaction runner.

use crate::ddb::schema::Store;
use std::marker::PhantomData;
use vstd::prelude::*;
use vstd::std_specs::cmp::PartialEqSpecImpl;
use vstd::std_specs::convert::FromSpecImpl;
use vstd::string::StringExecFns;

pub mod constraints;
pub mod laws;
pub mod photo;
pub mod schema;
pub mod select;
pub mod user;

verus! {

/// What the store reports when a statement fails: either that the requested
/// row is missing, or anything else, with the store's own message.
#[derive(Debug)]
pub enum StoreError {
    NotFound,
    Other(String),
}

/// The errors that data access surfaces.
#[derive(Debug)]
pub enum DaoError {
    NotFound,
    Forbidden,
    InternalError(String),
}

/// A data access error with its message as a sequence of characters.
pub enum DaoErrorView {
    NotFound,
    Forbidden,
    InternalError(Seq<char>),
}

pub type DaoResult<R> = Result<R, DaoError>;

impl View for DaoError {
    type V = DaoErrorView;

    open spec fn view(&self) -> DaoErrorView {
        match self {
            DaoError::NotFound => DaoErrorView::NotFound,
            DaoError::Forbidden => DaoErrorView::Forbidden,
            DaoError::InternalError(message) => DaoErrorView::InternalError(message@),
        }
    }
}

impl Clone for DaoError {
    fn clone(&self) -> (r: Self)
        ensures
            r == *self,
    {
        match self {
            DaoError::NotFound => DaoError::NotFound,
            DaoError::Forbidden => DaoError::Forbidden,
            DaoError::InternalError(message) => DaoError::InternalError(message.clone()),
        }
    }
}

impl PartialEq for DaoError {
    fn eq(&self, other: &Self) -> (r: bool) {
        match self {
            DaoError::NotFound => match other {
                DaoError::NotFound => true,
                _ => false,
            },
            DaoError::Forbidden => match other {
                DaoError::Forbidden => true,
                _ => false,
            },
            DaoError::InternalError(a) => match other {
                DaoError::InternalError(b) => *a == *b,
                _ => false,
            },
        }
    }
}

impl PartialEqSpecImpl for DaoError {
    open spec fn obeys_eq_spec() -> bool {
        true
    }

    open spec fn eq_spec(&self, other: &Self) -> bool {
        self@ == other@
    }
}

impl Eq for DaoError {

}

/// The data access error that a failure of the store is surfaced as.
pub open spec fn surfaced(e: StoreError) -> DaoError {
    match e {
        StoreError::NotFound => DaoError::NotFound,
        StoreError::Other(message) => DaoError::InternalError(message),
    }
}

impl From<StoreError> for DaoError {
    /// A missing row stays a missing row; every other failure of the store
    /// is internal and keeps the store's message.
    fn from(e: StoreError) -> (r: Self) {
        match e {
            StoreError::NotFound => DaoError::NotFound,
            StoreError::Other(message) => DaoError::InternalError(message),
        }
    }
}

impl FromSpecImpl<StoreError> for DaoError {
    open spec fn obeys_from_spec() -> bool {
        true
    }

    open spec fn from_spec(e: StoreError) -> Self {
        surfaced(e)
    }
}

impl From<String> for DaoError {
    fn from(v: String) -> (r: Self) {
        DaoError::InternalError(v)
    }
}

impl FromSpecImpl<String> for DaoError {
    open spec fn obeys_from_spec() -> bool {
        true
    }

    open spec fn from_spec(v: String) -> Self {
        DaoError::InternalError(v)
    }
}

impl DaoError {
    /// The text of the error as seen by a reader of logs.
    pub open spec fn text(self) -> Seq<char> {
        match self {
            DaoError::NotFound => "notfound"@,
            DaoError::Forbidden => "forbidden"@,
            DaoError::InternalError(message) => "internal error: "@ + message@,
        }
    }

    pub fn to_string(&self) -> (s: String)
        ensures
            s@ == self.text(),
    {
        match self {
            DaoError::NotFound => String::from_str("notfound"),
            DaoError::Forbidden => String::from_str("forbidden"),
            DaoError::InternalError(message) => {
                String::from_str("internal error: ").concat(message.as_str())
            },
        }
    }
}

/// The data access object of entity type `T`. It holds no connection: every
/// operation receives the store it works on.
pub struct Dao<T> {
    _phantom: PhantomData<T>,
}

impl<T> Dao<T> {
    pub fn new() -> Self {
        Dao { _phantom: PhantomData }
    }
}

/// What an insert statement's outcome means: any count of written rows is
/// success, any failure of the store is surfaced.
pub fn written(outcome: Result<usize, StoreError>) -> (res: DaoResult<()>)
    ensures
        match outcome {
            Ok(_) => res is Ok,
            Err(e) => res == Err::<(), DaoError>(surfaced(e)),
        },
{
    match outcome {
        Ok(_) => Ok(()),
        Err(e) => Err(DaoError::from(e)),
    }
}

/// What an update statement's outcome means, on a store that reports the
/// number of rows that the statement matched: a statement that matched no
/// row found none, which is `NotFound`.
///
/// The count has to be that of the rows matched, whether or not their values
/// changed. A store that counts only the rows whose values differ reports
/// none for a row that is there and already holds the values; its outcome is
/// read with `updated`.
pub fn changed(matched: Result<usize, StoreError>) -> (res: DaoResult<()>)
    ensures
        match matched {
            Ok(n) => if n == 0 {
                res == Err::<(), DaoError>(DaoError::NotFound)
            } else {
                res is Ok
            },
            Err(e) => res == Err::<(), DaoError>(surfaced(e)),
        },
{
    match matched {
        Ok(n) => if n == 0 {
            Err(DaoError::NotFound)
        } else {
            Ok(())
        },
        Err(e) => Err(DaoError::from(e)),
    }
}

/// What an update means on a store that reports the rows whose values
/// changed, not those that the statement matched. Whether the row is there
/// is taken from `present`, the number of rows under that identifier as read
/// in the same transaction: none is `NotFound`. The statement's own outcome
/// says only whether it failed.
pub fn updated(present: Result<usize, StoreError>, outcome: Result<usize, StoreError>) -> (res:
    DaoResult<()>)
    ensures
        match present {
            Err(e) => res == Err::<(), DaoError>(surfaced(e)),
            Ok(n) => if n == 0 {
                res == Err::<(), DaoError>(DaoError::NotFound)
            } else {
                match outcome {
                    Ok(_) => res is Ok,
                    Err(e) => res == Err::<(), DaoError>(surfaced(e)),
                }
            },
        },
{
    match present {
        Err(e) => Err(DaoError::from(e)),
        Ok(n) => if n == 0 {
            Err(DaoError::NotFound)
        } else {
            match outcome {
                Ok(_) => Ok(()),
                Err(e) => Err(DaoError::from(e)),
            }
        },
    }
}

/// What a delete statement's outcome means: deleting is idempotent, so it
/// succeeds whether or not a row was there.
pub fn removed(outcome: Result<usize, StoreError>) -> (res: DaoResult<bool>)
    ensures
        match outcome {
            Ok(_) => res == Ok::<bool, DaoError>(true),
            Err(e) => res == Err::<bool, DaoError>(surfaced(e)),
        },
{
    match outcome {
        Ok(_) => Ok(true),
        Err(e) => Err(DaoError::from(e)),
    }
}

/// The transaction runner: a unit of work that is committed as a whole or
/// not at all.
pub struct Tx {}

/// Where a transaction that is driven step by step stands.
pub enum TxState<R> {
    /// The statement that opens the transaction was sent.
    Beginning,
    /// The transaction is open and the body is at work in it.
    Running,
    /// The body succeeded and the commit was sent; the value waits for the
    /// store's answer.
    Committing(R),
    /// The body failed and the rollback was sent; the error waits for the
    /// store's answer.
    RollingBack(DaoError),
    /// The transaction is over.
    Finished,
}

/// What happened since the last step of a transaction.
pub enum TxEvent<R> {
    /// The store answered the statement that was sent last.
    Answered(Result<(), StoreError>),
    /// The body settled.
    Settled(DaoResult<R>),
}

/// What the driver of a transaction has to do next.
pub enum TxAction<R> {
    /// Let the body work on the connection, and on nothing else.
    RunBody,
    /// Send the commit.
    Commit,
    /// Send the rollback.
    Rollback,
    /// Hand the result to the caller: the transaction is over.
    Return(DaoResult<R>),
}

/// What the store is told of an event that does not fit the state.
pub open spec fn out_of_step_text() -> Seq<char> {
    "transaction used out of step"@
}

impl Tx {
    /// The first state and action of a transaction that is driven step by
    /// step: the driver sends the statement that opens it, and reports the
    /// store's answer to `run_async`.
    pub fn begin<R>() -> (state: TxState<R>)
        ensures
            state is Beginning,
    {
        TxState::Beginning
    }

    /// One step of a transaction around a body that suspends: from the state
    /// and what happened since, the next state and what the driver does next.
    ///
    /// The body runs once the transaction is open. A body that succeeded is
    /// committed and one that failed is rolled back, and the caller gets the
    /// body's own result unless the store fails to open, commit or roll
    /// back, in which case it gets that failure. An event that does not fit
    /// the state ends the transaction with an internal error.
    pub fn run_async<R>(state: TxState<R>, event: TxEvent<R>) -> (next: (TxState<R>, TxAction<R>))
        ensures
            match (state, event) {
                (TxState::Beginning, TxEvent::Answered(Ok(_))) => next.0 is Running
                    && next.1 is RunBody,
                (TxState::Beginning, TxEvent::Answered(Err(e))) => next.0 is Finished && next.1
                    == TxAction::<R>::Return(Err(surfaced(e))),
                (TxState::Running, TxEvent::Settled(Ok(value))) => next.0 == TxState::Committing(
                    value,
                ) && next.1 is Commit,
                (TxState::Running, TxEvent::Settled(Err(error))) => next.0 == TxState::<
                    R,
                >::RollingBack(error) && next.1 is Rollback,
                (TxState::Committing(value), TxEvent::Answered(Ok(_))) => next.0 is Finished
                    && next.1 == TxAction::Return(Ok(value)),
                (TxState::Committing(_), TxEvent::Answered(Err(e))) => next.0 is Finished && next.1
                    == TxAction::<R>::Return(Err(surfaced(e))),
                (TxState::RollingBack(error), TxEvent::Answered(Ok(_))) => next.0 is Finished
                    && next.1 == TxAction::<R>::Return(Err(error)),
                (TxState::RollingBack(_), TxEvent::Answered(Err(e))) => next.0 is Finished
                    && next.1 == TxAction::<R>::Return(Err(surfaced(e))),
                (_, _) => {
                    &&& next.0 is Finished
                    &&& next.1 matches TxAction::Return(Err(DaoError::InternalError(m)))
                    &&& m@ == out_of_step_text()
                },
            },
    {
        match state {
            TxState::Beginning => match event {
                TxEvent::Answered(Ok(_)) => (TxState::Running, TxAction::RunBody),
                TxEvent::Answered(Err(e)) => (
                    TxState::Finished,
                    TxAction::Return(Err(DaoError::from(e))),
                ),
                TxEvent::Settled(_) => Tx::out_of_step(),
            },
            TxState::Running => match event {
                TxEvent::Settled(Ok(value)) => (TxState::Committing(value), TxAction::Commit),
                TxEvent::Settled(Err(error)) => (TxState::RollingBack(error), TxAction::Rollback),
                TxEvent::Answered(_) => Tx::out_of_step(),
            },
            TxState::Committing(value) => match event {
                TxEvent::Answered(Ok(_)) => (TxState::Finished, TxAction::Return(Ok(value))),
                TxEvent::Answered(Err(e)) => (
                    TxState::Finished,
                    TxAction::Return(Err(DaoError::from(e))),
                ),
                TxEvent::Settled(_) => Tx::out_of_step(),
            },
            TxState::RollingBack(error) => match event {
                TxEvent::Answered(Ok(_)) => (TxState::Finished, TxAction::Return(Err(error))),
                TxEvent::Answered(Err(e)) => (
                    TxState::Finished,
                    TxAction::Return(Err(DaoError::from(e))),
                ),
                TxEvent::Settled(_) => Tx::out_of_step(),
            },
            TxState::Finished => Tx::out_of_step(),
        }
    }

    fn out_of_step<R>() -> (next: (TxState<R>, TxAction<R>))
        ensures
            next.0 is Finished,
            next.1 matches TxAction::Return(Err(DaoError::InternalError(m))) && m@
                == out_of_step_text(),
    {
        (
            TxState::Finished,
            TxAction::Return(
                Err(DaoError::InternalError(String::from_str("transaction used out of step"))),
            ),
        )
    }

    /// Runs `body` on `conn` as one unit of work: what it wrote stays if it
    /// succeeds and is undone if it fails, and its result is returned as it
    /// is. The steps are those of `run_async`, on a store that always
    /// answers.
    pub fn run<R, F>(conn: &mut Store, body: F) -> (res: DaoResult<R>) where
        F: FnOnce(&mut Store) -> DaoResult<R>,

        requires
            old(conn)@.wf(),
            forall|m: &mut Store| *m == *old(conn) ==> #[trigger] body.requires((m,)),
            forall|m: &mut Store, r: DaoResult<R>|
                *m == *old(conn) && #[trigger] body.ensures((m,), r) ==> final(m)@.wf(),
        ensures
            final(conn)@.wf(),
            exists|m: &mut Store|
                {
                    &&& *m == *old(conn)
                    &&& #[trigger] body.ensures((m,), res)
                    &&& match res {
                        Ok(_) => *final(conn) == *final(m),
                        Err(_) => final(conn)@ == old(conn)@,
                    }
                },
    {
        let saved = conn.snapshot();
        let (state, _) = Tx::run_async(Tx::begin(), TxEvent::Answered(Ok(())));
        let (state, action) = Tx::run_async(state, TxEvent::Settled(body(conn)));
        match action {
            TxAction::Rollback => {
                *conn = saved;
            },
            _ => {},
        }
        let (_, action) = Tx::run_async(state, TxEvent::Answered(Ok(())));
        match action {
            TxAction::Return(res) => res,
            _ => Err(DaoError::InternalError(String::from_str("transaction used out of step"))),
        }
    }
}

} // verus!
