use photo_service::ddb::schema::Store;
use photo_service::ddb::{Dao, DaoError, DaoResult, StoreError, Tx, TxAction, TxEvent, TxState};
use photo_service::domain::photo::Photo;
use photo_service::domain::user::User;
use photo_service::domain::Timestamp;

fn at(micros: i64) -> Timestamp {
    Timestamp::from_micros(micros)
}

fn seeded() -> Store {
    let mut store = Store::new();
    Dao::<User>::new()
        .insert(&mut store, User::with_id("u-1".to_string(), "alice".to_string(), at(1)))
        .unwrap();
    store
}

#[test]
fn a_body_that_succeeds_is_committed() {
    let mut store = seeded();
    let res = Tx::run(&mut store, |conn: &mut Store| -> DaoResult<u32> {
        let photo = Photo::with_id("p-1".to_string(), "u-1".to_string(), "http://x/1".to_string(), false, at(2));
        Dao::<Photo>::new().insert(conn, &photo)?;
        Ok(7)
    });
    assert_eq!(res, Ok(7));
    assert!(Dao::<Photo>::new().get(&store, "p-1".to_string()).is_ok());
}

#[test]
fn a_body_that_fails_is_rolled_back() {
    let mut store = seeded();
    let res = Tx::run(&mut store, |conn: &mut Store| -> DaoResult<u32> {
        let photo = Photo::with_id("p-1".to_string(), "u-1".to_string(), "http://x/1".to_string(), false, at(2));
        Dao::<Photo>::new().insert(conn, &photo)?;
        Dao::<User>::new().delete(conn, "u-1".to_string())?;
        Err(DaoError::Forbidden)
    });
    assert_eq!(res, Err(DaoError::Forbidden));
    assert_eq!(Dao::<Photo>::new().get(&store, "p-1".to_string()), Err(DaoError::NotFound));
    assert!(Dao::<User>::new().get(&store, "u-1".to_string()).is_ok());
}

#[test]
fn the_error_of_the_body_is_returned_as_it_is() {
    let mut store = seeded();
    let res = Tx::run(&mut store, |_conn: &mut Store| -> DaoResult<()> {
        Err(DaoError::InternalError("halfway".to_string()))
    });
    assert_eq!(res, Err(DaoError::InternalError("halfway".to_string())));
}

fn step(state: TxState<u32>, event: TxEvent<u32>) -> (TxState<u32>, TxAction<u32>) {
    Tx::run_async(state, event)
}

#[test]
fn stepwise_success_commits_and_returns_the_value() {
    let state = Tx::begin::<u32>();
    assert!(matches!(state, TxState::Beginning));
    let (state, action) = step(state, TxEvent::Answered(Ok(())));
    assert!(matches!(state, TxState::Running));
    assert!(matches!(action, TxAction::RunBody));
    let (state, action) = step(state, TxEvent::Settled(Ok(5)));
    assert!(matches!(state, TxState::Committing(5)));
    assert!(matches!(action, TxAction::Commit));
    let (state, action) = step(state, TxEvent::Answered(Ok(())));
    assert!(matches!(state, TxState::Finished));
    assert!(matches!(action, TxAction::Return(Ok(5))));
}

#[test]
fn stepwise_failure_rolls_back_and_returns_the_error() {
    let (state, _) = step(Tx::begin(), TxEvent::Answered(Ok(())));
    let (state, action) = step(state, TxEvent::Settled(Err(DaoError::Forbidden)));
    assert!(matches!(state, TxState::RollingBack(DaoError::Forbidden)));
    assert!(matches!(action, TxAction::Rollback));
    let (state, action) = step(state, TxEvent::Answered(Ok(())));
    assert!(matches!(state, TxState::Finished));
    assert!(matches!(action, TxAction::Return(Err(DaoError::Forbidden))));
}

#[test]
fn a_transaction_that_cannot_be_opened_never_runs_the_body() {
    let (state, action) = step(Tx::begin(), TxEvent::Answered(Err(StoreError::Other("down".to_string()))));
    assert!(matches!(state, TxState::Finished));
    match action {
        TxAction::Return(Err(e)) => assert_eq!(e, DaoError::InternalError("down".to_string())),
        _ => panic!("the failure to open must be returned"),
    }
}

#[test]
fn a_failed_commit_is_returned_instead_of_the_value() {
    let (state, _) = step(Tx::begin(), TxEvent::Answered(Ok(())));
    let (state, _) = step(state, TxEvent::Settled(Ok(5)));
    let (state, action) = step(state, TxEvent::Answered(Err(StoreError::Other("lost".to_string()))));
    assert!(matches!(state, TxState::Finished));
    match action {
        TxAction::Return(Err(e)) => assert_eq!(e, DaoError::InternalError("lost".to_string())),
        _ => panic!("the failure to commit must be returned"),
    }
}

#[test]
fn a_failed_rollback_is_returned_instead_of_the_error() {
    let (state, _) = step(Tx::begin(), TxEvent::Answered(Ok(())));
    let (state, _) = step(state, TxEvent::Settled(Err(DaoError::NotFound)));
    let (state, action) = step(state, TxEvent::Answered(Err(StoreError::Other("lost".to_string()))));
    assert!(matches!(state, TxState::Finished));
    match action {
        TxAction::Return(Err(e)) => assert_eq!(e, DaoError::InternalError("lost".to_string())),
        _ => panic!("the failure to roll back must be returned"),
    }
}

#[test]
fn an_event_out_of_step_ends_the_transaction() {
    let cases: Vec<(TxState<u32>, TxEvent<u32>)> = vec![
        (TxState::Beginning, TxEvent::Settled(Ok(1))),
        (TxState::Running, TxEvent::Answered(Ok(()))),
        (TxState::Committing(1), TxEvent::Settled(Ok(2))),
        (TxState::RollingBack(DaoError::NotFound), TxEvent::Settled(Ok(2))),
        (TxState::Finished, TxEvent::Answered(Ok(()))),
        (TxState::Finished, TxEvent::Settled(Ok(2))),
    ];
    for (state, event) in cases {
        let (state, action) = step(state, event);
        assert!(matches!(state, TxState::Finished));
        match action {
            TxAction::Return(Err(e)) => {
                assert_eq!(e, DaoError::InternalError("transaction used out of step".to_string()))
            }
            _ => panic!("an event out of step must end in an internal error"),
        }
    }
}
