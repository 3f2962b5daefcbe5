use photo_service::ddb::schema::Store;
use photo_service::ddb::{Dao, DaoError};
use photo_service::domain::photo::Photo;
use photo_service::domain::user::User;
use photo_service::domain::Timestamp;
use photo_service::loader::{BatchLoader, MAX_BATCH_SIZE};

fn at(micros: i64) -> Timestamp {
    Timestamp::from_micros(micros)
}

fn key(i: usize) -> String {
    format!("u-{}", i)
}

fn populated(users: usize) -> Store {
    let mut store = Store::new();
    for i in 0..users {
        Dao::<User>::new()
            .insert(&mut store, User::with_id(key(i), format!("user {}", i), at(i as i64)))
            .unwrap();
        for n in 0..(i % 3) {
            let photo = Photo::with_id(
                format!("p-{}-{}", i, n),
                key(i),
                format!("http://x/{}/{}", i, n),
                n == 0,
                at((i * 10 + n) as i64),
            );
            Dao::<Photo>::new().insert(&mut store, &photo).unwrap();
        }
    }
    store
}

#[test]
fn the_batch_size_is_one_hundred() {
    assert_eq!(MAX_BATCH_SIZE, 100);
}

#[test]
fn two_hundred_and_fifty_keys_take_three_round_trips() {
    let store = populated(250);
    let mut loader: BatchLoader<Photo> = BatchLoader::new();
    for i in 0..250 {
        assert!(loader.load(key(i)).is_none());
    }
    assert_eq!(loader.dispatch_all(&store), 3);
    for i in 0..250 {
        let direct = Dao::<Photo>::new().get_all_by_user(&store, key(i));
        assert_eq!(loader.peek(&key(i)), Some(direct.clone()));
        assert_eq!(direct.unwrap().len(), i % 3);
    }
    assert_eq!(loader.dispatch_all(&store), 0);
}

#[test]
fn round_trips_are_the_keys_over_one_hundred_rounded_up() {
    let store = populated(5);
    for (keys, trips) in [(0usize, 0usize), (1, 1), (99, 1), (100, 1), (101, 2), (200, 2), (201, 3)] {
        let mut loader: BatchLoader<Photo> = BatchLoader::new();
        for i in 0..keys {
            loader.load(key(i));
        }
        assert_eq!(loader.dispatch_all(&store), trips, "{} keys", keys);
    }
}

#[test]
fn load_many_returns_what_a_lookup_of_each_key_alone_returns() {
    let store = populated(250);
    let keys: Vec<String> = (0..250).map(key).collect();
    let mut loader: BatchLoader<Photo> = BatchLoader::new();
    let (values, trips) = loader.load_many(&store, &keys);
    assert_eq!(trips, 3);
    assert_eq!(values.len(), 250);
    for (i, value) in values.iter().enumerate() {
        assert_eq!(*value, Dao::<Photo>::new().get_all_by_user(&store, key(i)));
    }
}

#[test]
fn a_key_asked_for_twice_waits_once() {
    let store = populated(3);
    let mut loader: BatchLoader<Photo> = BatchLoader::new();
    let keys = vec![key(1), key(2), key(1), key(1), key(2)];
    let (values, trips) = loader.load_many(&store, &keys);
    assert_eq!(trips, 1);
    assert_eq!(values.len(), 5);
    assert_eq!(values[0], values[2]);
    assert_eq!(values[0], values[3]);
    assert_eq!(values[1], values[4]);
    assert_eq!(values[0].clone().unwrap().len(), 1);
    assert_eq!(values[1].clone().unwrap().len(), 2);
}

#[test]
fn a_settled_key_is_answered_without_a_round_trip() {
    let mut store = populated(3);
    let mut loader: BatchLoader<Photo> = BatchLoader::new();
    let (first, trips) = loader.load_many(&store, &vec![key(2)]);
    assert_eq!(trips, 1);
    Dao::<Photo>::new().delete(&mut store, "p-2-0".to_string()).unwrap();
    let cached = loader.load(key(2));
    assert_eq!(cached, Some(first[0].clone()));
    let (again, trips) = loader.load_many(&store, &vec![key(2)]);
    assert_eq!(trips, 0);
    assert_eq!(again, first);
    assert_eq!(again[0].clone().unwrap().len(), 2);
}

#[test]
fn a_key_without_rows_settles_with_none() {
    let store = populated(1);
    let mut loader: BatchLoader<Photo> = BatchLoader::new();
    let (values, trips) = loader.load_many(&store, &vec!["nobody".to_string()]);
    assert_eq!(trips, 1);
    assert_eq!(values, vec![Ok(vec![])]);
}

#[test]
fn next_batch_hands_out_the_oldest_keys_first() {
    let mut loader: BatchLoader<Photo> = BatchLoader::new();
    for i in 0..150 {
        loader.load(key(i));
    }
    let first = loader.next_batch();
    assert_eq!(first, (0..100).map(key).collect::<Vec<_>>());
    let second = loader.next_batch();
    assert_eq!(second, (100..150).map(key).collect::<Vec<_>>());
    assert!(loader.next_batch().is_empty());
}

#[test]
fn resolve_gives_each_key_its_own_rows() {
    let mut loader: BatchLoader<Photo> = BatchLoader::new();
    loader.load("a".to_string());
    loader.load("b".to_string());
    loader.load("c".to_string());
    let batch = loader.next_batch();
    let p = |id: &str, owner: &str, t: i64| {
        Photo::with_id(id.to_string(), owner.to_string(), "http://x".to_string(), false, at(t))
    };
    let rows = vec![p("1", "b", 9), p("2", "a", 8), p("3", "b", 7)];
    loader.resolve(batch, Ok(rows));
    assert_eq!(loader.peek(&"a".to_string()), Some(Ok(vec![p("2", "a", 8)])));
    assert_eq!(loader.peek(&"b".to_string()), Some(Ok(vec![p("1", "b", 9), p("3", "b", 7)])));
    assert_eq!(loader.peek(&"c".to_string()), Some(Ok(vec![])));
    assert_eq!(loader.peek(&"d".to_string()), None);
}

#[test]
fn a_failed_round_trip_settles_every_key_with_the_same_failure() {
    let mut loader: BatchLoader<Photo> = BatchLoader::new();
    loader.load("a".to_string());
    loader.load("b".to_string());
    let batch = loader.next_batch();
    loader.resolve(batch, Err(DaoError::InternalError("store is down".to_string())));
    let failure = Err(DaoError::InternalError("store is down".to_string()));
    assert_eq!(loader.peek(&"a".to_string()), Some(failure.clone()));
    assert_eq!(loader.peek(&"b".to_string()), Some(failure.clone()));
    assert_eq!(loader.load("a".to_string()), Some(failure));
    assert!(loader.next_batch().is_empty());
}

#[test]
fn a_failure_stays_within_its_round_trip() {
    let mut loader: BatchLoader<Photo> = BatchLoader::new();
    for i in 0..150 {
        loader.load(key(i));
    }
    let first = loader.next_batch();
    loader.resolve(first, Err(DaoError::InternalError("hiccup".to_string())));
    let second = loader.next_batch();
    loader.resolve(second, Ok(vec![]));
    assert_eq!(loader.peek(&key(0)), Some(Err(DaoError::InternalError("hiccup".to_string()))));
    assert_eq!(loader.peek(&key(99)), Some(Err(DaoError::InternalError("hiccup".to_string()))));
    assert_eq!(loader.peek(&key(100)), Some(Ok(vec![])));
    assert_eq!(loader.peek(&key(149)), Some(Ok(vec![])));
}

#[test]
fn resolving_a_settled_key_again_keeps_what_it_had() {
    let mut loader: BatchLoader<Photo> = BatchLoader::new();
    loader.load("a".to_string());
    let batch = loader.next_batch();
    loader.resolve(batch, Ok(vec![]));
    loader.resolve(vec!["a".to_string()], Err(DaoError::NotFound));
    assert_eq!(loader.peek(&"a".to_string()), Some(Ok(vec![])));
}

#[test]
fn resolving_keys_that_still_wait_takes_them_out_of_the_queue() {
    let mut loader: BatchLoader<Photo> = BatchLoader::new();
    loader.load("a".to_string());
    loader.load("b".to_string());
    loader.resolve(vec!["a".to_string()], Ok(vec![]));
    assert_eq!(loader.next_batch(), vec!["b".to_string()]);
}

#[test]
fn users_are_loaded_by_their_identifier() {
    let store = populated(120);
    let mut loader: BatchLoader<User> = BatchLoader::new();
    let mut keys: Vec<String> = (0..120).map(key).collect();
    keys.push("nobody".to_string());
    let (values, trips) = loader.load_many(&store, &keys);
    assert_eq!(trips, 2);
    for i in 0..120 {
        let users = values[i].clone().unwrap();
        assert_eq!(users.len(), 1);
        assert_eq!(users[0], Dao::<User>::new().get(&store, key(i)).unwrap());
    }
    assert_eq!(values[120], Ok(vec![]));
}
