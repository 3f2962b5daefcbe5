use photo_service::ddb::schema::Store;
use photo_service::ddb::{Dao, DaoError};
use photo_service::domain::photo::Photo;
use photo_service::domain::user::User;
use photo_service::domain::Timestamp;
use photo_service::graphql::errors::FieldErrorCode;
use photo_service::graphql::me::Me;
use photo_service::graphql::mutation::Mutation;
use photo_service::graphql::other::{Other, OtherConnection, OtherEdge};
use photo_service::graphql::photo::{PhotoConnection, PhotoEdge};
use photo_service::graphql::query::Query;
use photo_service::graphql::{
    Context, CreatePhotoInput, DeletePhotoInput, SignUpInput, UpdatePhotoInput, UpdateUserInput,
};

fn at(micros: i64) -> Timestamp {
    Timestamp::from_micros(micros)
}

fn user(id: &str, name: &str, t: i64) -> User {
    User::with_id(id.to_string(), name.to_string(), at(t))
}

fn picture(id: &str, owner: &str, t: i64) -> Photo {
    Photo::with_id(id.to_string(), owner.to_string(), format!("http://x/{}", id), false, at(t))
}

/// alice (u-1) owns p-1 and p-3, bob (u-2) owns p-2.
fn world(caller: Option<&str>) -> Context {
    let mut store = Store::new();
    Dao::<User>::new().insert(&mut store, user("u-1", "alice", 10)).unwrap();
    Dao::<User>::new().insert(&mut store, user("u-2", "bob", 20)).unwrap();
    Dao::<Photo>::new().insert(&mut store, &picture("p-1", "u-1", 30)).unwrap();
    Dao::<Photo>::new().insert(&mut store, &picture("p-2", "u-2", 40)).unwrap();
    Dao::<Photo>::new().insert(&mut store, &picture("p-3", "u-1", 50)).unwrap();
    Context::new(caller.map(|c| c.to_string()), store)
}

fn photo_in(ctx: &Context, id: &str) -> Result<Photo, DaoError> {
    Dao::<Photo>::new().get(&ctx.connection, id.to_string())
}

fn user_in(ctx: &Context, id: &str) -> Result<User, DaoError> {
    Dao::<User>::new().get(&ctx.connection, id.to_string())
}

#[test]
fn end_to_end_sign_up_post_and_publish() {
    let mut ctx = Context::new(None, Store::new());
    let me = Mutation
        .field_sign_up(&mut ctx, SignUpInput { name: "alice".to_string() }, at(100))
        .unwrap();
    assert_eq!(me.user.name, "alice");
    assert!(me.photos.is_empty());
    ctx.authorized_user_id = Some(me.user.id.clone());

    let created = Mutation
        .field_create_photo(
            &mut ctx,
            CreatePhotoInput { url: "http://x/1".to_string(), is_public: false },
            at(200),
        )
        .unwrap();
    assert_eq!(created.photo.url, "http://x/1");
    assert!(!created.photo.is_public);
    assert_eq!(created.photo.user_id, me.user.id);
    assert!(created.user.is_none());

    let mine = Query.field_photos(&ctx).unwrap();
    assert_eq!(mine.0, vec![(created.photo.clone(), None)]);

    let updated = Mutation
        .field_update_photo(
            &mut ctx,
            UpdatePhotoInput { id: created.photo.id.clone(), is_public: true },
            at(300),
        )
        .unwrap();
    assert!(updated.photo.is_public);

    let again = Query.field_photo(&ctx, created.photo.id.clone()).unwrap();
    assert!(again.photo.is_public);
    assert_eq!(again.photo.updated_at, at(300));
    assert!(again.photo.updated_at.micros > created.photo.updated_at.micros);
    assert_eq!(again.photo.created_at, at(200));
    assert_eq!(again.photo.url, "http://x/1");
    assert_eq!(Query.field_photos(&ctx).unwrap().0, vec![(again.photo, None)]);
}

#[test]
fn every_query_turns_away_a_request_without_identity() {
    let ctx = world(None);
    assert_eq!(Query.field_me(&ctx).unwrap_err().code(), FieldErrorCode::UnAuthenticate);
    assert_eq!(Query.field_others(&ctx).unwrap_err().code(), FieldErrorCode::UnAuthenticate);
    assert_eq!(Query.field_all_users(&ctx).unwrap_err().code(), FieldErrorCode::UnAuthenticate);
    assert_eq!(Query.field_photos(&ctx).unwrap_err().code(), FieldErrorCode::UnAuthenticate);
    assert_eq!(
        Query.field_photo(&ctx, "p-1".to_string()).unwrap_err().code(),
        FieldErrorCode::UnAuthenticate
    );
    assert_eq!(Query.field_all_photos(&ctx).unwrap_err().code(), FieldErrorCode::UnAuthenticate);
}

#[test]
fn every_mutation_but_sign_up_turns_away_a_request_without_identity() {
    let mut ctx = world(None);
    let unauthenticated = FieldErrorCode::UnAuthenticate;
    assert_eq!(
        Mutation
            .field_update_user(&mut ctx, UpdateUserInput { name: "x".to_string() }, at(60))
            .unwrap_err()
            .code(),
        unauthenticated
    );
    assert_eq!(Mutation.field_leave(&mut ctx).unwrap_err().code(), unauthenticated);
    assert_eq!(
        Mutation
            .field_create_photo(
                &mut ctx,
                CreatePhotoInput { url: "http://x".to_string(), is_public: true },
                at(60)
            )
            .unwrap_err()
            .code(),
        unauthenticated
    );
    assert_eq!(
        Mutation
            .field_update_photo(
                &mut ctx,
                UpdatePhotoInput { id: "p-1".to_string(), is_public: true },
                at(60)
            )
            .unwrap_err()
            .code(),
        unauthenticated
    );
    assert_eq!(
        Mutation
            .field_delete_photo(&mut ctx, DeletePhotoInput { id: "p-1".to_string() })
            .unwrap_err()
            .code(),
        unauthenticated
    );
    assert_eq!(ctx.connection.users().len(), 2);
    assert_eq!(ctx.connection.photos().len(), 3);
    assert_eq!(photo_in(&ctx, "p-1"), Ok(picture("p-1", "u-1", 30)));
    assert_eq!(user_in(&ctx, "u-1"), Ok(user("u-1", "alice", 10)));
}

#[test]
fn identity_is_asked_for_before_the_input_is_validated() {
    let mut ctx = world(None);
    assert_eq!(
        Mutation
            .field_update_user(&mut ctx, UpdateUserInput { name: String::new() }, at(60))
            .unwrap_err()
            .code(),
        FieldErrorCode::UnAuthenticate
    );
    assert_eq!(
        Mutation
            .field_create_photo(&mut ctx, CreatePhotoInput { url: String::new(), is_public: true }, at(60))
            .unwrap_err()
            .code(),
        FieldErrorCode::UnAuthenticate
    );
}

#[test]
fn sign_up_with_an_empty_name_is_a_bad_request() {
    let mut ctx = world(None);
    let err = Mutation.field_sign_up(&mut ctx, SignUpInput { name: String::new() }, at(60)).unwrap_err();
    assert_eq!(err.code(), FieldErrorCode::BadRequest);
    assert_eq!(ctx.connection.users().len(), 2);
}

#[test]
fn sign_up_stores_the_user_it_answers_with() {
    let mut ctx = world(None);
    let me = Mutation.field_sign_up(&mut ctx, SignUpInput { name: "carol".to_string() }, at(60)).unwrap();
    assert_eq!(me.user.id.len(), 36);
    assert_eq!(me.user.created_at, at(60));
    assert_eq!(me.user.updated_at, at(60));
    assert_eq!(user_in(&ctx, &me.user.id), Ok(me.user.clone()));
    assert_eq!(ctx.connection.users().len(), 3);
}

#[test]
fn enrolling_under_a_taken_identifier_is_internal() {
    let mut ctx = world(None);
    let err = Mutation.enroll(&mut ctx, user("u-1", "mallory", 60)).unwrap_err();
    assert_eq!(err.code(), FieldErrorCode::Internal);
    assert_eq!(user_in(&ctx, "u-1"), Ok(user("u-1", "alice", 10)));
    let me = Mutation.enroll(&mut ctx, user("u-3", "carol", 60)).unwrap();
    assert_eq!(me.user, user("u-3", "carol", 60));
    assert!(me.photos.is_empty());
    assert_eq!(user_in(&ctx, "u-3"), Ok(user("u-3", "carol", 60)));
}

#[test]
fn update_user_is_read_back_with_the_new_name_and_a_later_time() {
    let mut ctx = world(Some("u-1"));
    let me = Mutation
        .field_update_user(&mut ctx, UpdateUserInput { name: "alicia".to_string() }, at(60))
        .unwrap();
    assert_eq!(me.user.name, "alicia");
    assert!(me.photos.is_empty());
    let read = Query.field_me(&ctx).unwrap();
    assert_eq!(read.user.name, "alicia");
    assert_eq!(read.user.updated_at, at(60));
    assert!(read.user.updated_at.micros > 10);
    assert_eq!(read.user.created_at, at(10));
    assert_eq!(read.user.id, "u-1");
    assert_eq!(user_in(&ctx, "u-2"), Ok(user("u-2", "bob", 20)));
}

#[test]
fn of_two_name_updates_the_last_one_stays_whole() {
    let mut one = world(Some("u-1"));
    Mutation.field_update_user(&mut one, UpdateUserInput { name: "first".to_string() }, at(60)).unwrap();
    Mutation.field_update_user(&mut one, UpdateUserInput { name: "second".to_string() }, at(70)).unwrap();
    let mut other = world(Some("u-1"));
    Mutation.field_update_user(&mut other, UpdateUserInput { name: "second".to_string() }, at(70)).unwrap();
    assert_eq!(user_in(&one, "u-1"), user_in(&other, "u-1"));
    let stored = user_in(&one, "u-1").unwrap();
    assert_eq!(stored.name, "second");
    assert_eq!(stored.updated_at, at(70));
}

#[test]
fn update_user_with_an_empty_name_is_a_bad_request() {
    let mut ctx = world(Some("u-1"));
    let err = Mutation
        .field_update_user(&mut ctx, UpdateUserInput { name: String::new() }, at(60))
        .unwrap_err();
    assert_eq!(err.code(), FieldErrorCode::BadRequest);
    assert_eq!(user_in(&ctx, "u-1"), Ok(user("u-1", "alice", 10)));
}

#[test]
fn update_user_of_a_caller_without_a_row_is_not_found() {
    let mut ctx = world(Some("ghost"));
    let err = Mutation
        .field_update_user(&mut ctx, UpdateUserInput { name: "x".to_string() }, at(60))
        .unwrap_err();
    assert_eq!(err.code(), FieldErrorCode::NotFound);
    assert_eq!(ctx.connection.users().len(), 2);
}

#[test]
fn leave_removes_the_account_and_its_photos() {
    let mut ctx = world(Some("u-1"));
    assert_eq!(Mutation.field_leave(&mut ctx).unwrap(), true);
    assert_eq!(user_in(&ctx, "u-1"), Err(DaoError::NotFound));
    assert_eq!(photo_in(&ctx, "p-1"), Err(DaoError::NotFound));
    assert_eq!(photo_in(&ctx, "p-3"), Err(DaoError::NotFound));
    assert_eq!(photo_in(&ctx, "p-2"), Ok(picture("p-2", "u-2", 40)));
    assert_eq!(Mutation.field_leave(&mut ctx).unwrap(), true);
}

#[test]
fn create_photo_with_an_empty_url_is_a_bad_request() {
    let mut ctx = world(Some("u-1"));
    let err = Mutation
        .field_create_photo(&mut ctx, CreatePhotoInput { url: String::new(), is_public: true }, at(60))
        .unwrap_err();
    assert_eq!(err.code(), FieldErrorCode::BadRequest);
    assert_eq!(ctx.connection.photos().len(), 3);
}

#[test]
fn create_photo_for_a_caller_without_a_row_is_internal() {
    let mut ctx = world(Some("ghost"));
    let err = Mutation
        .field_create_photo(
            &mut ctx,
            CreatePhotoInput { url: "http://x".to_string(), is_public: true },
            at(60),
        )
        .unwrap_err();
    assert_eq!(err.code(), FieldErrorCode::Internal);
    assert_eq!(ctx.connection.photos().len(), 3);
}

#[test]
fn a_created_photo_is_listed_for_its_owner_and_for_nobody_else() {
    let mut ctx = world(Some("u-2"));
    let created = Mutation
        .field_create_photo(
            &mut ctx,
            CreatePhotoInput { url: "http://x/new".to_string(), is_public: true },
            at(60),
        )
        .unwrap();
    assert_eq!(created.photo.id.len(), 36);
    let his = Query.field_photos(&ctx).unwrap();
    assert_eq!(his.0, vec![(created.photo.clone(), None), (picture("p-2", "u-2", 40), None)]);
    ctx.authorized_user_id = Some("u-1".to_string());
    let hers = Query.field_photos(&ctx).unwrap();
    assert_eq!(hers.0, vec![(picture("p-3", "u-1", 50), None), (picture("p-1", "u-1", 30), None)]);
    assert!(hers.0.iter().all(|(p, _)| p.user_id == "u-1" && p.id != created.photo.id));
}

#[test]
fn posting_under_a_taken_identifier_is_internal() {
    let mut ctx = world(Some("u-1"));
    let err = Mutation.post(&mut ctx, picture("p-1", "u-1", 60)).unwrap_err();
    assert_eq!(err.code(), FieldErrorCode::Internal);
    assert_eq!(photo_in(&ctx, "p-1"), Ok(picture("p-1", "u-1", 30)));
    let posted = Mutation.post(&mut ctx, picture("p-9", "u-1", 60)).unwrap();
    assert_eq!(posted.photo, picture("p-9", "u-1", 60));
    assert_eq!(photo_in(&ctx, "p-9"), Ok(picture("p-9", "u-1", 60)));
}

#[test]
fn update_photo_of_someone_else_is_forbidden_and_changes_nothing() {
    let mut ctx = world(Some("u-2"));
    let err = Mutation
        .field_update_photo(&mut ctx, UpdatePhotoInput { id: "p-1".to_string(), is_public: true }, at(60))
        .unwrap_err();
    assert_eq!(err.code(), FieldErrorCode::Forbidden);
    assert_eq!(photo_in(&ctx, "p-1"), Ok(picture("p-1", "u-1", 30)));
}

#[test]
fn update_photo_that_is_absent_is_not_found() {
    let mut ctx = world(Some("u-1"));
    let err = Mutation
        .field_update_photo(&mut ctx, UpdatePhotoInput { id: "p-9".to_string(), is_public: true }, at(60))
        .unwrap_err();
    assert_eq!(err.code(), FieldErrorCode::NotFound);
    assert_eq!(ctx.connection.photos().len(), 3);
}

#[test]
fn of_two_visibility_updates_the_last_one_stays() {
    let mut ctx = world(Some("u-1"));
    let first = Mutation
        .field_update_photo(&mut ctx, UpdatePhotoInput { id: "p-1".to_string(), is_public: true }, at(60))
        .unwrap();
    let second = Mutation
        .field_update_photo(&mut ctx, UpdatePhotoInput { id: "p-1".to_string(), is_public: false }, at(70))
        .unwrap();
    assert!(first.photo.is_public);
    assert!(!second.photo.is_public);
    let stored = photo_in(&ctx, "p-1").unwrap();
    assert!(!stored.is_public);
    assert_eq!(stored.updated_at, at(70));
    assert!(first.photo.updated_at.micros > 30);
    assert!(second.photo.updated_at.micros > first.photo.updated_at.micros);
    assert_eq!(stored, second.photo);
}

#[test]
fn revised_decides_what_is_written_back() {
    let found = Ok(picture("p-1", "u-1", 30));
    let revised = Mutation::revised(&"u-1".to_string(), found, true, at(60)).unwrap();
    assert!(revised.is_public);
    assert_eq!(revised.updated_at, at(60));
    assert_eq!(revised.created_at, at(30));
    assert_eq!(
        Mutation::revised(&"u-2".to_string(), Ok(picture("p-1", "u-1", 30)), true, at(60)),
        Err(DaoError::Forbidden)
    );
    assert_eq!(
        Mutation::revised(&"u-1".to_string(), Err(DaoError::NotFound), true, at(60)),
        Err(DaoError::NotFound)
    );
}

#[test]
fn renamed_decides_what_is_written_back() {
    let renamed = Mutation::renamed(Ok(user("u-1", "alice", 10)), "alicia".to_string(), at(60)).unwrap();
    assert_eq!(renamed.name, "alicia");
    assert_eq!(renamed.updated_at, at(60));
    assert_eq!(renamed.created_at, at(10));
    assert_eq!(
        Mutation::renamed(Err(DaoError::NotFound), "alicia".to_string(), at(60)),
        Err(DaoError::NotFound)
    );
}

#[test]
fn deletable_is_for_the_owner_only() {
    assert_eq!(Mutation::deletable(&"u-1".to_string(), Ok(picture("p-1", "u-1", 30))), Ok(()));
    assert_eq!(
        Mutation::deletable(&"u-2".to_string(), Ok(picture("p-1", "u-1", 30))),
        Err(DaoError::Forbidden)
    );
    assert_eq!(
        Mutation::deletable(&"u-1".to_string(), Err(DaoError::NotFound)),
        Err(DaoError::NotFound)
    );
}

#[test]
fn delete_photo_of_someone_else_is_forbidden_and_leaves_the_row() {
    let mut ctx = world(Some("u-2"));
    let err = Mutation
        .field_delete_photo(&mut ctx, DeletePhotoInput { id: "p-1".to_string() })
        .unwrap_err();
    assert_eq!(err.code(), FieldErrorCode::Forbidden);
    assert_eq!(photo_in(&ctx, "p-1"), Ok(picture("p-1", "u-1", 30)));
    assert_eq!(ctx.connection.photos().len(), 3);
}

#[test]
fn delete_photo_that_is_absent_is_not_found() {
    let mut ctx = world(Some("u-1"));
    let err = Mutation
        .field_delete_photo(&mut ctx, DeletePhotoInput { id: "p-9".to_string() })
        .unwrap_err();
    assert_eq!(err.code(), FieldErrorCode::NotFound);
    assert_eq!(ctx.connection.photos().len(), 3);
}

#[test]
fn delete_own_photo() {
    let mut ctx = world(Some("u-1"));
    assert_eq!(
        Mutation.field_delete_photo(&mut ctx, DeletePhotoInput { id: "p-1".to_string() }).unwrap(),
        true
    );
    assert_eq!(photo_in(&ctx, "p-1"), Err(DaoError::NotFound));
    assert_eq!(ctx.connection.photos().len(), 2);
    let err = Mutation
        .field_delete_photo(&mut ctx, DeletePhotoInput { id: "p-1".to_string() })
        .unwrap_err();
    assert_eq!(err.code(), FieldErrorCode::NotFound);
}

#[test]
fn me_is_the_caller_with_their_photos() {
    let ctx = world(Some("u-1"));
    let me = Query.field_me(&ctx).unwrap();
    assert_eq!(me.user, user("u-1", "alice", 10));
    assert_eq!(me.photos, vec![picture("p-3", "u-1", 50), picture("p-1", "u-1", 30)]);
    let ghost = world(Some("ghost"));
    assert_eq!(Query.field_me(&ghost).unwrap_err().code(), FieldErrorCode::NotFound);
}

#[test]
fn others_are_everyone_but_the_caller() {
    let ctx = world(Some("u-1"));
    let others = Query.field_others(&ctx).unwrap();
    assert_eq!(others.0, vec![(user("u-2", "bob", 20), None)]);
}

#[test]
fn all_users_come_with_their_photos() {
    let ctx = world(Some("u-1"));
    let all = Query.field_all_users(&ctx).unwrap();
    assert_eq!(
        all.0,
        vec![
            (user("u-2", "bob", 20), Some(vec![picture("p-2", "u-2", 40)])),
            (user("u-1", "alice", 10), Some(vec![picture("p-3", "u-1", 50), picture("p-1", "u-1", 30)])),
        ]
    );
}

#[test]
fn my_photo_is_for_its_owner_only() {
    let ctx = world(Some("u-1"));
    let mine = Query.field_photo(&ctx, "p-1".to_string()).unwrap();
    assert_eq!(mine.photo, picture("p-1", "u-1", 30));
    assert!(mine.user.is_none());
    assert_eq!(Query.field_photo(&ctx, "p-2".to_string()).unwrap_err().code(), FieldErrorCode::Forbidden);
    assert_eq!(Query.field_photo(&ctx, "p-9".to_string()).unwrap_err().code(), FieldErrorCode::NotFound);
}

#[test]
fn all_photos_come_with_their_owner() {
    let ctx = world(Some("u-2"));
    let all = Query.field_all_photos(&ctx).unwrap();
    assert_eq!(
        all.0,
        vec![
            (picture("p-3", "u-1", 50), Some(user("u-1", "alice", 10))),
            (picture("p-2", "u-2", 40), Some(user("u-2", "bob", 20))),
            (picture("p-1", "u-1", 30), Some(user("u-1", "alice", 10))),
        ]
    );
}

#[test]
fn me_fields() {
    let mut ctx = world(Some("u-1"));
    let me = Query.field_me(&ctx).unwrap();
    assert_eq!(me.field_id().unwrap(), "u-1");
    assert_eq!(me.field_name().unwrap(), "alice");
    let photos = me.field_photos().unwrap();
    assert_eq!(photos.len(), 2);
    assert_eq!(photos[0].photo, picture("p-3", "u-1", 50));
    assert!(photos[0].user.is_none());
    let loaded = me.field_load_photos(&mut ctx).unwrap();
    assert_eq!(loaded.len(), 2);
    assert_eq!(loaded[0].photo, picture("p-3", "u-1", 50));
    assert_eq!(loaded[1].photo, picture("p-1", "u-1", 30));
    let copy: Me = me.clone();
    assert_eq!(copy.user, me.user);
    assert_eq!(copy.photos, me.photos);
}

#[test]
fn loaded_photos_are_remembered_for_the_request() {
    let mut ctx = world(Some("u-1"));
    let me = Query.field_me(&ctx).unwrap();
    assert_eq!(me.field_load_photos(&mut ctx).unwrap().len(), 2);
    Dao::<Photo>::new().delete(&mut ctx.connection, "p-1".to_string()).unwrap();
    assert_eq!(me.field_load_photos(&mut ctx).unwrap().len(), 2);
    let fresh = Context::new(Some("u-1".to_string()), ctx.connection.snapshot());
    let mut fresh = fresh;
    assert_eq!(me.field_load_photos(&mut fresh).unwrap().len(), 1);
}

#[test]
fn photo_fields() {
    let mut ctx = world(Some("u-1"));
    let all = Query.field_all_photos(&ctx).unwrap();
    let edges: Vec<PhotoEdge> = all.field_edges().unwrap();
    assert_eq!(edges.len(), 3);
    let node = edges[1].field_node().unwrap();
    assert_eq!(node.field_id().unwrap(), "p-2");
    assert_eq!(node.field_user_id().unwrap(), "u-2");
    assert_eq!(node.field_url().unwrap(), "http://x/p-2");
    assert_eq!(node.field_is_public().unwrap(), false);
    let owner = node.field_user().unwrap().unwrap();
    assert_eq!(owner.user, user("u-2", "bob", 20));
    assert!(owner.photos.is_none());
    let loaded = node.field_load_user(&mut ctx).unwrap();
    assert_eq!(loaded.user, user("u-2", "bob", 20));
    assert!(loaded.photos.is_none());

    let mine = Query.field_photo(&ctx, "p-1".to_string()).unwrap();
    assert!(mine.field_user().unwrap().is_none());
    let copy: PhotoConnection = all.clone();
    assert_eq!(copy.0, all.0);
}

#[test]
fn loading_the_owner_of_an_orphan_is_not_found() {
    let mut ctx = world(Some("u-1"));
    let orphan = photo_service::graphql::photo::Photo { photo: picture("p-x", "ghost", 1), user: None };
    assert_eq!(orphan.field_load_user(&mut ctx).unwrap_err().code(), FieldErrorCode::NotFound);
}

#[test]
fn other_fields() {
    let ctx = world(Some("u-1"));
    let others: OtherConnection = Query.field_others(&ctx).unwrap();
    let edges: Vec<OtherEdge> = others.field_edges().unwrap();
    assert_eq!(edges.len(), 1);
    let bob: Other = edges[0].field_node().unwrap();
    assert_eq!(bob.field_id().unwrap(), "u-2");
    assert_eq!(bob.field_name().unwrap(), "bob");
    assert!(bob.photos.is_none());
    let from_store = bob.field_photos(&ctx).unwrap();
    assert_eq!(from_store.0, vec![(picture("p-2", "u-2", 40), None)]);

    let all = Query.field_all_users(&ctx).unwrap();
    let alice = all.field_edges().unwrap()[1].field_node().unwrap();
    assert_eq!(alice.field_id().unwrap(), "u-1");
    let fetched_along = alice.field_photos(&ctx).unwrap();
    assert_eq!(
        fetched_along.0,
        vec![(picture("p-3", "u-1", 50), None), (picture("p-1", "u-1", 30), None)]
    );
    let preset = Other { user: user("u-2", "bob", 20), photos: Some(vec![]) };
    assert!(preset.field_photos(&ctx).unwrap().0.is_empty());
    let copy = others.clone();
    assert_eq!(copy.0, others.0);
}

#[test]
fn the_context_hands_out_data_access_objects() {
    let ctx = world(Some("u-1"));
    assert_eq!(ctx.authorized_user_id, Some("u-1".to_string()));
    let users = ctx.ddb_dao::<User>();
    assert_eq!(users.get(&ctx.connection, "u-2".to_string()), Ok(user("u-2", "bob", 20)));
    let photos = ctx.ddb_dao::<Photo>();
    assert_eq!(photos.get(&ctx.connection, "p-2".to_string()), Ok(picture("p-2", "u-2", 40)));
}

#[test]
fn new_user_validates_before_it_makes_the_user() {
    let user = Mutation::new_user(SignUpInput { name: "dave".to_string() }, at(5)).unwrap();
    assert_eq!(user.name, "dave");
    assert_eq!(user.id.len(), 36);
    assert_eq!(user.created_at, at(5));
    assert_eq!(user.updated_at, at(5));
    let err = Mutation::new_user(SignUpInput { name: String::new() }, at(5)).unwrap_err();
    assert_eq!(err.code(), FieldErrorCode::BadRequest);
}

#[test]
fn renaming_asks_for_identity_first_and_a_name_second() {
    let asked = Mutation::renaming(&Some("u-1".to_string()), UpdateUserInput { name: "x".to_string() });
    assert_eq!(asked.unwrap(), ("u-1".to_string(), "x".to_string()));
    let err = Mutation::renaming(&None, UpdateUserInput { name: String::new() }).unwrap_err();
    assert_eq!(err.code(), FieldErrorCode::UnAuthenticate);
    let err = Mutation::renaming(&None, UpdateUserInput { name: "x".to_string() }).unwrap_err();
    assert_eq!(err.code(), FieldErrorCode::UnAuthenticate);
    let err = Mutation::renaming(&Some("u-1".to_string()), UpdateUserInput { name: String::new() })
        .unwrap_err();
    assert_eq!(err.code(), FieldErrorCode::BadRequest);
}

#[test]
fn new_photo_asks_for_identity_first_and_an_address_second() {
    let input = || CreatePhotoInput { url: "http://x/9".to_string(), is_public: true };
    let empty = || CreatePhotoInput { url: String::new(), is_public: true };
    let photo = Mutation::new_photo(&Some("u-1".to_string()), input(), at(5)).unwrap();
    assert_eq!(photo.user_id, "u-1");
    assert_eq!(photo.url, "http://x/9");
    assert!(photo.is_public);
    assert_eq!(photo.id.len(), 36);
    assert_eq!(photo.created_at, at(5));
    assert_eq!(photo.updated_at, at(5));
    assert_eq!(Mutation::new_photo(&None, input(), at(5)).unwrap_err().code(), FieldErrorCode::UnAuthenticate);
    assert_eq!(Mutation::new_photo(&None, empty(), at(5)).unwrap_err().code(), FieldErrorCode::UnAuthenticate);
    assert_eq!(
        Mutation::new_photo(&Some("u-1".to_string()), empty(), at(5)).unwrap_err().code(),
        FieldErrorCode::BadRequest
    );
}

#[test]
fn a_loaded_value_is_returned_again_whatever_the_store_holds_by_then() {
    let mut ctx = world(Some("u-1"));
    let me = Query.field_me(&ctx).unwrap();
    let first = me.field_load_photos(&mut ctx).unwrap();
    Dao::<Photo>::new().delete(&mut ctx.connection, "p-1".to_string()).unwrap();
    Dao::<Photo>::new().insert(&mut ctx.connection, &picture("p-7", "u-1", 70)).unwrap();
    let second = me.field_load_photos(&mut ctx).unwrap();
    assert_eq!(first.len(), 2);
    assert_eq!(second.len(), 2);
    for (a, b) in first.iter().zip(second.iter()) {
        assert_eq!(a.photo, b.photo);
    }
    let keys = vec!["u-1".to_string()];
    let (again, trips) = ctx.photo_loader.load_many(&ctx.connection, &keys);
    assert_eq!(trips, 0);
    assert_eq!(again[0].clone().unwrap().len(), 2);
    let mut other = Context::new(Some("u-1".to_string()), ctx.connection.snapshot());
    let fresh = me.field_load_photos(&mut other).unwrap();
    assert_eq!(fresh.len(), 2);
    assert_eq!(fresh[0].photo, picture("p-7", "u-1", 70));
    assert_eq!(fresh[1].photo, picture("p-3", "u-1", 50));
}

#[test]
fn a_loaded_owner_is_returned_again_after_they_left() {
    let mut ctx = world(Some("u-1"));
    let shot = photo_service::graphql::photo::Photo { photo: picture("p-2", "u-2", 40), user: None };
    let first = shot.field_load_user(&mut ctx).unwrap();
    Dao::<User>::new().delete(&mut ctx.connection, "u-2".to_string()).unwrap();
    let second = shot.field_load_user(&mut ctx).unwrap();
    assert_eq!(first.user, user("u-2", "bob", 20));
    assert_eq!(second.user, first.user);
    let mut other = Context::new(Some("u-1".to_string()), ctx.connection.snapshot());
    assert_eq!(shot.field_load_user(&mut other).unwrap_err().code(), FieldErrorCode::NotFound);
}

#[test]
fn what_the_loader_settled_with_decides_the_answer() {
    let owner = photo_service::graphql::photo::Photo::loaded_user(Ok(vec![user("u-2", "bob", 20), user("u-3", "carol", 30)])).unwrap();
    assert_eq!(owner.user, user("u-2", "bob", 20));
    assert!(owner.photos.is_none());
    assert_eq!(photo_service::graphql::photo::Photo::loaded_user(Ok(vec![])).unwrap_err().code(), FieldErrorCode::NotFound);
    assert_eq!(
        photo_service::graphql::photo::Photo::loaded_user(Err(DaoError::InternalError("down".to_string()))).unwrap_err().code(),
        FieldErrorCode::Internal
    );
    let photos = Me::loaded_photos(Ok(vec![picture("p-1", "u-1", 30)])).unwrap();
    assert_eq!(photos.len(), 1);
    assert_eq!(photos[0].photo, picture("p-1", "u-1", 30));
    assert!(photos[0].user.is_none());
    assert_eq!(
        Me::loaded_photos(Err(DaoError::InternalError("down".to_string()))).unwrap_err().code(),
        FieldErrorCode::Internal
    );
}

#[test]
fn photos_fetched_along_are_shown_without_a_lookup() {
    let given = Other { user: user("u-2", "bob", 20), photos: Some(vec![picture("p-2", "u-2", 40)]) };
    assert_eq!(given.given_photos().unwrap().0, vec![(picture("p-2", "u-2", 40), None)]);
    let bare = Other { user: user("u-2", "bob", 20), photos: None };
    assert!(bare.given_photos().is_none());
    assert_eq!(
        Other::found_photos(Ok(vec![picture("p-2", "u-2", 40)])).unwrap().0,
        vec![(picture("p-2", "u-2", 40), None)]
    );
    assert_eq!(
        Other::found_photos(Err(DaoError::InternalError("down".to_string()))).unwrap_err().code(),
        FieldErrorCode::Internal
    );
}

#[test]
fn sign_up_succeeds_on_a_store_without_users() {
    for name in ["a", "alice", "someone with a long name"] {
        let mut ctx = Context::new(None, Store::new());
        let me = Mutation.field_sign_up(&mut ctx, SignUpInput { name: name.to_string() }, at(1)).unwrap();
        assert_eq!(me.user.name, name);
        assert_eq!(ctx.connection.users().len(), 1);
    }
}

#[test]
fn create_photo_succeeds_for_a_caller_with_a_row_on_a_store_without_photos() {
    let mut store = Store::new();
    Dao::<User>::new().insert(&mut store, user("u-1", "alice", 10)).unwrap();
    let mut ctx = Context::new(Some("u-1".to_string()), store);
    let out = Mutation
        .field_create_photo(&mut ctx, CreatePhotoInput { url: "http://x".to_string(), is_public: true }, at(2))
        .unwrap();
    assert_eq!(out.photo.user_id, "u-1");
    assert_eq!(ctx.connection.photos().len(), 1);
}
