use spexor::activity_logs::{create_activity_log, get_activity_logs, CreateActivityLogInput};
use spexor::api::ApiResponse;
use spexor::auth::{
    change_password, get_current_user, get_user_by_id, hash_password, login, login_result,
    AuthError, UserResponse,
};
use spexor::bootstrap::{advance, init_db, seed_admin_user, BootStage, ADMIN_PASSWORD, ADMIN_USERNAME};
use spexor::db::Database;
use spexor::error::{DbError, Entity};
use spexor::greet::{greet, greet_async_response};
use spexor::models::User;
use spexor::pool::{ConnectionPool, MAX_CONNECTIONS};
use spexor::users::{
    create_user, delete_user, get_user, get_users, update_user, CreateUserInput, UpdateUserInput,
};

fn fresh() -> Database {
    let mut db = Database::new(4);
    init_db(&mut db).unwrap();
    db
}

fn user_input(name: &str, username: &str, password: &str) -> CreateUserInput {
    CreateUserInput {
        name: name.to_string(),
        email: format!("{}@example.org", username),
        role: "analyst".to_string(),
        avatar: None,
        username: username.to_string(),
        password: password.to_string(),
    }
}

fn no_changes() -> UpdateUserInput {
    UpdateUserInput { name: None, email: None, role: None, avatar: None, is_active: None }
}

#[test]
fn admin_logs_in_after_bootstrap() {
    let db = fresh();
    let user = login(&db, "admin", "admin").unwrap();
    assert_eq!(user.username, "admin");
    assert_eq!(user.role, "admin");
    assert_eq!(user.name, "Administrator");
    assert!(user.is_active);
    assert_eq!(ADMIN_USERNAME, "admin");
    assert_eq!(ADMIN_PASSWORD, "admin");
}

#[test]
fn wrong_password_is_invalid_credentials() {
    let db = fresh();
    assert_eq!(login(&db, "admin", "wrong"), Err(AuthError::InvalidCredentials));
    assert_eq!(login(&db, "nobody", "admin"), Err(AuthError::InvalidCredentials));
}

#[test]
fn disabled_account_cannot_log_in() {
    let mut db = fresh();
    let admin = get_users(&db)[0].id;
    let mut change = no_changes();
    change.is_active = Some(false);
    let updated = update_user(&mut db, admin, change).unwrap();
    assert!(!updated.is_active);
    assert_eq!(login(&db, "admin", "admin"), Err(AuthError::AccountDisabled));
    assert_eq!(login(&db, "admin", "wrong"), Err(AuthError::AccountDisabled));
}

#[test]
fn change_password_with_wrong_current_keeps_old() {
    let mut db = fresh();
    let admin = get_users(&db)[0].id;
    assert_eq!(change_password(&mut db, admin, "nope", "fresh"), Err(AuthError::InvalidCredentials));
    assert!(login(&db, "admin", "admin").is_ok());
    assert_eq!(login(&db, "admin", "fresh"), Err(AuthError::InvalidCredentials));
    assert_eq!(change_password(&mut db, 99, "admin", "fresh"), Err(AuthError::InvalidCredentials));
}

#[test]
fn change_password_replaces_old() {
    let mut db = fresh();
    let admin = get_users(&db)[0].id;
    assert_eq!(change_password(&mut db, admin, "admin", "s3cret"), Ok(()));
    assert_eq!(login(&db, "admin", "admin"), Err(AuthError::InvalidCredentials));
    assert!(login(&db, "admin", "s3cret").is_ok());
}

#[test]
fn created_user_has_hashed_password() {
    let mut db = fresh();
    let user = create_user(&mut db, user_input("Nina", "nina", "pw-nina")).unwrap();
    assert_ne!(user.password_hash, "pw-nina");
    assert!(user.password_hash.starts_with("$2"));
    assert!(user.is_active);
    assert_eq!(get_user(&db, user.id).unwrap(), user);
    let view = login(&db, "nina", "pw-nina").unwrap();
    assert_eq!(view, UserResponse::from(user));
}

#[test]
fn duplicate_username_is_refused() {
    let mut db = fresh();
    create_user(&mut db, user_input("Nina", "nina", "a")).unwrap();
    let r = create_user(&mut db, user_input("Other", "nina", "b"));
    assert_eq!(r, Err(AuthError::DatabaseError(DbError::DuplicateUsername)));
    assert_eq!(get_users(&db).len(), 2);
}

#[test]
fn bad_work_factor_is_hash_error() {
    let mut db = Database::new(99);
    assert_eq!(init_db(&mut db), Err(AuthError::HashError));
    assert!(get_users(&db).is_empty());
    assert_eq!(hash_password("x", 2), Err(AuthError::HashError));
}

#[test]
fn hash_password_is_salted() {
    let a = hash_password("same", 4).unwrap();
    let b = hash_password("same", 4).unwrap();
    assert_ne!(a, "same");
    assert_ne!(a, b);
}

#[test]
fn users_listed_by_name() {
    let mut db = fresh();
    create_user(&mut db, user_input("Zed", "zed", "z")).unwrap();
    create_user(&mut db, user_input("Bea", "bea", "b")).unwrap();
    let names: Vec<String> = get_users(&db).iter().map(|u| u.name.clone()).collect();
    assert_eq!(names, vec!["Administrator", "Bea", "Zed"]);
}

#[test]
fn update_and_delete_user() {
    let mut db = fresh();
    let user = create_user(&mut db, user_input("Nina", "nina", "pw")).unwrap();
    let mut change = no_changes();
    change.email = Some("n@x.org".to_string());
    change.avatar = Some("n.png".to_string());
    let updated = update_user(&mut db, user.id, change).unwrap();
    assert_eq!(updated.email, "n@x.org");
    assert_eq!(updated.avatar, Some("n.png".to_string()));
    assert_eq!(updated.name, "Nina");
    assert_eq!(updated.password_hash, user.password_hash);
    create_activity_log(
        &mut db,
        CreateActivityLogInput { user_id: Some(user.id), action: "login".to_string(), target_type: "user".to_string(), target_id: None, details: None },
    )
    .unwrap();
    delete_user(&mut db, user.id);
    assert_eq!(get_user(&db, user.id), Err(DbError::NotFound(Entity::User, user.id)));
    let logs = get_activity_logs(&db);
    assert_eq!(logs.len(), 1);
    assert_eq!(logs[0].user_id, None);
    assert_eq!(update_user(&mut db, user.id, no_changes()), Err(DbError::NotFound(Entity::User, user.id)));
}

#[test]
fn current_user_views() {
    let db = fresh();
    let admin = get_users(&db)[0].id;
    assert_eq!(get_current_user(&db, None), None);
    assert_eq!(get_current_user(&db, Some(admin)).unwrap().username, "admin");
    assert_eq!(get_user_by_id(&db, 1234), None);
}

#[test]
fn login_decision_table() {
    let active = User {
        id: 3,
        name: "A".to_string(),
        email: "a@x".to_string(),
        role: "r".to_string(),
        avatar: None,
        username: "a".to_string(),
        password_hash: "h".to_string(),
        is_active: true,
        created_at: 0,
    };
    let mut inactive = User { ..active_copy(&active) };
    inactive.is_active = false;
    assert_eq!(login_result(None, true), Err(AuthError::InvalidCredentials));
    assert_eq!(login_result(Some(active_copy(&active)), false), Err(AuthError::InvalidCredentials));
    assert_eq!(login_result(Some(inactive), true), Err(AuthError::AccountDisabled));
    let ok = login_result(Some(active_copy(&active)), true).unwrap();
    assert_eq!(ok.id, 3);
    assert_eq!(ok.username, "a");
}

fn active_copy(u: &User) -> User {
    User {
        id: u.id,
        name: u.name.clone(),
        email: u.email.clone(),
        role: u.role.clone(),
        avatar: u.avatar.clone(),
        username: u.username.clone(),
        password_hash: u.password_hash.clone(),
        is_active: u.is_active,
        created_at: u.created_at,
    }
}

#[test]
fn seeding_is_idempotent() {
    let mut db = fresh();
    assert_eq!(seed_admin_user(&mut db), Ok(false));
    assert_eq!(get_users(&db).len(), 1);
}

#[test]
fn boot_stages_run_in_order() {
    let mut stage = BootStage::EnsureDataDir;
    let mut seen = vec![stage];
    while stage != BootStage::Ready {
        stage = advance(stage, true);
        seen.push(stage);
    }
    assert_eq!(
        seen,
        vec![BootStage::EnsureDataDir, BootStage::OpenPool, BootStage::ApplyMigrations, BootStage::SeedAdmin, BootStage::Ready]
    );
    assert_eq!(advance(BootStage::ApplyMigrations, false), BootStage::Failed);
    assert_eq!(advance(BootStage::Failed, true), BootStage::Failed);
}

#[test]
fn pool_is_bounded() {
    let mut pool = ConnectionPool::new(MAX_CONNECTIONS);
    for _ in 0..5 {
        assert_eq!(pool.acquire(), Ok(()));
    }
    assert_eq!(pool.acquire(), Err(DbError::PoolExhausted));
    assert_eq!(pool.available(), 0);
    pool.release();
    assert_eq!(pool.available(), 1);
    assert_eq!(pool.acquire(), Ok(()));
}

#[test]
fn greetings() {
    let g = greet("Ada".to_string());
    assert_eq!(g.message, "Hello, Ada! Welcome to Spexor.");
    assert!(!g.timestamp.is_empty());
    assert_eq!(greet_async_response("Ada".to_string()).message, "Async hello, Ada!");
}

#[test]
fn api_response_envelopes() {
    let ok = ApiResponse::ok(7);
    assert!(ok.success);
    assert_eq!(ok.data, Some(7));
    let err: ApiResponse<i32> = ApiResponse::err("boom");
    assert!(!err.success);
    assert_eq!(err.error, Some("boom".to_string()));
}

#[test]
fn consistency_check_finds_duplicate_usernames() {
    let mut db = fresh();
    create_user(&mut db, user_input("Nina", "nina", "pw")).unwrap();
    assert!(db.check_tables());
    db.users.rows[1].username = "admin".to_string();
    assert!(!db.check_tables());
}

#[test]
fn seeded_admin_has_fixed_profile() {
    let db = fresh();
    let users = get_users(&db);
    assert_eq!(users.len(), 1);
    assert_eq!(users[0].name, "Administrator");
    assert_eq!(users[0].email, "admin@spexor.local");
    assert_eq!(users[0].role, "admin");
    assert_eq!(users[0].avatar, None);
    let view = login(&db, "admin", "admin").unwrap();
    assert_eq!(view.name, "Administrator");
    assert_eq!(view.email, "admin@spexor.local");
}

#[test]
fn second_startup_changes_nothing() {
    let mut db = fresh();
    let users_before = get_users(&db);
    let clock = db.clock;
    assert_eq!(init_db(&mut db), Ok(()));
    assert_eq!(get_users(&db), users_before);
    assert_eq!(db.clock, clock);
    assert_eq!(db.users.last_id, 1);
}

#[test]
fn out_of_range_cost_fails_to_hash() {
    assert_eq!(hash_password("x", 3), Err(AuthError::HashError));
    assert_eq!(hash_password("x", 32), Err(AuthError::HashError));
}
