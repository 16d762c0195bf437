use vstd::prelude::*;
use crate::db::Database;
use crate::error::{DbError, Entity};
use crate::models::{copy_text, User};
use crate::password::{bcrypt_hash, password_verifies, verify_password};
use crate::table::{find_row, has_id, lemma_has_id_update, lemma_wf_update, replace_row, Record};

verus! {

/// A failure of the authentication service.
#[derive(Debug, Clone, Copy, PartialEq, Eq, Structural)]
pub enum AuthError {
    DatabaseError(DbError),
    InvalidCredentials,
    AccountDisabled,
    HashError,
}

/// What callers see of a user: everything but the password hash.
#[derive(Debug, PartialEq)]
pub struct UserResponse {
    pub id: i32,
    pub name: String,
    pub email: String,
    pub role: String,
    pub username: String,
    pub is_active: bool,
}

pub open spec fn public_view(u: User) -> UserResponse {
    UserResponse {
        id: u.id,
        name: u.name,
        email: u.email,
        role: u.role,
        username: u.username,
        is_active: u.is_active,
    }
}

impl From<User> for UserResponse {
    fn from(user: User) -> Self {
        UserResponse {
            id: user.id,
            name: user.name,
            email: user.email,
            role: user.role,
            username: user.username,
            is_active: user.is_active,
        }
    }
}

impl vstd::std_specs::convert::FromSpecImpl<User> for UserResponse {
    open spec fn obeys_from_spec() -> bool {
        true
    }

    open spec fn from_spec(user: User) -> Self {
        public_view(user)
    }
}

/// Whether some user has username `username`.
pub open spec fn has_username(users: Seq<User>, username: Seq<char>) -> bool {
    exists|i: int| 0 <= i < users.len() && #[trigger] users[i].username@ == username
}

/// The user with username `username`, if any.
pub open spec fn user_named(users: Seq<User>, username: Seq<char>) -> Option<User> {
    if has_username(users, username) {
        Some(users[choose|i: int| 0 <= i < users.len() && #[trigger] users[i].username@ == username])
    } else {
        None
    }
}

/// The outcome of a login attempt for the account `found` (if one has the
/// username given), where `password_accepted` says whether the password
/// matched its hash.
pub open spec fn login_outcome(found: Option<User>, password_accepted: bool) -> Result<UserResponse, AuthError> {
    match found {
        None => Err(AuthError::InvalidCredentials),
        Some(u) => if !u.is_active {
            Err(AuthError::AccountDisabled)
        } else if !password_accepted {
            Err(AuthError::InvalidCredentials)
        } else {
            Ok(public_view(u))
        },
    }
}

/// Position of the user with username `username`.
pub fn position_of_username(users: &Vec<User>, username: &String) -> (r: Option<usize>)
    requires
        crate::db::usernames_unique(users@),
    ensures
        match r {
            Some(k) => k < users@.len() && users@[k as int].username@ == username@ && user_named(
                users@,
                username@,
            ) == Some(users@[k as int]),
            None => !has_username(users@, username@) && user_named(users@, username@) is None,
        },
{
    let mut k: usize = 0;
    while k < users.len()
        invariant
            k <= users@.len(),
            crate::db::usernames_unique(users@),
            forall|i: int| 0 <= i < k ==> #[trigger] users@[i].username@ != username@,
        decreases users@.len() - k,
    {
        if users[k].username == *username {
            proof {
                let j = choose|i: int| 0 <= i < users@.len() && #[trigger] users@[i].username@ == username@;
                assert(users@[j].username@ == users@[k as int].username@);
                if j != k {
                    assert(users@[j].username@ != users@[k as int].username@);
                }
            }
            return Some(k);
        }
        k = k + 1;
    }
    None
}

/// Decides a login attempt once the account is looked up and, for an active
/// account, its password checked.
pub fn login_result(found: Option<User>, password_accepted: bool) -> (r: Result<UserResponse, AuthError>)
    ensures
        r == login_outcome(found, password_accepted),
{
    match found {
        None => Err(AuthError::InvalidCredentials),
        Some(u) => {
            if !u.is_active {
                Err(AuthError::AccountDisabled)
            } else if !password_accepted {
                Err(AuthError::InvalidCredentials)
            } else {
                Ok(UserResponse::from(u))
            }
        },
    }
}

/// Checks `username` and `password`: an unknown username or a wrong password
/// is `InvalidCredentials`, a disabled account `AccountDisabled`; on success
/// the user's public view is returned.
pub fn login(db: &Database, username: &str, password: &str) -> (r: Result<UserResponse, AuthError>)
    requires
        db.wf(),
    ensures
        r == login_outcome(
            user_named(db.users.rows@, username@),
            match user_named(db.users.rows@, username@) {
                Some(u) => password_verifies(password@, u.password_hash@),
                None => false,
            },
        ),
{
    let name = username.to_owned();
    match position_of_username(&db.users.rows, &name) {
        None => login_result(None, false),
        Some(k) => {
            let user = &db.users.rows[k];
            let accepted = if user.is_active {
                verify_password(password, user.password_hash.as_str())
            } else {
                false
            };
            proof {
                if !user.is_active {
                    assert(login_outcome(Some(*user), accepted) == login_outcome(
                        Some(*user),
                        password_verifies(password@, user.password_hash@),
                    ));
                }
            }
            login_result(Some(user.duplicate()), accepted)
        },
    }
}

/// A salted hash of `password` at work factor `cost`, which bcrypt accepts
/// `password` against; `HashError` when hashing fails.
pub fn hash_password(password: &str, cost: u32) -> (r: Result<String, AuthError>)
    ensures
        r matches Ok(h) ==> password_verifies(password@, h@),
        r matches Err(e) ==> e == AuthError::HashError,
        cost < 4 || cost > 31 ==> r == Err::<String, AuthError>(AuthError::HashError),
{
    match bcrypt_hash(password, cost) {
        Ok(h) => Ok(h),
        Err(_) => Err(AuthError::HashError),
    }
}

/// The public view of user `user_id`, if it exists.
pub fn get_user_by_id(db: &Database, user_id: i32) -> (r: Option<UserResponse>)
    requires
        db.wf(),
    ensures
        r == match find_row(db.users.rows@, user_id) {
            Some(u) => Some(public_view(u)),
            None => None,
        },
{
    match db.users.fetch(user_id) {
        Some(u) => Some(UserResponse::from(u)),
        None => None,
    }
}

/// The public view of the user a session names, if it names one that exists.
pub fn get_current_user(db: &Database, user_id: Option<i32>) -> (r: Option<UserResponse>)
    requires
        db.wf(),
    ensures
        r == match user_id {
            Some(id) => match find_row(db.users.rows@, id) {
                Some(u) => Some(public_view(u)),
                None => None,
            },
            None => None,
        },
{
    match user_id {
        Some(id) => get_user_by_id(db, id),
        None => None,
    }
}

/// Replaces the password of user `user_id` after checking `current_password`
/// against the stored hash (a missing user or a mismatch is
/// `InvalidCredentials`); the new hash uses the store's work factor.
pub fn change_password(db: &mut Database, user_id: i32, current_password: &str, new_password: &str) -> (r: Result<(), AuthError>)
    requires
        old(db).wf(),
    ensures
        final(db).wf(),
        final(db).clock == old(db).clock,
        match find_row(old(db).users.rows@, user_id) {
            None => r == Err::<(), AuthError>(AuthError::InvalidCredentials) && *final(db) == *old(db),
            Some(u) => if !password_verifies(current_password@, u.password_hash@) {
                &&& r == Err::<(), AuthError>(AuthError::InvalidCredentials)
                &&& *final(db) == *old(db)
            } else {
                ||| r == Err::<(), AuthError>(AuthError::HashError) && *final(db) == *old(db)
                ||| {
                    &&& r is Ok
                    &&& exists|h: String|
                        #![trigger password_verifies(new_password@, h@)]
                        password_verifies(new_password@, h@) && final(db).users.rows@ == replace_row(
                            old(db).users.rows@,
                            (User { password_hash: h, ..u }),
                        )
                    &&& final(db).same_except(old(db), set![Entity::User])
                }
            },
        },
{
    let k = match db.users.position(user_id) {
        Some(k) => k,
        None => return Err(AuthError::InvalidCredentials),
    };
    if !verify_password(current_password, db.users.rows[k].password_hash.as_str()) {
        return Err(AuthError::InvalidCredentials);
    }
    let new_hash = match hash_password(new_password, db.hash_cost) {
        Ok(h) => h,
        Err(e) => return Err(e),
    };
    let ghost before = *db;
    let current = &db.users.rows[k];
    let row = User {
        id: current.id,
        name: current.name.clone(),
        email: current.email.clone(),
        role: current.role.clone(),
        avatar: copy_text(&current.avatar),
        username: current.username.clone(),
        password_hash: new_hash,
        is_active: current.is_active,
        created_at: current.created_at,
    };
    proof {
        lemma_wf_update(before.users.rows@, before.users.last_id, before.clock, k as int, row);
        lemma_has_id_update(before.users.rows@, k as int, row);
    }
    db.users.replace(k, row);
    assert(db.tables_wf()) by {
        let us = db.users.rows@;
        assert forall|i: int, j: int| 0 <= i < us.len() && 0 <= j < us.len() && i != j implies #[trigger] us[i].username@
            != #[trigger] us[j].username@ by {
            assert(us[i].username == before.users.rows@[i].username);
            assert(us[j].username == before.users.rows@[j].username);
        }
        let ls = db.activity_logs.rows@;
        assert forall|i: int| 0 <= i < ls.len() implies (#[trigger] ls[i].user_id matches Some(x) ==> has_id(us, x)) by {
            if let Some(x) = ls[i].user_id {
                assert(has_id(before.users.rows@, x));
            }
        }
    }
    assert(row == (User { password_hash: row.password_hash, ..before.users.rows@[k as int] }));
    Ok(())
}

} // verus!
