use vstd::prelude::*;
use crate::auth::{has_username, hash_password, position_of_username, AuthError};
use crate::cases::lemma_tables_later;
use crate::db::{clock_advanced, lookup, Database};
use crate::error::{DbError, Entity};
use crate::models::{copy_text, ActivityLog, User};
use crate::password::password_verifies;
use crate::sorting::{listing_of, sort_rows};
use crate::speakers::or_keep;
use crate::table::{
    lemma_without_absent,
    find_row, has_id, id_differs, lemma_has_id_filter, lemma_has_id_push, lemma_has_id_update,
    lemma_wf_filter, lemma_wf_push, lemma_wf_update, replace_row, rows_wf, without_id, Record,
};

verus! {

/// Fields of a new user; the password is stored only as a salted hash.
pub struct CreateUserInput {
    pub name: String,
    pub email: String,
    pub role: String,
    pub avatar: Option<String>,
    pub username: String,
    pub password: String,
}

/// Fields of a user to change; `None` leaves a field as it is. Setting
/// `is_active` to false disables the account.
pub struct UpdateUserInput {
    pub name: Option<String>,
    pub email: Option<String>,
    pub role: Option<String>,
    pub avatar: Option<String>,
    pub is_active: Option<bool>,
}

/// The user `u` after applying `input`.
pub open spec fn updated_user(u: User, input: UpdateUserInput) -> User {
    User {
        name: match input.name {
            Some(v) => v,
            None => u.name,
        },
        email: match input.email {
            Some(v) => v,
            None => u.email,
        },
        role: match input.role {
            Some(v) => v,
            None => u.role,
        },
        avatar: or_keep(input.avatar, u.avatar),
        is_active: match input.is_active {
            Some(v) => v,
            None => u.is_active,
        },
        ..u
    }
}

/// The log entry `l` with its link to user `id` cleared.
pub open spec fn unlinked(l: ActivityLog, id: i32) -> ActivityLog {
    if l.user_id == Some(id) {
        ActivityLog { user_id: None, ..l }
    } else {
        l
    }
}

/// All users, by name.
pub fn get_users(db: &Database) -> (r: Vec<User>)
    requires
        db.wf(),
    ensures
        listing_of(r@, db.users.rows@),
{
    sort_rows(db.users.all())
}

/// The user `id`.
pub fn get_user(db: &Database, id: i32) -> (r: Result<User, DbError>)
    requires
        db.wf(),
    ensures
        r == lookup(db.users.rows@, Entity::User, id),
{
    match db.users.fetch(id) {
        Some(u) => Ok(u),
        None => Err(DbError::NotFound(Entity::User, id)),
    }
}

/// Creates an active account whose password is hashed at the store's work
/// factor, and returns it. A taken username is refused.
pub fn create_user(db: &mut Database, input: CreateUserInput) -> (r: Result<User, AuthError>)
    requires
        old(db).wf(),
    ensures
        final(db).wf(),
        has_username(old(db).users.rows@, input.username@) ==> {
            &&& r == Err::<User, AuthError>(AuthError::DatabaseError(DbError::DuplicateUsername))
            &&& *final(db) == *old(db)
        },
        !has_username(old(db).users.rows@, input.username@) ==> match old(db).users.spec_next_id() {
            None => {
                &&& r == Err::<User, AuthError>(AuthError::DatabaseError(DbError::StorageFull))
                &&& *final(db) == *old(db)
            },
            Some(id) => {
                ||| r == Err::<User, AuthError>(AuthError::HashError) && *final(db) == *old(db)
                ||| {
                    &&& r is Ok
                    &&& r->Ok_0 == (User {
                        id,
                        name: input.name,
                        email: input.email,
                        role: input.role,
                        avatar: input.avatar,
                        username: input.username,
                        password_hash: r->Ok_0.password_hash,
                        is_active: true,
                        created_at: final(db).clock,
                    })
                    &&& password_verifies(input.password@, r->Ok_0.password_hash@)
                    &&& final(db).users.rows@ == old(db).users.rows@.push(r->Ok_0)
                    &&& clock_advanced(old(db).clock, final(db).clock)
                    &&& final(db).same_except(old(db), set![Entity::User])
                }
            },
        },
{
    if position_of_username(&db.users.rows, &input.username).is_some() {
        return Err(AuthError::DatabaseError(DbError::DuplicateUsername));
    }
    let id = match db.users.next_id() {
        Some(id) => id,
        None => return Err(AuthError::DatabaseError(DbError::StorageFull)),
    };
    let password_hash = match hash_password(input.password.as_str(), db.hash_cost) {
        Ok(h) => h,
        Err(e) => return Err(e),
    };
    let ghost before = *db;
    let stamp = db.tick();
    let row = User {
        id,
        name: input.name,
        email: input.email,
        role: input.role,
        avatar: input.avatar,
        username: input.username,
        password_hash,
        is_active: true,
        created_at: stamp,
    };
    let out = row.duplicate();
    proof {
        lemma_wf_push(before.users.rows@, before.users.last_id, before.clock, row, stamp);
        lemma_has_id_push(before.users.rows@, row);
        lemma_tables_later(before, *db);
    }
    db.users.append(row);
    assert(db.tables_wf()) by {
        let us = db.users.rows@;
        let n = before.users.rows@.len() as int;
        assert forall|i: int, j: int| 0 <= i < us.len() && 0 <= j < us.len() && i != j implies #[trigger] us[i].username@
            != #[trigger] us[j].username@ by {
            if i < n && j < n {
                assert(us[i] == before.users.rows@[i] && us[j] == before.users.rows@[j]);
            } else if i < n {
                assert(us[i] == before.users.rows@[i]);
            } else {
                assert(us[j] == before.users.rows@[j]);
            }
        }
        let ls = db.activity_logs.rows@;
        assert forall|i: int| 0 <= i < ls.len() implies (#[trigger] ls[i].user_id matches Some(x) ==> has_id(us, x)) by {
            if let Some(x) = ls[i].user_id {
                assert(has_id(before.users.rows@, x));
            }
        }
    }
    Ok(out)
}

/// Applies the supplied fields to user `id` and returns the user as it now stands.
pub fn update_user(db: &mut Database, id: i32, input: UpdateUserInput) -> (r: Result<User, DbError>)
    requires
        old(db).wf(),
    ensures
        final(db).wf(),
        final(db).clock == old(db).clock,
        match find_row(old(db).users.rows@, id) {
            None => {
                &&& r == Err::<User, DbError>(DbError::NotFound(Entity::User, id))
                &&& *final(db) == *old(db)
            },
            Some(u) => {
                &&& r == Ok::<User, DbError>(updated_user(u, input))
                &&& final(db).users.rows@ == replace_row(old(db).users.rows@, r->Ok_0)
                &&& final(db).same_except(old(db), set![Entity::User])
            },
        },
{
    let k = match db.users.position(id) {
        Some(k) => k,
        None => return Err(DbError::NotFound(Entity::User, id)),
    };
    let ghost before = *db;
    let current = &db.users.rows[k];
    let row = User {
        id,
        name: match input.name {
            Some(v) => v,
            None => current.name.clone(),
        },
        email: match input.email {
            Some(v) => v,
            None => current.email.clone(),
        },
        role: match input.role {
            Some(v) => v,
            None => current.role.clone(),
        },
        avatar: match input.avatar {
            Some(v) => Some(v),
            None => copy_text(&current.avatar),
        },
        username: current.username.clone(),
        password_hash: current.password_hash.clone(),
        is_active: match input.is_active {
            Some(v) => v,
            None => current.is_active,
        },
        created_at: current.created_at,
    };
    let out = row.duplicate();
    proof {
        lemma_wf_update(before.users.rows@, before.users.last_id, before.clock, k as int, row);
        lemma_has_id_update(before.users.rows@, k as int, row);
    }
    db.users.replace(k, row);
    assert(db.tables_wf()) by {
        let us = db.users.rows@;
        assert forall|i: int, j: int| 0 <= i < us.len() && 0 <= j < us.len() && i != j implies #[trigger] us[i].username@
            != #[trigger] us[j].username@ by {
            assert(us[i].username == before.users.rows@[i].username);
            assert(us[j].username == before.users.rows@[j].username);
        }
        let ls = db.activity_logs.rows@;
        assert forall|i: int| 0 <= i < ls.len() implies (#[trigger] ls[i].user_id matches Some(x) ==> has_id(us, x)) by {
            if let Some(x) = ls[i].user_id {
                assert(has_id(before.users.rows@, x));
            }
        }
    }
    Ok(out)
}

/// Deletes user `id`; log entries that name it keep their content and lose
/// the link. Deleting a user that does not exist changes nothing.
pub fn delete_user(db: &mut Database, id: i32)
    requires
        old(db).wf(),
    ensures
        final(db).wf(),
        final(db).users.rows@ == without_id(old(db).users.rows@, id),
        final(db).activity_logs.rows@ == old(db).activity_logs.rows@.map_values(
            |l: ActivityLog| unlinked(l, id),
        ),
        final(db).users.last_id == old(db).users.last_id,
        final(db).activity_logs.last_id == old(db).activity_logs.last_id,
        final(db).clock == old(db).clock,
        final(db).same_except(old(db), set![Entity::User, Entity::ActivityLog]),
        !has_id(old(db).users.rows@, id) ==> *final(db) == *old(db),
{
    if db.users.position(id).is_none() {
        proof {
            let ls = db.activity_logs.rows@;
            lemma_without_absent(db.users.rows@, id);
            assert(ls.map_values(|l: ActivityLog| unlinked(l, id)) =~= ls) by {
                assert forall|i: int| 0 <= i < ls.len() implies #[trigger] unlinked(ls[i], id) == ls[i] by {
                    if ls[i].user_id == Some(id) {
                        assert(ls[i].user_id matches Some(u) ==> has_id(db.users.rows@, u));
                    }
                }
            }
        }
        return;
    }
    let ghost before = *db;
    db.users.remove(id);
    proof {
        lemma_wf_filter(before.users.rows@, before.users.last_id, db.clock, id_differs(id));
    }
    let ghost logs = before.activity_logs.rows@;
    let mut relinked: Vec<ActivityLog> = Vec::new();
    let mut k: usize = 0;
    while k < db.activity_logs.rows.len()
        invariant
            db.activity_logs.rows@ == logs,
            k <= logs.len(),
            relinked@ == logs.take(k as int).map_values(|l: ActivityLog| unlinked(l, id)),
        decreases logs.len() - k,
    {
        let l = &db.activity_logs.rows[k];
        let user_id = if l.user_id == Some(id) {
            None
        } else {
            l.user_id
        };
        relinked.push(
            ActivityLog {
                id: l.id,
                user_id,
                action: l.action.clone(),
                target_type: l.target_type.clone(),
                target_id: l.target_id,
                details: copy_text(&l.details),
                created_at: l.created_at,
            },
        );
        k = k + 1;
        assert(relinked@ =~= logs.take(k as int).map_values(|l: ActivityLog| unlinked(l, id)));
    }
    assert(logs.take(k as int) =~= logs);
    db.activity_logs.rows = relinked;
    assert(db.tables_wf()) by {
        let us = db.users.rows@;
        let ls = db.activity_logs.rows@;
        assert forall|i: int, j: int| 0 <= i < us.len() && 0 <= j < us.len() && i != j implies #[trigger] us[i].username@
            != #[trigger] us[j].username@ by {
            assert(before.users.rows@.contains(us[i]));
            assert(before.users.rows@.contains(us[j]));
            let a = choose|a: int| 0 <= a < before.users.rows@.len() && before.users.rows@[a] == us[i];
            let b = choose|b: int| 0 <= b < before.users.rows@.len() && before.users.rows@[b] == us[j];
            assert(us[i].spec_id() != us[j].spec_id());
        }
        assert(rows_wf(ls, db.activity_logs.last_id, db.clock)) by {
            assert forall|i: int, j: int| 0 <= i < j < ls.len() implies #[trigger] ls[i].spec_id()
                < #[trigger] ls[j].spec_id() by {
                assert(logs[i].spec_id() < logs[j].spec_id());
            }
            assert forall|i: int, j: int| 0 <= i < j < ls.len() implies #[trigger] ls[i].spec_created_at()
                <= #[trigger] ls[j].spec_created_at() by {
                assert(logs[i].spec_created_at() <= logs[j].spec_created_at());
            }
            assert forall|i: int| 0 <= i < ls.len() implies 1 <= #[trigger] ls[i].spec_id() <= db.activity_logs.last_id by {
                assert(1 <= logs[i].spec_id() <= db.activity_logs.last_id);
            }
            assert forall|i: int| 0 <= i < ls.len() implies #[trigger] ls[i].spec_created_at() <= db.clock by {
                assert(logs[i].spec_created_at() <= db.clock);
            }
        }
        assert forall|i: int| 0 <= i < ls.len() implies (#[trigger] ls[i].user_id matches Some(x) ==> has_id(us, x)) by {
            if let Some(x) = ls[i].user_id {
                assert(x != id);
                assert(logs[i].user_id == Some(x));
                assert(has_id(before.users.rows@, x));
                let m = choose|m: int| 0 <= m < before.users.rows@.len() && #[trigger] before.users.rows@[m].spec_id() == x;
                lemma_has_id_filter(before.users.rows@, id_differs(id), x);
                assert(id_differs::<User>(id)(before.users.rows@[m]));
            }
        }
    }
}

} // verus!
