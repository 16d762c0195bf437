use vstd::prelude::*;
use crate::auth::{has_username, position_of_username, user_named, AuthError};
use crate::db::{clock_advanced, Database, MIGRATION_COUNT};
use crate::error::{DbError, Entity};
use crate::models::User;
use crate::password::password_verifies;
use crate::users::{create_user, CreateUserInput};

verus! {

/// Username of the administrator account seeded into a fresh store.
pub const ADMIN_USERNAME: &'static str = "admin";

/// Initial password of the seeded administrator account.
pub const ADMIN_PASSWORD: &'static str = "admin";

/// Display name of the seeded administrator account.
pub const ADMIN_NAME: &'static str = "Administrator";

/// Email address of the seeded administrator account.
pub const ADMIN_EMAIL: &'static str = "admin@spexor.local";

/// Role of the seeded administrator account.
pub const ADMIN_ROLE: &'static str = "admin";

/// `u` is the administrator account as seeding creates it: active, with the
/// administrator's username, name, email and role, no avatar, and a hash that
/// accepts `ADMIN_PASSWORD`.
pub open spec fn is_seeded_admin(u: User) -> bool {
    &&& u.username@ == ADMIN_USERNAME@
    &&& u.name@ == ADMIN_NAME@
    &&& u.email@ == ADMIN_EMAIL@
    &&& u.role@ == ADMIN_ROLE@
    &&& u.avatar is None
    &&& u.is_active
    &&& password_verifies(ADMIN_PASSWORD@, u.password_hash@)
}

/// The steps of startup, in order. A failed step ends startup in `Failed`.
#[derive(Debug, Clone, Copy, PartialEq, Eq, Structural)]
pub enum BootStage {
    EnsureDataDir,
    OpenPool,
    ApplyMigrations,
    SeedAdmin,
    Ready,
    Failed,
}

/// The stage after `stage` once its step has run, succeeding or not.
pub open spec fn next_stage(stage: BootStage, succeeded: bool) -> BootStage {
    match stage {
        BootStage::Ready => BootStage::Ready,
        BootStage::Failed => BootStage::Failed,
        _ => if !succeeded {
            BootStage::Failed
        } else {
            match stage {
                BootStage::EnsureDataDir => BootStage::OpenPool,
                BootStage::OpenPool => BootStage::ApplyMigrations,
                BootStage::ApplyMigrations => BootStage::SeedAdmin,
                _ => BootStage::Ready,
            }
        },
    }
}

pub fn advance(stage: BootStage, succeeded: bool) -> (r: BootStage)
    ensures
        r == next_stage(stage, succeeded),
{
    match stage {
        BootStage::Ready => BootStage::Ready,
        BootStage::Failed => BootStage::Failed,
        _ => {
            if !succeeded {
                BootStage::Failed
            } else {
                match stage {
                    BootStage::EnsureDataDir => BootStage::OpenPool,
                    BootStage::OpenPool => BootStage::ApplyMigrations,
                    BootStage::ApplyMigrations => BootStage::SeedAdmin,
                    _ => BootStage::Ready,
                }
            }
        },
    }
}

/// Adds the administrator account (active, role "admin", password
/// `ADMIN_PASSWORD`) unless a user named `ADMIN_USERNAME` exists; returns
/// whether it was added.
pub fn seed_admin_user(db: &mut Database) -> (r: Result<bool, AuthError>)
    requires
        old(db).wf(),
    ensures
        final(db).wf(),
        has_username(old(db).users.rows@, ADMIN_USERNAME@) ==> r == Ok::<bool, AuthError>(false)
            && *final(db) == *old(db),
        r == Ok::<bool, AuthError>(true) ==> {
            &&& !has_username(old(db).users.rows@, ADMIN_USERNAME@)
            &&& final(db).users.rows@.len() == old(db).users.rows@.len() + 1
            &&& final(db).users.rows@.drop_last() == old(db).users.rows@
            &&& is_seeded_admin(final(db).users.rows@.last())
            &&& user_named(final(db).users.rows@, ADMIN_USERNAME@) == Some(
                final(db).users.rows@.last(),
            )
            &&& clock_advanced(old(db).clock, final(db).clock)
            &&& final(db).same_except(old(db), set![Entity::User])
        },
        !has_username(old(db).users.rows@, ADMIN_USERNAME@) && old(db).users.spec_next_id() is None
            ==> r == Err::<bool, AuthError>(AuthError::DatabaseError(DbError::StorageFull)),
        !has_username(old(db).users.rows@, ADMIN_USERNAME@) && old(db).users.spec_next_id() is Some
            ==> r == Ok::<bool, AuthError>(true) || r == Err::<bool, AuthError>(AuthError::HashError),
        r is Err ==> *final(db) == *old(db),
        has_username(final(db).users.rows@, ADMIN_USERNAME@) || r is Err,
{
    let username = ADMIN_USERNAME.to_owned();
    if position_of_username(&db.users.rows, &username).is_some() {
        return Ok(false);
    }
    let input = CreateUserInput {
        name: ADMIN_NAME.to_owned(),
        email: ADMIN_EMAIL.to_owned(),
        role: ADMIN_ROLE.to_owned(),
        avatar: None,
        username,
        password: ADMIN_PASSWORD.to_owned(),
    };
    match create_user(db, input) {
        Ok(_) => {
            proof {
                let us = db.users.rows@;
                assert(us.drop_last() =~= old(db).users.rows@);
                let n = us.len() - 1;
                assert(us[n].username@ == ADMIN_USERNAME@);
                assert(has_username(us, ADMIN_USERNAME@));
                let j = choose|i: int| 0 <= i < us.len() && #[trigger] us[i].username@ == ADMIN_USERNAME@;
                if j != n {
                    assert(us[j].username@ != us[n].username@);
                }
            }
            Ok(true)
        },
        Err(e) => Err(e),
    }
}

/// Brings a store into service: applies the pending migration steps, then
/// seeds the administrator account if it is missing. On a store that is
/// already migrated and has the administrator, it changes nothing.
pub fn init_db(db: &mut Database) -> (r: Result<(), AuthError>)
    requires
        old(db).tables_wf(),
        old(db).schema_version <= MIGRATION_COUNT,
    ensures
        final(db).wf(),
        final(db).hash_cost == old(db).hash_cost,
        has_username(old(db).users.rows@, ADMIN_USERNAME@) ==> {
            &&& r is Ok
            &&& final(db).tables_match(old(db), Set::empty())
            &&& final(db).clock == old(db).clock
        },
        old(db).is_migrated() && has_username(old(db).users.rows@, ADMIN_USERNAME@) ==> *final(db)
            == *old(db),
        !has_username(old(db).users.rows@, ADMIN_USERNAME@) && old(db).users.spec_next_id() is None
            ==> r == Err::<(), AuthError>(AuthError::DatabaseError(DbError::StorageFull)),
        !has_username(old(db).users.rows@, ADMIN_USERNAME@) && old(db).users.spec_next_id() is Some
            ==> r is Ok || r == Err::<(), AuthError>(AuthError::HashError),
        r is Err ==> final(db).tables_match(old(db), Set::empty()) && final(db).clock == old(
            db,
        ).clock,
        !has_username(old(db).users.rows@, ADMIN_USERNAME@) && r is Ok ==> {
            &&& final(db).users.rows@.drop_last() == old(db).users.rows@
            &&& is_seeded_admin(final(db).users.rows@.last())
            &&& user_named(final(db).users.rows@, ADMIN_USERNAME@) == Some(
                final(db).users.rows@.last(),
            )
            &&& final(db).tables_match(old(db), set![Entity::User])
            &&& clock_advanced(old(db).clock, final(db).clock)
        },
        r is Ok ==> has_username(final(db).users.rows@, ADMIN_USERNAME@),
{
    db.run_pending_migrations();
    match seed_admin_user(db) {
        Ok(_) => Ok(()),
        Err(e) => Err(e),
    }
}

} // verus!
