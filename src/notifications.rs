use vstd::prelude::*;
use crate::cases::lemma_tables_later;
use crate::db::{clock_advanced, Database};
use crate::error::{DbError, Entity};
use crate::models::{copy_text, Notification};
use crate::table::{
    has_id, find_row, id_differs, lemma_take_push, lemma_wf_filter, lemma_wf_push, lemma_wf_update,
    replace_row, rows_wf, stamps_nonincreasing, without_id, Record,
};

verus! {

/// Fields of a new notification; it starts unread and not important.
pub struct CreateNotificationInput {
    pub notification_type: String,
    pub action: String,
    pub title: String,
    pub message: Option<String>,
    pub entity_type: Option<String>,
    pub entity_id: Option<i32>,
}

/// Flags of a notification to change; `None` leaves a flag as it is.
pub struct UpdateNotificationInput {
    pub is_read: Option<bool>,
    pub is_important: Option<bool>,
}

pub open spec fn is_unread() -> spec_fn(Notification) -> bool {
    |n: Notification| !n.is_read
}

/// How many of `rows` are unread.
pub open spec fn unread_count(rows: Seq<Notification>) -> nat {
    rows.filter(is_unread()).len()
}

/// The notification `n` marked read.
pub open spec fn marked_read(n: Notification) -> Notification {
    Notification { is_read: true, ..n }
}

/// The notification `n` after applying `input`.
pub open spec fn updated_notification(n: Notification, input: UpdateNotificationInput) -> Notification {
    Notification {
        is_read: match input.is_read {
            Some(v) => v,
            None => n.is_read,
        },
        is_important: match input.is_important {
            Some(v) => v,
            None => n.is_important,
        },
        ..n
    }
}

/// All notifications, newest first.
pub fn get_notifications(db: &Database) -> (r: Vec<Notification>)
    requires
        db.wf(),
    ensures
        r@ == db.notifications.rows@.reverse(),
        stamps_nonincreasing(r@),
{
    let r = db.notifications.all_newest_first();
    assert forall|i: int, j: int| 0 <= i < j < r@.len() implies #[trigger] r@[i].spec_created_at()
        >= #[trigger] r@[j].spec_created_at() by {
        let n = db.notifications.rows@.len();
        assert(r@[i] == db.notifications.rows@[n - 1 - i]);
        assert(r@[j] == db.notifications.rows@[n - 1 - j]);
    }
    r
}

/// The number of unread notifications.
pub fn get_unread_count(db: &Database) -> (r: usize)
    ensures
        r == unread_count(db.notifications.rows@),
{
    let rows = &db.notifications.rows;
    let mut count: usize = 0;
    let mut k: usize = 0;
    while k < rows.len()
        invariant
            k <= rows@.len(),
            count == unread_count(rows@.take(k as int)),
            count <= k,
        decreases rows@.len() - k,
    {
        proof {
            lemma_take_push(rows@, k as int);
            rows@.take(k as int).lemma_filter_push(rows@[k as int], is_unread());
        }
        if !rows[k].is_read {
            count = count + 1;
        }
        k = k + 1;
    }
    assert(rows@.take(k as int) =~= rows@);
    count
}

/// Inserts a new, unread, unimportant notification and returns it.
pub fn create_notification(db: &mut Database, input: CreateNotificationInput) -> (r: Result<Notification, DbError>)
    requires
        old(db).wf(),
    ensures
        final(db).wf(),
        match old(db).notifications.spec_next_id() {
            None => r == Err::<Notification, DbError>(DbError::StorageFull) && *final(db) == *old(db),
            Some(id) => {
                &&& r == Ok::<Notification, DbError>(
                    (Notification {
                        id,
                        notification_type: input.notification_type,
                        action: input.action,
                        title: input.title,
                        message: input.message,
                        entity_type: input.entity_type,
                        entity_id: input.entity_id,
                        is_read: false,
                        is_important: false,
                        created_at: final(db).clock,
                    }),
                )
                &&& final(db).notifications.rows@ == old(db).notifications.rows@.push(r->Ok_0)
                &&& clock_advanced(old(db).clock, final(db).clock)
                &&& final(db).same_except(old(db), set![Entity::Notification])
            },
        },
{
    let id = match db.notifications.next_id() {
        Some(id) => id,
        None => return Err(DbError::StorageFull),
    };
    let ghost before = *db;
    let stamp = db.tick();
    let row = Notification {
        id,
        notification_type: input.notification_type,
        action: input.action,
        title: input.title,
        message: input.message,
        entity_type: input.entity_type,
        entity_id: input.entity_id,
        is_read: false,
        is_important: false,
        created_at: stamp,
    };
    let out = row.duplicate();
    proof {
        lemma_wf_push(before.notifications.rows@, before.notifications.last_id, before.clock, row, stamp);
        lemma_tables_later(before, *db);
    }
    db.notifications.append(row);
    Ok(out)
}

/// Sets the supplied flags of notification `id` and returns it as it now stands.
pub fn update_notification(db: &mut Database, id: i32, input: UpdateNotificationInput) -> (r: Result<Notification, DbError>)
    requires
        old(db).wf(),
    ensures
        final(db).wf(),
        final(db).clock == old(db).clock,
        match find_row(old(db).notifications.rows@, id) {
            None => {
                &&& r == Err::<Notification, DbError>(DbError::NotFound(Entity::Notification, id))
                &&& *final(db) == *old(db)
            },
            Some(n) => {
                &&& r == Ok::<Notification, DbError>(updated_notification(n, input))
                &&& final(db).notifications.rows@ == replace_row(old(db).notifications.rows@, r->Ok_0)
                &&& final(db).same_except(old(db), set![Entity::Notification])
            },
        },
{
    let k = match db.notifications.position(id) {
        Some(k) => k,
        None => return Err(DbError::NotFound(Entity::Notification, id)),
    };
    let ghost before = *db;
    let current = &db.notifications.rows[k];
    let row = Notification {
        id,
        notification_type: current.notification_type.clone(),
        action: current.action.clone(),
        title: current.title.clone(),
        message: copy_text(&current.message),
        entity_type: copy_text(&current.entity_type),
        entity_id: current.entity_id,
        is_read: match input.is_read {
            Some(v) => v,
            None => current.is_read,
        },
        is_important: match input.is_important {
            Some(v) => v,
            None => current.is_important,
        },
        created_at: current.created_at,
    };
    let out = row.duplicate();
    proof {
        lemma_wf_update(before.notifications.rows@, before.notifications.last_id, before.clock, k as int, row);
    }
    db.notifications.replace(k, row);
    Ok(out)
}

/// Marks every unread notification read, and returns how many were unread.
pub fn mark_all_notifications_read(db: &mut Database) -> (r: usize)
    requires
        old(db).wf(),
    ensures
        final(db).wf(),
        r == unread_count(old(db).notifications.rows@),
        final(db).notifications.rows@ == old(db).notifications.rows@.map_values(
            |n: Notification| marked_read(n),
        ),
        final(db).notifications.last_id == old(db).notifications.last_id,
        final(db).clock == old(db).clock,
        final(db).same_except(old(db), set![Entity::Notification]),
{
    let ghost rows = db.notifications.rows@;
    let mut marked: Vec<Notification> = Vec::new();
    let mut changed: usize = 0;
    let mut k: usize = 0;
    while k < db.notifications.rows.len()
        invariant
            db.notifications.rows@ == rows,
            k <= rows.len(),
            marked@ == rows.take(k as int).map_values(|n: Notification| marked_read(n)),
            changed == unread_count(rows.take(k as int)),
            changed <= k,
        decreases rows.len() - k,
    {
        proof {
            lemma_take_push(rows, k as int);
            rows.take(k as int).lemma_filter_push(rows[k as int], is_unread());
        }
        let n = &db.notifications.rows[k];
        if !n.is_read {
            changed = changed + 1;
        }
        marked.push(
            Notification {
                id: n.id,
                notification_type: n.notification_type.clone(),
                action: n.action.clone(),
                title: n.title.clone(),
                message: copy_text(&n.message),
                entity_type: copy_text(&n.entity_type),
                entity_id: n.entity_id,
                is_read: true,
                is_important: n.is_important,
                created_at: n.created_at,
            },
        );
        k = k + 1;
        assert(marked@ =~= rows.take(k as int).map_values(|n: Notification| marked_read(n)));
    }
    assert(rows.take(k as int) =~= rows);
    db.notifications.rows = marked;
    assert(rows_wf(db.notifications.rows@, db.notifications.last_id, db.clock)) by {
        let s = db.notifications.rows@;
        assert forall|i: int, j: int| 0 <= i < j < s.len() implies #[trigger] s[i].spec_id()
            < #[trigger] s[j].spec_id() by {
            assert(rows[i].spec_id() < rows[j].spec_id());
        }
        assert forall|i: int, j: int| 0 <= i < j < s.len() implies #[trigger] s[i].spec_created_at()
            <= #[trigger] s[j].spec_created_at() by {
            assert(rows[i].spec_created_at() <= rows[j].spec_created_at());
        }
        assert forall|i: int| 0 <= i < s.len() implies 1 <= #[trigger] s[i].spec_id()
            <= db.notifications.last_id by {
            assert(1 <= rows[i].spec_id() <= db.notifications.last_id);
        }
        assert forall|i: int| 0 <= i < s.len() implies #[trigger] s[i].spec_created_at() <= db.clock by {
            assert(rows[i].spec_created_at() <= db.clock);
        }
    }
    changed
}

/// Deletes notification `id`; deleting one that does not exist changes nothing.
pub fn delete_notification(db: &mut Database, id: i32)
    requires
        old(db).wf(),
    ensures
        final(db).wf(),
        final(db).notifications.rows@ == without_id(old(db).notifications.rows@, id),
        final(db).notifications.last_id == old(db).notifications.last_id,
        !has_id(old(db).notifications.rows@, id) ==> *final(db) == *old(db),
        final(db).clock == old(db).clock,
        final(db).same_except(old(db), set![Entity::Notification]),
{
    let ghost before = *db;
    db.notifications.remove(id);
    proof {
        lemma_wf_filter(before.notifications.rows@, before.notifications.last_id, db.clock, id_differs(id));
    }
}

} // verus!
