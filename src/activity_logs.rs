use vstd::prelude::*;
use crate::cases::lemma_tables_later;
use crate::db::{clock_advanced, Database};
use crate::error::{DbError, Entity};
use crate::models::ActivityLog;
use crate::table::{has_id, lemma_take_push, lemma_wf_filter, lemma_wf_push, Record};

verus! {

/// At most this many entries are listed.
pub const LOG_LIST_LIMIT: usize = 100;

/// At most this many entries of one action are listed.
pub const ACTION_LIST_LIMIT: usize = 50;

/// Microseconds in a day.
pub const MICROS_PER_DAY: i128 = 86_400_000_000;

/// Fields of a new log entry.
pub struct CreateActivityLogInput {
    pub user_id: Option<i32>,
    pub action: String,
    pub target_type: String,
    pub target_id: Option<i32>,
    pub details: Option<String>,
}

/// The first `limit` entries of `rows` taken newest first.
pub open spec fn newest(rows: Seq<ActivityLog>, limit: usize) -> Seq<ActivityLog> {
    let r = rows.reverse();
    if r.len() <= limit {
        r
    } else {
        r.take(limit as int)
    }
}

pub open spec fn action_is(action: Seq<char>) -> spec_fn(ActivityLog) -> bool {
    |l: ActivityLog| l.action@ == action
}

/// Keeps the entries created at or after `cutoff`.
pub open spec fn not_before(cutoff: int) -> spec_fn(ActivityLog) -> bool {
    |l: ActivityLog| l.created_at >= cutoff
}

/// The cutoff of a purge of entries older than `days` days at time `now`.
pub open spec fn purge_cutoff(now: i64, days: i32) -> int {
    now - days * MICROS_PER_DAY
}

/// The newest `limit` entries of `rows`, newest first.
fn take_newest(rows: &Vec<ActivityLog>, limit: usize) -> (r: Vec<ActivityLog>)
    ensures
        r@ == newest(rows@, limit),
{
    let mut out: Vec<ActivityLog> = Vec::new();
    let mut k: usize = rows.len();
    while k > 0 && out.len() < limit
        invariant
            k <= rows@.len(),
            out@ == rows@.skip(k as int).reverse(),
            out@.len() <= limit,
        decreases k,
    {
        k = k - 1;
        out.push(rows[k].duplicate());
        assert(out@ =~= rows@.skip(k as int).reverse());
    }
    proof {
        let rev = rows@.reverse();
        assert(out@ =~= rev.take(out@.len() as int));
        if k == 0 {
            assert(rows@.skip(0) =~= rows@);
        }
        assert(out@ =~= newest(rows@, limit));
    }
    out
}

/// The latest entries, newest first, at most `LOG_LIST_LIMIT` of them.
pub fn get_activity_logs(db: &Database) -> (r: Vec<ActivityLog>)
    requires
        db.wf(),
    ensures
        r@ == newest(db.activity_logs.rows@, LOG_LIST_LIMIT),
{
    take_newest(&db.activity_logs.rows, LOG_LIST_LIMIT)
}

/// The latest entries of action `action`, newest first, at most
/// `ACTION_LIST_LIMIT` of them.
pub fn get_activity_logs_by_action(db: &Database, action: String) -> (r: Vec<ActivityLog>)
    requires
        db.wf(),
    ensures
        r@ == newest(db.activity_logs.rows@.filter(action_is(action@)), ACTION_LIST_LIMIT),
{
    let rows = &db.activity_logs.rows;
    let ghost pred = action_is(action@);
    let mut found: Vec<ActivityLog> = Vec::new();
    let mut k: usize = 0;
    while k < rows.len()
        invariant
            k <= rows@.len(),
            found@ == rows@.take(k as int).filter(pred),
            pred == action_is(action@),
        decreases rows@.len() - k,
    {
        proof {
            lemma_take_push(rows@, k as int);
            rows@.take(k as int).lemma_filter_push(rows@[k as int], pred);
        }
        if rows[k].action == action {
            found.push(rows[k].duplicate());
        }
        k = k + 1;
    }
    assert(rows@.take(k as int) =~= rows@);
    take_newest(&found, ACTION_LIST_LIMIT)
}

/// Appends an entry to the log and returns it; a named user must exist.
pub fn create_activity_log(db: &mut Database, input: CreateActivityLogInput) -> (r: Result<ActivityLog, DbError>)
    requires
        old(db).wf(),
    ensures
        final(db).wf(),
        (input.user_id matches Some(u) && !has_id(old(db).users.rows@, u)) ==> {
            &&& r == Err::<ActivityLog, DbError>(
                DbError::MissingReference(Entity::User, input.user_id->Some_0),
            )
            &&& *final(db) == *old(db)
        },
        !(input.user_id matches Some(u) && !has_id(old(db).users.rows@, u)) ==> match old(
            db,
        ).activity_logs.spec_next_id() {
            None => r == Err::<ActivityLog, DbError>(DbError::StorageFull) && *final(db) == *old(db),
            Some(id) => {
                &&& r == Ok::<ActivityLog, DbError>(
                    (ActivityLog {
                        id,
                        user_id: input.user_id,
                        action: input.action,
                        target_type: input.target_type,
                        target_id: input.target_id,
                        details: input.details,
                        created_at: final(db).clock,
                    }),
                )
                &&& final(db).activity_logs.rows@ == old(db).activity_logs.rows@.push(r->Ok_0)
                &&& clock_advanced(old(db).clock, final(db).clock)
                &&& final(db).same_except(old(db), set![Entity::ActivityLog])
            },
        },
{
    if let Some(u) = input.user_id {
        if db.users.position(u).is_none() {
            return Err(DbError::MissingReference(Entity::User, u));
        }
    }
    let id = match db.activity_logs.next_id() {
        Some(id) => id,
        None => return Err(DbError::StorageFull),
    };
    let ghost before = *db;
    let stamp = db.tick();
    let row = ActivityLog {
        id,
        user_id: input.user_id,
        action: input.action,
        target_type: input.target_type,
        target_id: input.target_id,
        details: input.details,
        created_at: stamp,
    };
    let out = row.duplicate();
    proof {
        lemma_wf_push(before.activity_logs.rows@, before.activity_logs.last_id, before.clock, row, stamp);
        lemma_tables_later(before, *db);
    }
    db.activity_logs.append(row);
    assert(db.tables_wf()) by {
        let s = db.activity_logs.rows@;
        assert forall|i: int| 0 <= i < s.len() implies (#[trigger] s[i].user_id matches Some(u) ==> has_id(
            db.users.rows@,
            u,
        )) by {
            if i < before.activity_logs.rows@.len() {
                assert(s[i] == before.activity_logs.rows@[i]);
            }
        }
    }
    Ok(out)
}

/// Deletes every entry created more than `days` days before now, and returns
/// how many went. The purge takes a fresh timestamp as "now".
pub fn cleanup_old_logs(db: &mut Database, days: i32) -> (r: usize)
    requires
        old(db).wf(),
    ensures
        final(db).wf(),
        clock_advanced(old(db).clock, final(db).clock),
        final(db).activity_logs.rows@ == old(db).activity_logs.rows@.filter(
            not_before(purge_cutoff(final(db).clock, days)),
        ),
        final(db).activity_logs.last_id == old(db).activity_logs.last_id,
        r == old(db).activity_logs.rows@.len() - final(db).activity_logs.rows@.len(),
        final(db).same_except(old(db), set![Entity::ActivityLog]),
{
    let ghost before = *db;
    let now = db.tick();
    proof {
        lemma_tables_later(before, *db);
    }
    let cutoff: i128 = now as i128 - days as i128 * MICROS_PER_DAY;
    let ghost rows = db.activity_logs.rows@;
    let ghost pred = not_before(cutoff as int);
    let mut kept: Vec<ActivityLog> = Vec::new();
    let mut k: usize = 0;
    while k < db.activity_logs.rows.len()
        invariant
            db.activity_logs.rows@ == rows,
            k <= rows.len(),
            kept@ == rows.take(k as int).filter(pred),
            kept@.len() <= k,
            pred == not_before(cutoff as int),
        decreases rows.len() - k,
    {
        proof {
            lemma_take_push(rows, k as int);
            rows.take(k as int).lemma_filter_push(rows[k as int], pred);
        }
        if db.activity_logs.rows[k].created_at as i128 >= cutoff {
            kept.push(db.activity_logs.rows[k].duplicate());
        }
        k = k + 1;
    }
    assert(rows.take(k as int) =~= rows);
    proof {
        lemma_wf_filter(rows, db.activity_logs.last_id, db.clock, pred);
        rows.lemma_filter_len(pred);
    }
    let removed = db.activity_logs.rows.len() - kept.len();
    db.activity_logs.rows = kept;
    assert(db.tables_wf()) by {
        let s = db.activity_logs.rows@;
        assert forall|i: int| 0 <= i < s.len() implies (#[trigger] s[i].user_id matches Some(u) ==> has_id(
            db.users.rows@,
            u,
        )) by {
            assert(rows.contains(s[i]));
        }
    }
    removed
}

} // verus!
