use vstd::prelude::*;
use crate::db::{
    audio_present, case_stamps_ok, clock_advanced, lookup, segments_with_audio, Database,
};
use crate::error::{DbError, Entity};
use crate::models::{copy_text, Case};
use crate::table::{
    has_child, lemma_filter_all, lemma_without_absent, lemma_without_no_children,
    find_row, has_id, lemma_has_id_filter, lemma_has_id_push, lemma_has_id_update,
    lemma_wf_filter, lemma_wf_later, lemma_wf_push, lemma_wf_update, parent_differs, id_differs,
    replace_row, stamps_nonincreasing, without_children, without_id, Record,
};

verus! {

/// Fields of a new case.
pub struct CreateCaseInput {
    pub code: String,
    pub title: String,
    pub description: Option<String>,
}

/// Fields of a case to change; `None` leaves a field as it is.
pub struct UpdateCaseInput {
    pub code: Option<String>,
    pub title: Option<String>,
    pub description: Option<String>,
}

/// The case `c` after applying `input`, stamped `stamp`.
pub open spec fn updated_case(c: Case, input: UpdateCaseInput, stamp: i64) -> Case {
    Case {
        id: c.id,
        code: match input.code {
            Some(v) => v,
            None => c.code,
        },
        title: match input.title {
            Some(v) => v,
            None => c.title,
        },
        description: match input.description {
            Some(v) => Some(v),
            None => c.description,
        },
        created_at: c.created_at,
        updated_at: stamp,
    }
}

/// All cases, newest first.
pub fn get_cases(db: &Database) -> (r: Vec<Case>)
    requires
        db.wf(),
    ensures
        r@ == db.cases.rows@.reverse(),
        stamps_nonincreasing(r@),
{
    let r = db.cases.all_newest_first();
    assert forall|i: int, j: int| 0 <= i < j < r@.len() implies #[trigger] r@[i].spec_created_at()
        >= #[trigger] r@[j].spec_created_at() by {
        let n = db.cases.rows@.len();
        assert(r@[i] == db.cases.rows@[n - 1 - i]);
        assert(r@[j] == db.cases.rows@[n - 1 - j]);
    }
    r
}

/// The case `id`.
pub fn get_case(db: &Database, id: i32) -> (r: Result<Case, DbError>)
    requires
        db.wf(),
    ensures
        r == lookup(db.cases.rows@, Entity::Case, id),
{
    match db.cases.fetch(id) {
        Some(c) => Ok(c),
        None => Err(DbError::NotFound(Entity::Case, id)),
    }
}

/// Inserts a new case stamped with a fresh timestamp and returns it.
pub fn create_case(db: &mut Database, input: CreateCaseInput) -> (r: Result<Case, DbError>)
    requires
        old(db).wf(),
    ensures
        final(db).wf(),
        match old(db).cases.spec_next_id() {
            None => r == Err::<Case, DbError>(DbError::StorageFull) && *final(db) == *old(db),
            Some(id) => {
                &&& r == Ok::<Case, DbError>(
                    (Case {
                        id,
                        code: input.code,
                        title: input.title,
                        description: input.description,
                        created_at: final(db).clock,
                        updated_at: final(db).clock,
                    }),
                )
                &&& final(db).cases.rows@ == old(db).cases.rows@.push(r->Ok_0)
                &&& clock_advanced(old(db).clock, final(db).clock)
                &&& final(db).same_except(old(db), set![Entity::Case])
            },
        },
{
    let id = match db.cases.next_id() {
        Some(id) => id,
        None => return Err(DbError::StorageFull),
    };
    let ghost before = *db;
    let stamp = db.tick();
    let row = Case {
        id,
        code: input.code,
        title: input.title,
        description: input.description,
        created_at: stamp,
        updated_at: stamp,
    };
    let out = row.duplicate();
    proof {
        lemma_wf_push(before.cases.rows@, before.cases.last_id, before.clock, row, stamp);
        lemma_has_id_push(before.cases.rows@, row);
        lemma_tables_later(before, *db);
    }
    db.cases.append(row);
    assert(db.tables_wf()) by {
        let s = db.cases.rows@;
        assert forall|i: int| 0 <= i < s.len() implies #[trigger] s[i].created_at
            <= s[i].updated_at <= db.clock by {
            if i < before.cases.rows@.len() {
                assert(s[i] == before.cases.rows@[i]);
            }
        }
        assert forall|i: int| 0 <= i < db.audio_files.rows@.len() implies has_id(
            s,
            #[trigger] db.audio_files.rows@[i].case_id,
        ) by {
            assert(has_id(before.cases.rows@, db.audio_files.rows@[i].case_id));
        }
    }
    Ok(out)
}

/// Applies the supplied fields to case `id`, refreshes its `updated_at`, and
/// returns the case as it now stands.
pub fn update_case(db: &mut Database, id: i32, input: UpdateCaseInput) -> (r: Result<Case, DbError>)
    requires
        old(db).wf(),
    ensures
        final(db).wf(),
        match find_row(old(db).cases.rows@, id) {
            None => {
                &&& r == Err::<Case, DbError>(DbError::NotFound(Entity::Case, id))
                &&& *final(db) == *old(db)
            },
            Some(c) => {
                &&& r == Ok::<Case, DbError>(updated_case(c, input, final(db).clock))
                &&& final(db).cases.rows@ == replace_row(old(db).cases.rows@, r->Ok_0)
                &&& clock_advanced(old(db).clock, final(db).clock)
                &&& final(db).same_except(old(db), set![Entity::Case])
            },
        },
{
    let k = match db.cases.position(id) {
        Some(k) => k,
        None => return Err(DbError::NotFound(Entity::Case, id)),
    };
    let ghost before = *db;
    let stamp = db.tick();
    let current = &db.cases.rows[k];
    let row = Case {
        id,
        code: match input.code {
            Some(v) => v,
            None => current.code.clone(),
        },
        title: match input.title {
            Some(v) => v,
            None => current.title.clone(),
        },
        description: match input.description {
            Some(v) => Some(v),
            None => copy_text(&current.description),
        },
        created_at: current.created_at,
        updated_at: stamp,
    };
    let out = row.duplicate();
    proof {
        lemma_tables_later(before, *db);
        lemma_wf_update(before.cases.rows@, before.cases.last_id, stamp, k as int, row);
        lemma_has_id_update(before.cases.rows@, k as int, row);
    }
    db.cases.replace(k, row);
    assert(db.tables_wf()) by {
        let s = db.cases.rows@;
        assert forall|i: int| 0 <= i < s.len() implies #[trigger] s[i].created_at
            <= s[i].updated_at <= db.clock by {
            if i != k {
                assert(s[i] == before.cases.rows@[i]);
            }
        }
        assert forall|i: int| 0 <= i < db.audio_files.rows@.len() implies has_id(
            s,
            #[trigger] db.audio_files.rows@[i].case_id,
        ) by {
            assert(has_id(before.cases.rows@, db.audio_files.rows@[i].case_id));
        }
    }
    Ok(out)
}

/// Deletes case `id` together with its audio files and their transcript
/// segments. Deleting a case that does not exist changes nothing.
pub fn delete_case(db: &mut Database, id: i32)
    requires
        old(db).wf(),
    ensures
        final(db).wf(),
        final(db).cases.rows@ == without_id(old(db).cases.rows@, id),
        final(db).audio_files.rows@ == without_children(old(db).audio_files.rows@, id),
        final(db).segments.rows@ == segments_with_audio(
            old(db).segments.rows@,
            final(db).audio_files.rows@,
        ),
        final(db).cases.last_id == old(db).cases.last_id,
        final(db).audio_files.last_id == old(db).audio_files.last_id,
        final(db).segments.last_id == old(db).segments.last_id,
        final(db).clock == old(db).clock,
        final(db).same_except(
            old(db),
            set![Entity::Case, Entity::AudioFile, Entity::TranscriptSegment],
        ),
        !has_id(old(db).cases.rows@, id) ==> *final(db) == *old(db),
{
    if db.cases.position(id).is_none() {
        proof {
            let au = db.audio_files.rows@;
            let sg = db.segments.rows@;
            lemma_without_absent(db.cases.rows@, id);
            assert(!has_child(au, id)) by {
                if has_child(au, id) {
                    let i = choose|i: int| 0 <= i < au.len() && #[trigger] au[i].spec_parent() == Some(id);
                    assert(has_id(db.cases.rows@, au[i].case_id));
                }
            }
            lemma_without_no_children(au, id);
            assert forall|i: int| 0 <= i < sg.len() implies audio_present(au)(#[trigger] sg[i]) by {
                assert(has_id(au, sg[i].audio_file_id));
            }
            lemma_filter_all(sg, audio_present(au));
        }
        return;
    }
    let ghost before = *db;
    db.cases.remove(id);
    db.audio_files.remove_children(id);
    proof {
        lemma_wf_filter(before.cases.rows@, before.cases.last_id, db.clock, id_differs(id));
        lemma_wf_filter(
            before.audio_files.rows@,
            before.audio_files.last_id,
            db.clock,
            parent_differs(id),
        );
    }
    db.prune_segments();
    assert(db.tables_wf()) by {
        let cs = db.cases.rows@;
        let au = db.audio_files.rows@;
        let sg = db.segments.rows@;
        assert forall|i: int| 0 <= i < cs.len() implies #[trigger] cs[i].created_at
            <= cs[i].updated_at <= db.clock by {
            assert(before.cases.rows@.contains(cs[i]));
        }
        assert forall|i: int| 0 <= i < au.len() implies has_id(cs, #[trigger] au[i].case_id) by {
            assert(before.audio_files.rows@.contains(au[i]));
            let a = au[i];
            assert(a.case_id != id);
            let j = choose|j: int| 0 <= j < before.audio_files.rows@.len() && before.audio_files.rows@[j] == a;
            assert(has_id(before.cases.rows@, before.audio_files.rows@[j].case_id));
            let k = choose|k: int| 0 <= k < before.cases.rows@.len() && #[trigger] before.cases.rows@[k].spec_id() == a.case_id;
            lemma_has_id_filter(before.cases.rows@, id_differs(id), a.case_id);
            assert(id_differs::<Case>(id)(before.cases.rows@[k]));
        }
        assert forall|i: int| 0 <= i < sg.len() implies {
            &&& has_id(au, #[trigger] sg[i].audio_file_id)
            &&& sg[i].speaker_id matches Some(s) ==> has_id(db.speakers.rows@, s)
        } by {
            before.segments.rows@.lemma_filter_pred(audio_present(au), i);
            assert(sg.contains(sg[i]));
            before.segments.rows@.lemma_filter_contains_rev(audio_present(au), sg[i]);
        }
    }
}

/// Extends the well-formedness of the tables to a later clock.
pub proof fn lemma_tables_later(a: Database, b: Database)
    requires
        a.tables_wf(),
        a.clock <= b.clock,
        b.same_except(&a, Set::empty()),
    ensures
        b.tables_wf(),
{
    lemma_wf_later(a.users.rows@, a.users.last_id, a.clock, b.clock);
    lemma_wf_later(a.cases.rows@, a.cases.last_id, a.clock, b.clock);
    lemma_wf_later(a.audio_files.rows@, a.audio_files.last_id, a.clock, b.clock);
    lemma_wf_later(a.speakers.rows@, a.speakers.last_id, a.clock, b.clock);
    lemma_wf_later(a.voice_samples.rows@, a.voice_samples.last_id, a.clock, b.clock);
    lemma_wf_later(a.segments.rows@, a.segments.last_id, a.clock, b.clock);
    lemma_wf_later(a.alert_words.rows@, a.alert_words.last_id, a.clock, b.clock);
    lemma_wf_later(a.replacement_words.rows@, a.replacement_words.last_id, a.clock, b.clock);
    lemma_wf_later(a.notifications.rows@, a.notifications.last_id, a.clock, b.clock);
    lemma_wf_later(a.activity_logs.rows@, a.activity_logs.last_id, a.clock, b.clock);
    assert(case_stamps_ok(b.cases.rows@, b.clock));
}

} // verus!
