use vstd::prelude::*;
use crate::cases::lemma_tables_later;
use crate::db::{clock_advanced, lookup, Database};
use crate::error::{DbError, Entity};
use crate::models::AudioFile;
use crate::table::{
    has_child, lemma_without_absent, lemma_without_no_children,
    children_of, find_row, has_id, id_differs, lemma_has_id_filter, lemma_has_id_push,
    lemma_has_id_update, lemma_wf_filter, lemma_wf_push, lemma_wf_update, parent_differs,
    replace_row, without_children, without_id, Record,
};

verus! {

/// Status of an audio file registered without one.
pub const DEFAULT_AUDIO_STATUS: &'static str = "pending";

/// Fields of a new audio file; `duration` is in milliseconds (0 when absent)
/// and `status` is "pending" when absent.
pub struct CreateAudioInput {
    pub case_id: i32,
    pub file_name: String,
    pub file_path: String,
    pub duration: Option<i64>,
    pub status: Option<String>,
}

/// Fields of an audio file to change; `None` leaves a field as it is.
pub struct UpdateAudioInput {
    pub file_name: Option<String>,
    pub duration: Option<i64>,
    pub status: Option<String>,
}

/// The audio file `a` after applying `input`.
pub open spec fn updated_audio(a: AudioFile, input: UpdateAudioInput) -> AudioFile {
    AudioFile {
        file_name: match input.file_name {
            Some(v) => v,
            None => a.file_name,
        },
        duration: match input.duration {
            Some(v) => v,
            None => a.duration,
        },
        status: match input.status {
            Some(v) => v,
            None => a.status,
        },
        ..a
    }
}

/// The audio files of case `case_id`, oldest first.
pub fn get_audio_files(db: &Database, case_id: i32) -> (r: Vec<AudioFile>)
    requires
        db.wf(),
    ensures
        r@ == children_of(db.audio_files.rows@, case_id),
{
    db.audio_files.children(case_id)
}

/// The audio file `id`.
pub fn get_audio_file(db: &Database, id: i32) -> (r: Result<AudioFile, DbError>)
    requires
        db.wf(),
    ensures
        r == lookup(db.audio_files.rows@, Entity::AudioFile, id),
{
    match db.audio_files.fetch(id) {
        Some(a) => Ok(a),
        None => Err(DbError::NotFound(Entity::AudioFile, id)),
    }
}

/// Registers a new audio file of an existing case and returns it.
pub fn upload_audio(db: &mut Database, input: CreateAudioInput) -> (r: Result<AudioFile, DbError>)
    requires
        old(db).wf(),
    ensures
        final(db).wf(),
        !has_id(old(db).cases.rows@, input.case_id) ==> {
            &&& r == Err::<AudioFile, DbError>(DbError::MissingReference(Entity::Case, input.case_id))
            &&& *final(db) == *old(db)
        },
        has_id(old(db).cases.rows@, input.case_id) ==> match old(db).audio_files.spec_next_id() {
            None => r == Err::<AudioFile, DbError>(DbError::StorageFull) && *final(db) == *old(db),
            Some(id) => {
                &&& r is Ok
                &&& r->Ok_0.id == id
                &&& r->Ok_0.case_id == input.case_id
                &&& r->Ok_0.file_name == input.file_name
                &&& r->Ok_0.file_path == input.file_path
                &&& r->Ok_0.duration == match input.duration {
                    Some(d) => d,
                    None => 0,
                }
                &&& r->Ok_0.status@ == match input.status {
                    Some(s) => s@,
                    None => DEFAULT_AUDIO_STATUS@,
                }
                &&& r->Ok_0.created_at == final(db).clock
                &&& final(db).audio_files.rows@ == old(db).audio_files.rows@.push(r->Ok_0)
                &&& clock_advanced(old(db).clock, final(db).clock)
                &&& final(db).same_except(old(db), set![Entity::AudioFile])
            },
        },
{
    if db.cases.position(input.case_id).is_none() {
        return Err(DbError::MissingReference(Entity::Case, input.case_id));
    }
    let id = match db.audio_files.next_id() {
        Some(id) => id,
        None => return Err(DbError::StorageFull),
    };
    let ghost before = *db;
    let stamp = db.tick();
    let row = AudioFile {
        id,
        case_id: input.case_id,
        file_name: input.file_name,
        file_path: input.file_path,
        duration: match input.duration {
            Some(d) => d,
            None => 0,
        },
        status: match input.status {
            Some(s) => s,
            None => DEFAULT_AUDIO_STATUS.to_owned(),
        },
        created_at: stamp,
    };
    let out = row.duplicate();
    proof {
        lemma_wf_push(before.audio_files.rows@, before.audio_files.last_id, before.clock, row, stamp);
        lemma_has_id_push(before.audio_files.rows@, row);
        lemma_tables_later(before, *db);
    }
    db.audio_files.append(row);
    assert(db.tables_wf()) by {
        let s = db.audio_files.rows@;
        assert forall|i: int| 0 <= i < s.len() implies has_id(db.cases.rows@, #[trigger] s[i].case_id) by {
            if i < before.audio_files.rows@.len() {
                assert(s[i] == before.audio_files.rows@[i]);
            }
        }
        let sg = db.segments.rows@;
        assert forall|i: int| 0 <= i < sg.len() implies has_id(s, #[trigger] sg[i].audio_file_id) by {
            assert(has_id(before.audio_files.rows@, sg[i].audio_file_id));
        }
    }
    Ok(out)
}

/// Applies the supplied fields to audio file `id` and returns it as it now stands.
pub fn update_audio_file(db: &mut Database, id: i32, input: UpdateAudioInput) -> (r: Result<AudioFile, DbError>)
    requires
        old(db).wf(),
    ensures
        final(db).wf(),
        final(db).clock == old(db).clock,
        match find_row(old(db).audio_files.rows@, id) {
            None => {
                &&& r == Err::<AudioFile, DbError>(DbError::NotFound(Entity::AudioFile, id))
                &&& *final(db) == *old(db)
            },
            Some(a) => {
                &&& r == Ok::<AudioFile, DbError>(updated_audio(a, input))
                &&& final(db).audio_files.rows@ == replace_row(old(db).audio_files.rows@, r->Ok_0)
                &&& final(db).same_except(old(db), set![Entity::AudioFile])
            },
        },
{
    let k = match db.audio_files.position(id) {
        Some(k) => k,
        None => return Err(DbError::NotFound(Entity::AudioFile, id)),
    };
    let ghost before = *db;
    let current = &db.audio_files.rows[k];
    let row = AudioFile {
        id,
        case_id: current.case_id,
        file_name: match input.file_name {
            Some(v) => v,
            None => current.file_name.clone(),
        },
        file_path: current.file_path.clone(),
        duration: match input.duration {
            Some(v) => v,
            None => current.duration,
        },
        status: match input.status {
            Some(v) => v,
            None => current.status.clone(),
        },
        created_at: current.created_at,
    };
    let out = row.duplicate();
    proof {
        lemma_wf_update(before.audio_files.rows@, before.audio_files.last_id, before.clock, k as int, row);
        lemma_has_id_update(before.audio_files.rows@, k as int, row);
    }
    db.audio_files.replace(k, row);
    assert(db.tables_wf()) by {
        let s = db.audio_files.rows@;
        assert forall|i: int| 0 <= i < s.len() implies has_id(db.cases.rows@, #[trigger] s[i].case_id) by {
            assert(s[i].case_id == before.audio_files.rows@[i].case_id);
        }
        let sg = db.segments.rows@;
        assert forall|i: int| 0 <= i < sg.len() implies has_id(s, #[trigger] sg[i].audio_file_id) by {
            assert(has_id(before.audio_files.rows@, sg[i].audio_file_id));
        }
    }
    Ok(out)
}

/// Deletes audio file `id` together with its transcript segments. Deleting an
/// audio file that does not exist changes nothing.
pub fn delete_audio_file(db: &mut Database, id: i32)
    requires
        old(db).wf(),
    ensures
        final(db).wf(),
        final(db).audio_files.rows@ == without_id(old(db).audio_files.rows@, id),
        final(db).segments.rows@ == without_children(old(db).segments.rows@, id),
        final(db).audio_files.last_id == old(db).audio_files.last_id,
        final(db).segments.last_id == old(db).segments.last_id,
        final(db).clock == old(db).clock,
        final(db).same_except(old(db), set![Entity::AudioFile, Entity::TranscriptSegment]),
        !has_id(old(db).audio_files.rows@, id) ==> *final(db) == *old(db),
{
    if db.audio_files.position(id).is_none() {
        proof {
            let sg = db.segments.rows@;
            lemma_without_absent(db.audio_files.rows@, id);
            assert(!has_child(sg, id)) by {
                if has_child(sg, id) {
                    let i = choose|i: int| 0 <= i < sg.len() && #[trigger] sg[i].spec_parent() == Some(id);
                    assert(has_id(db.audio_files.rows@, sg[i].audio_file_id));
                }
            }
            lemma_without_no_children(sg, id);
        }
        return;
    }
    let ghost before = *db;
    db.audio_files.remove(id);
    db.segments.remove_children(id);
    proof {
        lemma_wf_filter(before.audio_files.rows@, before.audio_files.last_id, db.clock, id_differs(id));
        lemma_wf_filter(before.segments.rows@, before.segments.last_id, db.clock, parent_differs(id));
    }
    assert(db.tables_wf()) by {
        let au = db.audio_files.rows@;
        let sg = db.segments.rows@;
        assert forall|i: int| 0 <= i < au.len() implies has_id(db.cases.rows@, #[trigger] au[i].case_id) by {
            assert(before.audio_files.rows@.contains(au[i]));
        }
        assert forall|i: int| 0 <= i < sg.len() implies {
            &&& has_id(au, #[trigger] sg[i].audio_file_id)
            &&& sg[i].speaker_id matches Some(s) ==> has_id(db.speakers.rows@, s)
        } by {
            let g = sg[i];
            assert(before.segments.rows@.contains(g));
            let j = choose|j: int| 0 <= j < before.segments.rows@.len() && before.segments.rows@[j] == g;
            assert(has_id(before.audio_files.rows@, before.segments.rows@[j].audio_file_id));
            let k = choose|k: int| 0 <= k < before.audio_files.rows@.len() && #[trigger] before.audio_files.rows@[k].spec_id() == g.audio_file_id;
            lemma_has_id_filter(before.audio_files.rows@, id_differs(id), g.audio_file_id);
            assert(id_differs::<AudioFile>(id)(before.audio_files.rows@[k]));
        }
    }
}

} // verus!
