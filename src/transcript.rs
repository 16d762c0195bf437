use vstd::prelude::*;
use crate::cases::lemma_tables_later;
use crate::db::{clock_advanced, Database};
use crate::error::{DbError, Entity};
use crate::models::TranscriptSegment;
use crate::sorting::{listing_of, sort_rows};
use crate::table::{
    children_of, find_row, has_id, id_differs, lemma_wf_filter,
    lemma_wf_push, lemma_wf_update, parent_is, replace_row, without_id, Record,
};

verus! {

/// Fields of a new transcript segment; times are in milliseconds from the
/// start of the audio file, and `start_time <= end_time` is the caller's
/// responsibility.
pub struct CreateSegmentInput {
    pub audio_file_id: i32,
    pub speaker_id: Option<i32>,
    pub start_time: i64,
    pub end_time: i64,
    pub text: String,
}

/// Fields of a segment to change; `None` leaves a field as it is.
/// `is_deleted` marks the segment deleted (or restores it) without removing it.
pub struct UpdateSegmentInput {
    pub speaker_id: Option<i32>,
    pub text: Option<String>,
    pub is_deleted: Option<bool>,
}

/// The segment `g` after applying `input`.
pub open spec fn updated_segment(g: TranscriptSegment, input: UpdateSegmentInput) -> TranscriptSegment {
    TranscriptSegment {
        speaker_id: match input.speaker_id {
            Some(s) => Some(s),
            None => g.speaker_id,
        },
        text: match input.text {
            Some(t) => t,
            None => g.text,
        },
        is_deleted: match input.is_deleted {
            Some(d) => d,
            None => g.is_deleted,
        },
        ..g
    }
}

/// The row stored for `input` when it is inserted into audio file
/// `audio_file_id` with identifier `id` at time `stamp`.
pub open spec fn segment_row(
    input: CreateSegmentInput,
    audio_file_id: i32,
    id: int,
    stamp: i64,
) -> TranscriptSegment {
    TranscriptSegment {
        id: id as i32,
        audio_file_id,
        speaker_id: input.speaker_id,
        start_time: input.start_time,
        end_time: input.end_time,
        text: input.text,
        is_deleted: false,
        created_at: stamp,
    }
}

/// The rows a batch insert of `inputs` stores, with consecutive identifiers
/// from `first_id`.
pub open spec fn batch_rows(
    inputs: Seq<CreateSegmentInput>,
    audio_file_id: i32,
    first_id: int,
    stamp: i64,
) -> Seq<TranscriptSegment> {
    Seq::new(inputs.len(), |i: int| segment_row(inputs[i], audio_file_id, first_id + i, stamp))
}

/// Whether `speaker_id` names a speaker that does not exist.
pub open spec fn speaker_missing<S: Record>(speaker_id: Option<i32>, speakers: Seq<S>) -> bool {
    match speaker_id {
        Some(s) => !has_id(speakers, s),
        None => false,
    }
}

/// Whether every speaker that `inputs` name exists.
pub open spec fn speakers_known<S: Record>(inputs: Seq<CreateSegmentInput>, speakers: Seq<S>) -> bool {
    forall|i: int|
        0 <= i < inputs.len() ==> (#[trigger] inputs[i].speaker_id matches Some(s) ==> has_id(
            speakers,
            s,
        ))
}

/// `s` is the first speaker named by `inputs` that does not exist.
pub open spec fn first_unknown_speaker<S: Record>(
    inputs: Seq<CreateSegmentInput>,
    speakers: Seq<S>,
    s: i32,
) -> bool {
    exists|i: int|
        0 <= i < inputs.len() && #[trigger] inputs[i].speaker_id == Some(s) && !has_id(speakers, s)
            && speakers_known(inputs.take(i), speakers)
}

/// The segments of audio file `audio_file_id`, by start time.
pub fn get_transcript_segments(db: &Database, audio_file_id: i32) -> (r: Vec<TranscriptSegment>)
    requires
        db.wf(),
    ensures
        listing_of(r@, children_of(db.segments.rows@, audio_file_id)),
{
    proof {
        lemma_wf_filter(db.segments.rows@, db.segments.last_id, db.clock, parent_is(audio_file_id));
    }
    sort_rows(db.segments.children(audio_file_id))
}

/// Inserts a new segment into an existing audio file and returns it.
pub fn create_transcript_segment(db: &mut Database, input: CreateSegmentInput) -> (r: Result<TranscriptSegment, DbError>)
    requires
        old(db).wf(),
    ensures
        final(db).wf(),
        !has_id(old(db).audio_files.rows@, input.audio_file_id) ==> {
            &&& r == Err::<TranscriptSegment, DbError>(
                DbError::MissingReference(Entity::AudioFile, input.audio_file_id),
            )
            &&& *final(db) == *old(db)
        },
        has_id(old(db).audio_files.rows@, input.audio_file_id) && speaker_missing(
            input.speaker_id,
            old(db).speakers.rows@,
        ) ==> {
            &&& r == Err::<TranscriptSegment, DbError>(
                DbError::MissingReference(Entity::Speaker, input.speaker_id->Some_0),
            )
            &&& *final(db) == *old(db)
        },
        has_id(old(db).audio_files.rows@, input.audio_file_id) && !speaker_missing(
            input.speaker_id,
            old(db).speakers.rows@,
        ) ==> match old(db).segments.spec_next_id() {
            None => {
                &&& r == Err::<TranscriptSegment, DbError>(DbError::StorageFull)
                &&& *final(db) == *old(db)
            },
            Some(id) => {
                &&& r == Ok::<TranscriptSegment, DbError>(
                    segment_row(input, input.audio_file_id, id as int, final(db).clock),
                )
                &&& final(db).segments.rows@ == old(db).segments.rows@.push(r->Ok_0)
                &&& clock_advanced(old(db).clock, final(db).clock)
                &&& final(db).same_except(old(db), set![Entity::TranscriptSegment])
            },
        },
{
    if db.audio_files.position(input.audio_file_id).is_none() {
        return Err(DbError::MissingReference(Entity::AudioFile, input.audio_file_id));
    }
    if let Some(s) = input.speaker_id {
        if db.speakers.position(s).is_none() {
            return Err(DbError::MissingReference(Entity::Speaker, s));
        }
    }
    let id = match db.segments.next_id() {
        Some(id) => id,
        None => return Err(DbError::StorageFull),
    };
    let ghost before = *db;
    let stamp = db.tick();
    let row = TranscriptSegment {
        id,
        audio_file_id: input.audio_file_id,
        speaker_id: input.speaker_id,
        start_time: input.start_time,
        end_time: input.end_time,
        text: input.text,
        is_deleted: false,
        created_at: stamp,
    };
    let out = row.duplicate();
    proof {
        lemma_wf_push(before.segments.rows@, before.segments.last_id, before.clock, row, stamp);
        lemma_tables_later(before, *db);
    }
    db.segments.append(row);
    assert(db.tables_wf()) by {
        let sg = db.segments.rows@;
        assert forall|i: int| 0 <= i < sg.len() implies {
            &&& has_id(db.audio_files.rows@, #[trigger] sg[i].audio_file_id)
            &&& sg[i].speaker_id matches Some(x) ==> has_id(db.speakers.rows@, x)
        } by {
            if i < before.segments.rows@.len() {
                assert(sg[i] == before.segments.rows@[i]);
            }
        }
    }
    Ok(out)
}

/// Applies the supplied fields to segment `id` and returns it as it now stands.
pub fn update_transcript_segment(db: &mut Database, id: i32, input: UpdateSegmentInput) -> (r: Result<TranscriptSegment, DbError>)
    requires
        old(db).wf(),
    ensures
        final(db).wf(),
        final(db).clock == old(db).clock,
        match find_row(old(db).segments.rows@, id) {
            None => {
                &&& r == Err::<TranscriptSegment, DbError>(DbError::NotFound(Entity::TranscriptSegment, id))
                &&& *final(db) == *old(db)
            },
            Some(g) => if speaker_missing(input.speaker_id, old(db).speakers.rows@) {
                &&& r == Err::<TranscriptSegment, DbError>(
                    DbError::MissingReference(Entity::Speaker, input.speaker_id->Some_0),
                )
                &&& *final(db) == *old(db)
            } else {
                &&& r == Ok::<TranscriptSegment, DbError>(updated_segment(g, input))
                &&& final(db).segments.rows@ == replace_row(old(db).segments.rows@, r->Ok_0)
                &&& final(db).same_except(old(db), set![Entity::TranscriptSegment])
            },
        },
{
    let k = match db.segments.position(id) {
        Some(k) => k,
        None => return Err(DbError::NotFound(Entity::TranscriptSegment, id)),
    };
    if let Some(s) = input.speaker_id {
        if db.speakers.position(s).is_none() {
            return Err(DbError::MissingReference(Entity::Speaker, s));
        }
    }
    let ghost before = *db;
    let current = &db.segments.rows[k];
    let row = TranscriptSegment {
        id,
        audio_file_id: current.audio_file_id,
        speaker_id: match input.speaker_id {
            Some(s) => Some(s),
            None => current.speaker_id,
        },
        start_time: current.start_time,
        end_time: current.end_time,
        text: match input.text {
            Some(t) => t,
            None => current.text.clone(),
        },
        is_deleted: match input.is_deleted {
            Some(d) => d,
            None => current.is_deleted,
        },
        created_at: current.created_at,
    };
    let out = row.duplicate();
    proof {
        lemma_wf_update(before.segments.rows@, before.segments.last_id, before.clock, k as int, row);
    }
    db.segments.replace(k, row);
    assert(db.tables_wf()) by {
        let sg = db.segments.rows@;
        assert forall|i: int| 0 <= i < sg.len() implies {
            &&& has_id(db.audio_files.rows@, #[trigger] sg[i].audio_file_id)
            &&& sg[i].speaker_id matches Some(x) ==> has_id(db.speakers.rows@, x)
        } by {
            assert(has_id(db.audio_files.rows@, before.segments.rows@[i].audio_file_id));
        }
    }
    Ok(out)
}

/// Removes segment `id` for good; removing one that does not exist changes nothing.
pub fn delete_transcript_segment(db: &mut Database, id: i32)
    requires
        old(db).wf(),
    ensures
        final(db).wf(),
        final(db).segments.rows@ == without_id(old(db).segments.rows@, id),
        final(db).segments.last_id == old(db).segments.last_id,
        !has_id(old(db).segments.rows@, id) ==> *final(db) == *old(db),
        final(db).clock == old(db).clock,
        final(db).same_except(old(db), set![Entity::TranscriptSegment]),
{
    let ghost before = *db;
    db.segments.remove(id);
    proof {
        lemma_wf_filter(before.segments.rows@, before.segments.last_id, db.clock, id_differs(id));
    }
    assert(db.tables_wf()) by {
        let sg = db.segments.rows@;
        assert forall|i: int| 0 <= i < sg.len() implies {
            &&& has_id(db.audio_files.rows@, #[trigger] sg[i].audio_file_id)
            &&& sg[i].speaker_id matches Some(x) ==> has_id(db.speakers.rows@, x)
        } by {
            assert(before.segments.rows@.contains(sg[i]));
            let j = choose|j: int| 0 <= j < before.segments.rows@.len() && before.segments.rows@[j] == sg[i];
            assert(has_id(db.audio_files.rows@, before.segments.rows@[j].audio_file_id));
        }
    }
}

/// Inserts all of `segments` into audio file `audio_file_id` as one batch,
/// with one timestamp, and returns how many were inserted. Nothing is
/// inserted when the audio file, or a speaker named, does not exist.
pub fn bulk_create_segments(db: &mut Database, audio_file_id: i32, segments: Vec<CreateSegmentInput>) -> (r: Result<usize, DbError>)
    requires
        old(db).wf(),
    ensures
        final(db).wf(),
        !has_id(old(db).audio_files.rows@, audio_file_id) ==> {
            &&& r == Err::<usize, DbError>(DbError::MissingReference(Entity::AudioFile, audio_file_id))
            &&& *final(db) == *old(db)
        },
        has_id(old(db).audio_files.rows@, audio_file_id) && !speakers_known(
            segments@,
            old(db).speakers.rows@,
        ) ==> {
            &&& r matches Err(DbError::MissingReference(Entity::Speaker, s))
                && first_unknown_speaker(segments@, old(db).speakers.rows@, s)
            &&& *final(db) == *old(db)
        },
        has_id(old(db).audio_files.rows@, audio_file_id) && speakers_known(
            segments@,
            old(db).speakers.rows@,
        ) ==> if old(db).segments.last_id + segments@.len() > i32::MAX {
            &&& r == Err::<usize, DbError>(DbError::StorageFull)
            &&& *final(db) == *old(db)
        } else {
            &&& r == Ok::<usize, DbError>(segments@.len() as usize)
            &&& final(db).segments.rows@ == old(db).segments.rows@ + batch_rows(
                segments@,
                audio_file_id,
                old(db).segments.last_id + 1,
                final(db).clock,
            )
            &&& clock_advanced(old(db).clock, final(db).clock)
            &&& final(db).same_except(old(db), set![Entity::TranscriptSegment])
        },
{
    if db.audio_files.position(audio_file_id).is_none() {
        return Err(DbError::MissingReference(Entity::AudioFile, audio_file_id));
    }
    let mut k: usize = 0;
    while k < segments.len()
        invariant
            k <= segments@.len(),
            *db == *old(db),
            old(db).wf(),
            has_id(old(db).audio_files.rows@, audio_file_id),
            speakers_known(segments@.take(k as int), db.speakers.rows@),
        decreases segments@.len() - k,
    {
        if let Some(s) = segments[k].speaker_id {
            if db.speakers.position(s).is_none() {
                assert(first_unknown_speaker(segments@, db.speakers.rows@, s)) by {
                    assert(segments@[k as int].speaker_id == Some(s));
                }
                assert(!speakers_known(segments@, db.speakers.rows@));
                return Err(DbError::MissingReference(Entity::Speaker, s));
            }
        }
        proof {
            assert forall|i: int| 0 <= i < k + 1 implies (#[trigger] segments@.take(k + 1)[i].speaker_id matches Some(x) ==> has_id(
                db.speakers.rows@,
                x,
            )) by {
                if i < k {
                    assert(segments@.take(k + 1)[i] == segments@.take(k as int)[i]);
                }
            }
        }
        k = k + 1;
    }
    assert(segments@.take(k as int) =~= segments@);
    if segments.len() > (i32::MAX - db.segments.last_id) as usize {
        return Err(DbError::StorageFull);
    }
    let ghost before = *db;
    let stamp = db.tick();
    proof {
        lemma_tables_later(before, *db);
    }
    let ghost first = before.segments.last_id + 1;
    let mut k: usize = 0;
    while k < segments.len()
        invariant
            k <= segments@.len(),
            before.segments.last_id + segments@.len() <= i32::MAX,
            first == before.segments.last_id + 1,
            has_id(before.audio_files.rows@, audio_file_id),
            speakers_known(segments@, before.speakers.rows@),
            stamp == db.clock,
            clock_advanced(before.clock, db.clock),
            db.same_except(&before, set![Entity::TranscriptSegment]),
            db.segments.last_id == before.segments.last_id + k,
            db.segments.rows@ == before.segments.rows@ + batch_rows(
                segments@.take(k as int),
                audio_file_id,
                first,
                stamp,
            ),
            db.tables_wf(),
        decreases segments@.len() - k,
    {
        let g = &segments[k];
        let row = TranscriptSegment {
            id: db.segments.last_id + 1,
            audio_file_id,
            speaker_id: g.speaker_id,
            start_time: g.start_time,
            end_time: g.end_time,
            text: g.text.clone(),
            is_deleted: false,
            created_at: stamp,
        };
        let ghost prev = *db;
        proof {
            lemma_wf_push(prev.segments.rows@, prev.segments.last_id, stamp, row, stamp);
        }
        db.segments.append(row);
        proof {
            let grown = batch_rows(segments@.take(k + 1), audio_file_id, first, stamp);
            let had = batch_rows(segments@.take(k as int), audio_file_id, first, stamp);
            assert forall|i: int| 0 <= i < k + 1 implies #[trigger] grown[i] == had.push(row)[i] by {
                if i < k {
                    assert(segments@.take(k + 1)[i] == segments@.take(k as int)[i]);
                    assert(had.push(row)[i] == had[i]);
                    assert(grown[i] == segment_row(segments@.take(k + 1)[i], audio_file_id, first + i, stamp));
                    assert(had[i] == segment_row(segments@.take(k as int)[i], audio_file_id, first + i, stamp));
                } else {
                    assert(segments@.take(k + 1)[i] == segments@[k as int]);
                    assert(had.push(row)[i] == row);
                    assert(row.text == segments@[k as int].text);
                    assert(row.id == first + k);
                    assert(grown[i] == segment_row(segments@[k as int], audio_file_id, first + k, stamp));
                    assert(grown[i] == row);
                }
            }
            assert(grown =~= had.push(row));
            assert(db.segments.rows@ =~= before.segments.rows@ + grown);
            assert(db.tables_wf()) by {
                let sg = db.segments.rows@;
                assert forall|i: int| 0 <= i < sg.len() implies {
                    &&& has_id(db.audio_files.rows@, #[trigger] sg[i].audio_file_id)
                    &&& sg[i].speaker_id matches Some(x) ==> has_id(db.speakers.rows@, x)
                } by {
                    if i < prev.segments.rows@.len() {
                        assert(sg[i] == prev.segments.rows@[i]);
                    } else {
                        assert(segments@[k as int].speaker_id == row.speaker_id);
                    }
                }
            }
        }
        k = k + 1;
    }
    assert(segments@.take(k as int) =~= segments@);
    Ok(segments.len())
}

} // verus!
