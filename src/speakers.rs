use vstd::prelude::*;
use crate::cases::lemma_tables_later;
use crate::db::{clock_advanced, lookup, Database};
use crate::error::{DbError, Entity};
use crate::sorting::{listing_of, sort_rows};
use crate::models::{copy_text, Speaker, TranscriptSegment, VoiceSample};
use crate::table::{
    has_child, lemma_without_absent, lemma_without_no_children,
    children_of, find_row, has_id, id_differs, lemma_has_id_filter, lemma_has_id_push,
    lemma_has_id_update, lemma_wf_filter, lemma_wf_push, lemma_wf_update,
    parent_differs, replace_row, rows_wf, without_children, without_id, Record,
};

verus! {

/// Fields of a new speaker.
pub struct CreateSpeakerInput {
    pub name: String,
    pub alias: Option<String>,
    pub gender: Option<String>,
    pub age_estimate: Option<String>,
    pub notes: Option<String>,
}

/// Fields of a speaker to change; `None` leaves a field as it is.
pub struct UpdateSpeakerInput {
    pub name: Option<String>,
    pub alias: Option<String>,
    pub gender: Option<String>,
    pub age_estimate: Option<String>,
    pub notes: Option<String>,
}

/// Fields of a new voice sample; `duration` is in milliseconds.
pub struct CreateVoiceSampleInput {
    pub speaker_id: i32,
    pub file_name: String,
    pub file_path: String,
    pub duration: i64,
}

pub open spec fn or_keep(new: Option<String>, old: Option<String>) -> Option<String> {
    match new {
        Some(v) => Some(v),
        None => old,
    }
}

/// The speaker `s` after applying `input`.
pub open spec fn updated_speaker(s: Speaker, input: UpdateSpeakerInput) -> Speaker {
    Speaker {
        name: match input.name {
            Some(v) => v,
            None => s.name,
        },
        alias: or_keep(input.alias, s.alias),
        gender: or_keep(input.gender, s.gender),
        age_estimate: or_keep(input.age_estimate, s.age_estimate),
        notes: or_keep(input.notes, s.notes),
        ..s
    }
}

/// The segment `g` with its link to speaker `id` cleared.
pub open spec fn detached(g: TranscriptSegment, id: i32) -> TranscriptSegment {
    if g.speaker_id == Some(id) {
        TranscriptSegment { speaker_id: None, ..g }
    } else {
        g
    }
}

fn keep_or(new: Option<String>, old: &Option<String>) -> (r: Option<String>)
    ensures
        r == or_keep(new, *old),
{
    match new {
        Some(v) => Some(v),
        None => copy_text(old),
    }
}

/// All speakers, by name.
pub fn get_speakers(db: &Database) -> (r: Vec<Speaker>)
    requires
        db.wf(),
    ensures
        listing_of(r@, db.speakers.rows@),
{
    sort_rows(db.speakers.all())
}

/// The speaker `id`.
pub fn get_speaker(db: &Database, id: i32) -> (r: Result<Speaker, DbError>)
    requires
        db.wf(),
    ensures
        r == lookup(db.speakers.rows@, Entity::Speaker, id),
{
    match db.speakers.fetch(id) {
        Some(s) => Ok(s),
        None => Err(DbError::NotFound(Entity::Speaker, id)),
    }
}

/// Inserts a new speaker and returns it.
pub fn create_speaker(db: &mut Database, input: CreateSpeakerInput) -> (r: Result<Speaker, DbError>)
    requires
        old(db).wf(),
    ensures
        final(db).wf(),
        match old(db).speakers.spec_next_id() {
            None => r == Err::<Speaker, DbError>(DbError::StorageFull) && *final(db) == *old(db),
            Some(id) => {
                &&& r == Ok::<Speaker, DbError>(
                    (Speaker {
                        id,
                        name: input.name,
                        alias: input.alias,
                        gender: input.gender,
                        age_estimate: input.age_estimate,
                        notes: input.notes,
                        created_at: final(db).clock,
                    }),
                )
                &&& final(db).speakers.rows@ == old(db).speakers.rows@.push(r->Ok_0)
                &&& clock_advanced(old(db).clock, final(db).clock)
                &&& final(db).same_except(old(db), set![Entity::Speaker])
            },
        },
{
    let id = match db.speakers.next_id() {
        Some(id) => id,
        None => return Err(DbError::StorageFull),
    };
    let ghost before = *db;
    let stamp = db.tick();
    let row = Speaker {
        id,
        name: input.name,
        alias: input.alias,
        gender: input.gender,
        age_estimate: input.age_estimate,
        notes: input.notes,
        created_at: stamp,
    };
    let out = row.duplicate();
    proof {
        lemma_wf_push(before.speakers.rows@, before.speakers.last_id, before.clock, row, stamp);
        lemma_has_id_push(before.speakers.rows@, row);
        lemma_tables_later(before, *db);
    }
    db.speakers.append(row);
    assert(db.tables_wf()) by {
        let s = db.speakers.rows@;
        let vs = db.voice_samples.rows@;
        assert forall|i: int| 0 <= i < vs.len() implies has_id(s, #[trigger] vs[i].speaker_id) by {
            assert(has_id(before.speakers.rows@, vs[i].speaker_id));
        }
        let sg = db.segments.rows@;
        assert forall|i: int| 0 <= i < sg.len() implies {
            &&& has_id(db.audio_files.rows@, #[trigger] sg[i].audio_file_id)
            &&& sg[i].speaker_id matches Some(x) ==> has_id(s, x)
        } by {
            assert(has_id(before.audio_files.rows@, before.segments.rows@[i].audio_file_id));
            if let Some(x) = sg[i].speaker_id {
                assert(has_id(before.speakers.rows@, x));
            }
        }
    }
    Ok(out)
}

/// Applies the supplied fields to speaker `id` and returns it as it now stands.
pub fn update_speaker(db: &mut Database, id: i32, input: UpdateSpeakerInput) -> (r: Result<Speaker, DbError>)
    requires
        old(db).wf(),
    ensures
        final(db).wf(),
        final(db).clock == old(db).clock,
        match find_row(old(db).speakers.rows@, id) {
            None => {
                &&& r == Err::<Speaker, DbError>(DbError::NotFound(Entity::Speaker, id))
                &&& *final(db) == *old(db)
            },
            Some(s) => {
                &&& r == Ok::<Speaker, DbError>(updated_speaker(s, input))
                &&& final(db).speakers.rows@ == replace_row(old(db).speakers.rows@, r->Ok_0)
                &&& final(db).same_except(old(db), set![Entity::Speaker])
            },
        },
{
    let k = match db.speakers.position(id) {
        Some(k) => k,
        None => return Err(DbError::NotFound(Entity::Speaker, id)),
    };
    let ghost before = *db;
    let current = &db.speakers.rows[k];
    let row = Speaker {
        id,
        name: match input.name {
            Some(v) => v,
            None => current.name.clone(),
        },
        alias: keep_or(input.alias, &current.alias),
        gender: keep_or(input.gender, &current.gender),
        age_estimate: keep_or(input.age_estimate, &current.age_estimate),
        notes: keep_or(input.notes, &current.notes),
        created_at: current.created_at,
    };
    let out = row.duplicate();
    proof {
        lemma_wf_update(before.speakers.rows@, before.speakers.last_id, before.clock, k as int, row);
        lemma_has_id_update(before.speakers.rows@, k as int, row);
    }
    db.speakers.replace(k, row);
    assert(db.tables_wf()) by {
        let s = db.speakers.rows@;
        let vs = db.voice_samples.rows@;
        assert forall|i: int| 0 <= i < vs.len() implies has_id(s, #[trigger] vs[i].speaker_id) by {
            assert(has_id(before.speakers.rows@, vs[i].speaker_id));
        }
        let sg = db.segments.rows@;
        assert forall|i: int| 0 <= i < sg.len() implies {
            &&& has_id(db.audio_files.rows@, #[trigger] sg[i].audio_file_id)
            &&& sg[i].speaker_id matches Some(x) ==> has_id(s, x)
        } by {
            assert(has_id(before.audio_files.rows@, before.segments.rows@[i].audio_file_id));
            if let Some(x) = sg[i].speaker_id {
                assert(has_id(before.speakers.rows@, x));
            }
        }
    }
    Ok(out)
}

/// Deletes speaker `id` together with its voice samples; transcript segments
/// attributed to it keep their text and lose the attribution. Deleting a
/// speaker that does not exist changes nothing.
pub fn delete_speaker(db: &mut Database, id: i32)
    requires
        old(db).wf(),
    ensures
        final(db).wf(),
        final(db).speakers.rows@ == without_id(old(db).speakers.rows@, id),
        final(db).voice_samples.rows@ == without_children(old(db).voice_samples.rows@, id),
        final(db).segments.rows@ == old(db).segments.rows@.map_values(
            |g: TranscriptSegment| detached(g, id),
        ),
        final(db).speakers.last_id == old(db).speakers.last_id,
        final(db).voice_samples.last_id == old(db).voice_samples.last_id,
        final(db).segments.last_id == old(db).segments.last_id,
        final(db).clock == old(db).clock,
        final(db).same_except(
            old(db),
            set![Entity::Speaker, Entity::VoiceSample, Entity::TranscriptSegment],
        ),
        !has_id(old(db).speakers.rows@, id) ==> *final(db) == *old(db),
{
    if db.speakers.position(id).is_none() {
        proof {
            let vs = db.voice_samples.rows@;
            let sg = db.segments.rows@;
            lemma_without_absent(db.speakers.rows@, id);
            assert(!has_child(vs, id)) by {
                if has_child(vs, id) {
                    let i = choose|i: int| 0 <= i < vs.len() && #[trigger] vs[i].spec_parent() == Some(id);
                    assert(has_id(db.speakers.rows@, vs[i].speaker_id));
                }
            }
            lemma_without_no_children(vs, id);
            assert(sg.map_values(|g: TranscriptSegment| detached(g, id)) =~= sg) by {
                assert forall|i: int| 0 <= i < sg.len() implies #[trigger] detached(sg[i], id) == sg[i] by {
                    assert(has_id(db.audio_files.rows@, sg[i].audio_file_id));
                    if sg[i].speaker_id == Some(id) {
                        assert(has_id(db.speakers.rows@, id));
                    }
                }
            }
        }
        return;
    }
    let ghost before = *db;
    db.speakers.remove(id);
    db.voice_samples.remove_children(id);
    proof {
        lemma_wf_filter(before.speakers.rows@, before.speakers.last_id, db.clock, id_differs(id));
        lemma_wf_filter(
            before.voice_samples.rows@,
            before.voice_samples.last_id,
            db.clock,
            parent_differs(id),
        );
    }
    let ghost segs = before.segments.rows@;
    let mut detached_rows: Vec<TranscriptSegment> = Vec::new();
    let mut k: usize = 0;
    while k < db.segments.rows.len()
        invariant
            db.segments.rows@ == segs,
            k <= segs.len(),
            detached_rows@ == segs.take(k as int).map_values(|g: TranscriptSegment| detached(g, id)),
        decreases segs.len() - k,
    {
        let g = &db.segments.rows[k];
        let speaker_id = if g.speaker_id == Some(id) {
            None
        } else {
            g.speaker_id
        };
        detached_rows.push(
            TranscriptSegment {
                id: g.id,
                audio_file_id: g.audio_file_id,
                speaker_id,
                start_time: g.start_time,
                end_time: g.end_time,
                text: g.text.clone(),
                is_deleted: g.is_deleted,
                created_at: g.created_at,
            },
        );
        k = k + 1;
        assert(detached_rows@ =~= segs.take(k as int).map_values(
            |g: TranscriptSegment| detached(g, id),
        ));
    }
    assert(segs.take(k as int) =~= segs);
    db.segments.rows = detached_rows;
    assert(db.tables_wf()) by {
        let sp = db.speakers.rows@;
        let vs = db.voice_samples.rows@;
        let sg = db.segments.rows@;
        assert forall|i: int| 0 <= i < vs.len() implies has_id(sp, #[trigger] vs[i].speaker_id) by {
            let v = vs[i];
            assert(before.voice_samples.rows@.contains(v));
            let j = choose|j: int| 0 <= j < before.voice_samples.rows@.len() && before.voice_samples.rows@[j] == v;
            assert(has_id(before.speakers.rows@, before.voice_samples.rows@[j].speaker_id));
            let m = choose|m: int| 0 <= m < before.speakers.rows@.len() && #[trigger] before.speakers.rows@[m].spec_id() == v.speaker_id;
            lemma_has_id_filter(before.speakers.rows@, id_differs(id), v.speaker_id);
            assert(id_differs::<Speaker>(id)(before.speakers.rows@[m]));
        }
        assert(rows_wf(sg, db.segments.last_id, db.clock)) by {
            assert forall|i: int, j: int| 0 <= i < j < sg.len() implies #[trigger] sg[i].spec_id()
                < #[trigger] sg[j].spec_id() by {
                assert(segs[i].spec_id() < segs[j].spec_id());
            }
            assert forall|i: int, j: int| 0 <= i < j < sg.len() implies #[trigger] sg[i].spec_created_at()
                <= #[trigger] sg[j].spec_created_at() by {
                assert(segs[i].spec_created_at() <= segs[j].spec_created_at());
            }
            assert forall|i: int| 0 <= i < sg.len() implies 1 <= #[trigger] sg[i].spec_id() <= db.segments.last_id by {
                assert(1 <= segs[i].spec_id() <= db.segments.last_id);
            }
            assert forall|i: int| 0 <= i < sg.len() implies #[trigger] sg[i].spec_created_at() <= db.clock by {
                assert(segs[i].spec_created_at() <= db.clock);
            }
        }
        assert forall|i: int| 0 <= i < sg.len() implies {
            &&& has_id(db.audio_files.rows@, #[trigger] sg[i].audio_file_id)
            &&& sg[i].speaker_id matches Some(x) ==> has_id(sp, x)
        } by {
            assert(has_id(db.audio_files.rows@, segs[i].audio_file_id));
            if let Some(x) = sg[i].speaker_id {
                assert(x != id);
                assert(segs[i].speaker_id == Some(x));
                assert(has_id(before.speakers.rows@, x));
                let m = choose|m: int| 0 <= m < before.speakers.rows@.len() && #[trigger] before.speakers.rows@[m].spec_id() == x;
                lemma_has_id_filter(before.speakers.rows@, id_differs(id), x);
                assert(id_differs::<Speaker>(id)(before.speakers.rows@[m]));
            }
        }
    }
}

/// The voice samples of speaker `speaker_id`, newest first.
pub fn get_voice_samples(db: &Database, speaker_id: i32) -> (r: Vec<VoiceSample>)
    requires
        db.wf(),
    ensures
        r@ == children_of(db.voice_samples.rows@, speaker_id).reverse(),
{
    let oldest_first = db.voice_samples.children(speaker_id);
    let mut r: Vec<VoiceSample> = Vec::new();
    let mut k: usize = oldest_first.len();
    while k > 0
        invariant
            k <= oldest_first@.len(),
            r@ == oldest_first@.skip(k as int).reverse(),
        decreases k,
    {
        k = k - 1;
        r.push(oldest_first[k].duplicate());
        assert(r@ =~= oldest_first@.skip(k as int).reverse());
    }
    assert(oldest_first@.skip(0) =~= oldest_first@);
    r
}

/// Adds a voice sample to an existing speaker and returns it.
pub fn create_voice_sample(db: &mut Database, input: CreateVoiceSampleInput) -> (r: Result<VoiceSample, DbError>)
    requires
        old(db).wf(),
    ensures
        final(db).wf(),
        !has_id(old(db).speakers.rows@, input.speaker_id) ==> {
            &&& r == Err::<VoiceSample, DbError>(
                DbError::MissingReference(Entity::Speaker, input.speaker_id),
            )
            &&& *final(db) == *old(db)
        },
        has_id(old(db).speakers.rows@, input.speaker_id) ==> match old(db).voice_samples.spec_next_id() {
            None => r == Err::<VoiceSample, DbError>(DbError::StorageFull) && *final(db) == *old(db),
            Some(id) => {
                &&& r == Ok::<VoiceSample, DbError>(
                    (VoiceSample {
                        id,
                        speaker_id: input.speaker_id,
                        file_name: input.file_name,
                        file_path: input.file_path,
                        duration: input.duration,
                        created_at: final(db).clock,
                    }),
                )
                &&& final(db).voice_samples.rows@ == old(db).voice_samples.rows@.push(r->Ok_0)
                &&& clock_advanced(old(db).clock, final(db).clock)
                &&& final(db).same_except(old(db), set![Entity::VoiceSample])
            },
        },
{
    if db.speakers.position(input.speaker_id).is_none() {
        return Err(DbError::MissingReference(Entity::Speaker, input.speaker_id));
    }
    let id = match db.voice_samples.next_id() {
        Some(id) => id,
        None => return Err(DbError::StorageFull),
    };
    let ghost before = *db;
    let stamp = db.tick();
    let row = VoiceSample {
        id,
        speaker_id: input.speaker_id,
        file_name: input.file_name,
        file_path: input.file_path,
        duration: input.duration,
        created_at: stamp,
    };
    let out = row.duplicate();
    proof {
        lemma_wf_push(before.voice_samples.rows@, before.voice_samples.last_id, before.clock, row, stamp);
        lemma_tables_later(before, *db);
    }
    db.voice_samples.append(row);
    assert(db.tables_wf()) by {
        let s = db.voice_samples.rows@;
        assert forall|i: int| 0 <= i < s.len() implies has_id(db.speakers.rows@, #[trigger] s[i].speaker_id) by {
            if i < before.voice_samples.rows@.len() {
                assert(s[i] == before.voice_samples.rows@[i]);
            }
        }
    }
    Ok(out)
}

/// Deletes voice sample `id`; deleting one that does not exist changes nothing.
pub fn delete_voice_sample(db: &mut Database, id: i32)
    requires
        old(db).wf(),
    ensures
        final(db).wf(),
        final(db).voice_samples.rows@ == without_id(old(db).voice_samples.rows@, id),
        final(db).voice_samples.last_id == old(db).voice_samples.last_id,
        !has_id(old(db).voice_samples.rows@, id) ==> *final(db) == *old(db),
        final(db).clock == old(db).clock,
        final(db).same_except(old(db), set![Entity::VoiceSample]),
{
    let ghost before = *db;
    db.voice_samples.remove(id);
    proof {
        lemma_wf_filter(before.voice_samples.rows@, before.voice_samples.last_id, db.clock, id_differs(id));
    }
    assert(db.tables_wf()) by {
        let vs = db.voice_samples.rows@;
        assert forall|i: int| 0 <= i < vs.len() implies has_id(db.speakers.rows@, #[trigger] vs[i].speaker_id) by {
            assert(before.voice_samples.rows@.contains(vs[i]));
        }
    }
}

} // verus!
