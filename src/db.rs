use vstd::prelude::*;
use crate::clock::{following_stamp, now_micros};
use crate::error::{DbError, Entity};
use crate::models::{
    ActivityLog, AlertWord, AudioFile, Case, Notification, ReplacementWord, Speaker,
    TranscriptSegment, User, VoiceSample,
};
use crate::table::{
    find_row, has_id, ids_increasing, lemma_take_push, lemma_wf_filter,
    Record, Table,
};

verus! {

/// Number of steps of the schema's migration set. The steps create, in this
/// order, the tables of users, cases, audio files, speakers, voice samples,
/// transcript segments, alert words, replacement words, notifications and
/// activity logs.
pub const MIGRATION_COUNT: u32 = 10;

/// The store: one table per entity, the last timestamp handed out, the number
/// of migration steps applied, and the work factor of password hashes.
pub struct Database {
    pub users: Table<User>,
    pub cases: Table<Case>,
    pub audio_files: Table<AudioFile>,
    pub speakers: Table<Speaker>,
    pub voice_samples: Table<VoiceSample>,
    pub segments: Table<TranscriptSegment>,
    pub alert_words: Table<AlertWord>,
    pub replacement_words: Table<ReplacementWord>,
    pub notifications: Table<Notification>,
    pub activity_logs: Table<ActivityLog>,
    /// Timestamps are microseconds since the Unix epoch; this is the latest
    /// one handed out.
    pub clock: i64,
    pub schema_version: u32,
    pub hash_cost: u32,
}

/// The result of reading the row `id` of a table of kind `entity`.
pub open spec fn lookup<R: Record>(rows: Seq<R>, entity: Entity, id: i32) -> Result<R, DbError> {
    match find_row(rows, id) {
        Some(r) => Ok(r),
        None => Err(DbError::NotFound(entity, id)),
    }
}

pub open spec fn audio_refs_ok(audio: Seq<AudioFile>, cases: Seq<Case>) -> bool {
    forall|i: int| 0 <= i < audio.len() ==> has_id(cases, #[trigger] audio[i].case_id)
}

pub open spec fn sample_refs_ok(samples: Seq<VoiceSample>, speakers: Seq<Speaker>) -> bool {
    forall|i: int| 0 <= i < samples.len() ==> has_id(speakers, #[trigger] samples[i].speaker_id)
}

pub open spec fn segment_refs_ok(
    segments: Seq<TranscriptSegment>,
    audio: Seq<AudioFile>,
    speakers: Seq<Speaker>,
) -> bool {
    forall|i: int|
        0 <= i < segments.len() ==> {
            &&& has_id(audio, #[trigger] segments[i].audio_file_id)
            &&& segments[i].speaker_id matches Some(s) ==> has_id(speakers, s)
        }
}

pub open spec fn log_refs_ok(logs: Seq<ActivityLog>, users: Seq<User>) -> bool {
    forall|i: int|
        0 <= i < logs.len() ==> (#[trigger] logs[i].user_id matches Some(u) ==> has_id(users, u))
}

pub open spec fn usernames_unique(users: Seq<User>) -> bool {
    forall|i: int, j: int|
        0 <= i < users.len() && 0 <= j < users.len() && i != j ==> #[trigger] users[i].username@
            != #[trigger] users[j].username@
}

pub open spec fn case_stamps_ok(cases: Seq<Case>, clock: i64) -> bool {
    forall|i: int|
        0 <= i < cases.len() ==> #[trigger] cases[i].created_at <= cases[i].updated_at <= clock
}

/// `new` took a fresh stamp after `old`: never earlier, and strictly later
/// unless the clock was already at its largest value.
pub open spec fn clock_advanced(old: i64, new: i64) -> bool {
    &&& old <= new
    &&& old < i64::MAX ==> old < new
}

/// Keeps a transcript segment whose audio file is among `audio`.
pub open spec fn audio_present(audio: Seq<AudioFile>) -> spec_fn(TranscriptSegment) -> bool {
    |s: TranscriptSegment| has_id(audio, s.audio_file_id)
}

/// The segments of `segments` whose audio file is among `audio`.
pub open spec fn segments_with_audio(
    segments: Seq<TranscriptSegment>,
    audio: Seq<AudioFile>,
) -> Seq<TranscriptSegment> {
    segments.filter(audio_present(audio))
}

impl Database {
    /// Every table is well formed and every reference between rows resolves.
    pub open spec fn tables_wf(&self) -> bool {
        &&& self.users.wf(self.clock)
        &&& self.cases.wf(self.clock)
        &&& self.audio_files.wf(self.clock)
        &&& self.speakers.wf(self.clock)
        &&& self.voice_samples.wf(self.clock)
        &&& self.segments.wf(self.clock)
        &&& self.alert_words.wf(self.clock)
        &&& self.replacement_words.wf(self.clock)
        &&& self.notifications.wf(self.clock)
        &&& self.activity_logs.wf(self.clock)
        &&& case_stamps_ok(self.cases.rows@, self.clock)
        &&& audio_refs_ok(self.audio_files.rows@, self.cases.rows@)
        &&& sample_refs_ok(self.voice_samples.rows@, self.speakers.rows@)
        &&& segment_refs_ok(self.segments.rows@, self.audio_files.rows@, self.speakers.rows@)
        &&& log_refs_ok(self.activity_logs.rows@, self.users.rows@)
        &&& usernames_unique(self.users.rows@)
    }

    /// Whether every migration step has been applied.
    pub open spec fn is_migrated(&self) -> bool {
        self.schema_version == MIGRATION_COUNT
    }

    /// A store that commands may use: well formed and fully migrated.
    pub open spec fn wf(&self) -> bool {
        self.tables_wf() && self.is_migrated()
    }

    /// Only the tables of the kinds in `changed` may differ between `self` and
    /// `other`.
    pub open spec fn tables_match(&self, other: &Database, changed: Set<Entity>) -> bool {
        &&& (!changed.contains(Entity::User) ==> self.users == other.users)
        &&& (!changed.contains(Entity::Case) ==> self.cases == other.cases)
        &&& (!changed.contains(Entity::AudioFile) ==> self.audio_files == other.audio_files)
        &&& (!changed.contains(Entity::Speaker) ==> self.speakers == other.speakers)
        &&& (!changed.contains(Entity::VoiceSample) ==> self.voice_samples == other.voice_samples)
        &&& (!changed.contains(Entity::TranscriptSegment) ==> self.segments == other.segments)
        &&& (!changed.contains(Entity::AlertWord) ==> self.alert_words == other.alert_words)
        &&& (!changed.contains(Entity::ReplacementWord) ==> self.replacement_words
            == other.replacement_words)
        &&& (!changed.contains(Entity::Notification) ==> self.notifications
            == other.notifications)
        &&& (!changed.contains(Entity::ActivityLog) ==> self.activity_logs
            == other.activity_logs)
    }

    /// Only the tables of the kinds in `changed`, and the clock, may differ
    /// between `self` and `other`.
    pub open spec fn same_except(&self, other: &Database, changed: Set<Entity>) -> bool {
        &&& self.tables_match(other, changed)
        &&& self.schema_version == other.schema_version
        &&& self.hash_cost == other.hash_cost
    }

    /// An empty store on which no migration step has run yet; password hashes
    /// will use the work factor `hash_cost`.
    pub fn new(hash_cost: u32) -> (db: Self)
        ensures
            db.tables_wf(),
            db.schema_version == 0,
            db.hash_cost == hash_cost,
            db.clock == 0,
            db.users.rows@.len() == 0,
            db.cases.rows@.len() == 0,
            db.audio_files.rows@.len() == 0,
            db.speakers.rows@.len() == 0,
            db.voice_samples.rows@.len() == 0,
            db.segments.rows@.len() == 0,
            db.alert_words.rows@.len() == 0,
            db.replacement_words.rows@.len() == 0,
            db.notifications.rows@.len() == 0,
            db.activity_logs.rows@.len() == 0,
    {
        let db = Database {
            users: Table::new(),
            cases: Table::new(),
            audio_files: Table::new(),
            speakers: Table::new(),
            voice_samples: Table::new(),
            segments: Table::new(),
            alert_words: Table::new(),
            replacement_words: Table::new(),
            notifications: Table::new(),
            activity_logs: Table::new(),
            clock: 0,
            schema_version: 0,
            hash_cost,
        };
        assert(db.users.wf(0));
        assert(db.cases.wf(0));
        assert(db.audio_files.wf(0));
        assert(db.speakers.wf(0));
        assert(db.voice_samples.wf(0));
        assert(db.segments.wf(0));
        assert(db.alert_words.wf(0));
        assert(db.replacement_words.wf(0));
        assert(db.notifications.wf(0));
        assert(db.activity_logs.wf(0));
        db
    }

    /// Applies, in order, the migration steps not applied yet; returns how many
    /// ran. On a fully migrated store nothing changes and 0 is returned.
    pub fn run_pending_migrations(&mut self) -> (applied: u32)
        requires
            old(self).schema_version <= MIGRATION_COUNT,
        ensures
            final(self).schema_version == MIGRATION_COUNT,
            applied == MIGRATION_COUNT - old(self).schema_version,
            final(self).users == old(self).users,
            final(self).cases == old(self).cases,
            final(self).audio_files == old(self).audio_files,
            final(self).speakers == old(self).speakers,
            final(self).voice_samples == old(self).voice_samples,
            final(self).segments == old(self).segments,
            final(self).alert_words == old(self).alert_words,
            final(self).replacement_words == old(self).replacement_words,
            final(self).notifications == old(self).notifications,
            final(self).activity_logs == old(self).activity_logs,
            final(self).clock == old(self).clock,
            final(self).hash_cost == old(self).hash_cost,
            old(self).is_migrated() ==> applied == 0 && *final(self) == *old(self),
    {
        let mut applied: u32 = 0;
        while self.schema_version < MIGRATION_COUNT
            invariant
                self.schema_version <= MIGRATION_COUNT,
                applied == self.schema_version - old(self).schema_version,
                self.users == old(self).users,
                self.cases == old(self).cases,
                self.audio_files == old(self).audio_files,
                self.speakers == old(self).speakers,
                self.voice_samples == old(self).voice_samples,
                self.segments == old(self).segments,
                self.alert_words == old(self).alert_words,
                self.replacement_words == old(self).replacement_words,
                self.notifications == old(self).notifications,
                self.activity_logs == old(self).activity_logs,
                self.clock == old(self).clock,
                self.hash_cost == old(self).hash_cost,
            decreases MIGRATION_COUNT - self.schema_version,
        {
            self.schema_version = self.schema_version + 1;
            applied = applied + 1;
        }
        applied
    }

    /// Removes the transcript segments whose audio file no longer exists.
    pub(crate) fn prune_segments(&mut self)
        requires
            old(self).segments.wf(old(self).clock),
            ids_increasing(old(self).audio_files.rows@),
        ensures
            final(self).segments.rows@ == segments_with_audio(
                old(self).segments.rows@,
                old(self).audio_files.rows@,
            ),
            final(self).segments.last_id == old(self).segments.last_id,
            final(self).segments.wf(final(self).clock),
            final(self).same_except(old(self), set![Entity::TranscriptSegment]),
            final(self).clock == old(self).clock,
    {
        let ghost before = self.segments.rows@;
        let ghost audio = self.audio_files.rows@;
        let mut kept: Vec<TranscriptSegment> = Vec::new();
        let mut k: usize = 0;
        while k < self.segments.rows.len()
            invariant
                self.segments.rows@ == before,
                self.audio_files.rows@ == audio,
                ids_increasing(audio),
                k <= before.len(),
                kept@ == before.take(k as int).filter(audio_present(audio)),
            decreases before.len() - k,
        {
            proof {
                lemma_take_push(before, k as int);
                before.take(k as int).lemma_filter_push(before[k as int], audio_present(audio));
            }
            let present = self.audio_files.position(self.segments.rows[k].audio_file_id).is_some();
            if present {
                kept.push(self.segments.rows[k].duplicate());
            }
            k = k + 1;
        }
        assert(before.take(k as int) =~= before);
        proof {
            lemma_wf_filter(before, self.segments.last_id, self.clock, audio_present(audio));
        }
        self.segments.rows = kept;
    }

    /// Whether every table is well formed and every reference resolves; a
    /// store assembled from stored rows is usable only when this holds.
    #[verifier::rlimit(30)]
    pub fn check_tables(&self) -> (r: bool)
        ensures
            r == self.tables_wf(),
    {
        let clock = self.clock;
        if !(self.users.check(clock) && self.cases.check(clock) && self.audio_files.check(clock)
            && self.speakers.check(clock) && self.voice_samples.check(clock) && self.segments.check(
            clock,
        ) && self.alert_words.check(clock) && self.replacement_words.check(clock)
            && self.notifications.check(clock) && self.activity_logs.check(clock)) {
            return false;
        }
        let cases = &self.cases.rows;
        let mut k: usize = 0;
        while k < cases.len()
            invariant
                k <= cases@.len(),
                cases@ == self.cases.rows@,
                clock == self.clock,
                forall|i: int| 0 <= i < k ==> #[trigger] cases@[i].created_at <= cases@[i].updated_at <= clock,
            decreases cases@.len() - k,
        {
            if cases[k].updated_at < cases[k].created_at || cases[k].updated_at > clock {
                assert(!case_stamps_ok(cases@, clock)) by {
                    if case_stamps_ok(cases@, clock) {
                        assert(cases@[k as int].created_at <= cases@[k as int].updated_at <= clock);
                    }
                }
                return false;
            }
            k = k + 1;
        }
        let audio = &self.audio_files.rows;
        let mut k: usize = 0;
        while k < audio.len()
            invariant
                k <= audio@.len(),
                audio@ == self.audio_files.rows@,
                ids_increasing(self.cases.rows@),
                forall|i: int| 0 <= i < k ==> has_id(self.cases.rows@, #[trigger] audio@[i].case_id),
            decreases audio@.len() - k,
        {
            if self.cases.position(audio[k].case_id).is_none() {
                assert(!audio_refs_ok(audio@, self.cases.rows@)) by {
                    if audio_refs_ok(audio@, self.cases.rows@) {
                        assert(has_id(self.cases.rows@, audio@[k as int].case_id));
                    }
                }
                return false;
            }
            k = k + 1;
        }
        let samples = &self.voice_samples.rows;
        let mut k: usize = 0;
        while k < samples.len()
            invariant
                k <= samples@.len(),
                samples@ == self.voice_samples.rows@,
                ids_increasing(self.speakers.rows@),
                forall|i: int| 0 <= i < k ==> has_id(self.speakers.rows@, #[trigger] samples@[i].speaker_id),
            decreases samples@.len() - k,
        {
            if self.speakers.position(samples[k].speaker_id).is_none() {
                assert(!sample_refs_ok(samples@, self.speakers.rows@)) by {
                    if sample_refs_ok(samples@, self.speakers.rows@) {
                        assert(has_id(self.speakers.rows@, samples@[k as int].speaker_id));
                    }
                }
                return false;
            }
            k = k + 1;
        }
        let segments = &self.segments.rows;
        let mut k: usize = 0;
        while k < segments.len()
            invariant
                k <= segments@.len(),
                segments@ == self.segments.rows@,
                ids_increasing(self.audio_files.rows@),
                ids_increasing(self.speakers.rows@),
                forall|i: int|
                    0 <= i < k ==> {
                        &&& has_id(self.audio_files.rows@, #[trigger] segments@[i].audio_file_id)
                        &&& segments@[i].speaker_id matches Some(x) ==> has_id(self.speakers.rows@, x)
                    },
            decreases segments@.len() - k,
        {
            let audio_ok = match self.audio_files.position(segments[k].audio_file_id) {
                Some(_) => true,
                None => false,
            };
            let speaker_ok = match segments[k].speaker_id {
                Some(x) => match self.speakers.position(x) {
                    Some(_) => true,
                    None => false,
                },
                None => true,
            };
            assert(audio_ok == has_id(self.audio_files.rows@, segments@[k as int].audio_file_id));
            proof {
                if let Some(x) = segments@[k as int].speaker_id {
                    assert(speaker_ok == has_id(self.speakers.rows@, x));
                } else {
                    assert(speaker_ok);
                }
            }
            if !audio_ok || !speaker_ok {
                assert(!segment_refs_ok(segments@, self.audio_files.rows@, self.speakers.rows@)) by {
                    if segment_refs_ok(segments@, self.audio_files.rows@, self.speakers.rows@) {
                        assert(has_id(self.audio_files.rows@, segments@[k as int].audio_file_id));
                        if let Some(x) = segments@[k as int].speaker_id {
                            assert(has_id(self.speakers.rows@, x));
                        }
                    }
                }
                return false;
            }
            assert(segments@[k as int].speaker_id matches Some(x) ==> has_id(self.speakers.rows@, x));
            assert forall|i: int| 0 <= i < k + 1 implies {
                &&& has_id(self.audio_files.rows@, #[trigger] segments@[i].audio_file_id)
                &&& segments@[i].speaker_id matches Some(x) ==> has_id(self.speakers.rows@, x)
            } by {
                if i == k {
                    assert(has_id(self.audio_files.rows@, segments@[k as int].audio_file_id));
                    if let Some(x) = segments@[k as int].speaker_id {
                        assert(has_id(self.speakers.rows@, x));
                    }
                }
            }
            k = k + 1;
        }
        let logs = &self.activity_logs.rows;
        let mut k: usize = 0;
        while k < logs.len()
            invariant
                k <= logs@.len(),
                logs@ == self.activity_logs.rows@,
                ids_increasing(self.users.rows@),
                forall|i: int|
                    0 <= i < k ==> (#[trigger] logs@[i].user_id matches Some(u) ==> has_id(self.users.rows@, u)),
            decreases logs@.len() - k,
        {
            if let Some(u) = logs[k].user_id {
                if self.users.position(u).is_none() {
                    assert(!log_refs_ok(logs@, self.users.rows@)) by {
                        if log_refs_ok(logs@, self.users.rows@) {
                            assert(logs@[k as int].user_id matches Some(u) ==> has_id(self.users.rows@, u));
                        }
                    }
                    return false;
                }
            }
            k = k + 1;
        }
        let users = &self.users.rows;
        let mut i: usize = 0;
        while i < users.len()
            invariant
                i <= users@.len(),
                users@ == self.users.rows@,
                forall|a: int, b: int|
                    0 <= a < b < users@.len() && a < i ==> #[trigger] users@[a].username@
                        != #[trigger] users@[b].username@,
            decreases users@.len() - i,
        {
            let mut j: usize = i + 1;
            while j < users.len()
                invariant
                    i < users@.len(),
                    users@ == self.users.rows@,
                    i + 1 <= j <= users@.len(),
                    forall|a: int, b: int|
                        0 <= a < b < users@.len() && a < i ==> #[trigger] users@[a].username@
                            != #[trigger] users@[b].username@,
                    forall|b: int| i < b < j ==> users@[i as int].username@ != #[trigger] users@[b].username@,
                decreases users@.len() - j,
            {
                if users[i].username == users[j].username {
                    assert(!usernames_unique(users@)) by {
                        if usernames_unique(users@) {
                            assert(users@[i as int].username@ != users@[j as int].username@);
                        }
                    }
                    return false;
                }
                j = j + 1;
            }
            i = i + 1;
        }
        assert(usernames_unique(users@)) by {
            assert forall|a: int, b: int|
                0 <= a < users@.len() && 0 <= b < users@.len() && a != b implies #[trigger] users@[a].username@
                != #[trigger] users@[b].username@ by {
                if a > b {
                    assert(users@[b].username@ != users@[a].username@);
                }
            }
        }
        true
    }

    /// Takes a fresh timestamp from the system clock, never earlier than the
    /// last one handed out.
    pub(crate) fn tick(&mut self) -> (t: i64)
        ensures
            t == final(self).clock,
            clock_advanced(old(self).clock, t),
            final(self).same_except(old(self), Set::empty()),
            final(self).hash_cost == old(self).hash_cost,
    {
        let now = now_micros();
        let t = following_stamp(self.clock, now);
        self.clock = t;
        t
    }
}

} // verus!
