use vstd::prelude::*;
use vstd::utf8::encode_utf8;
use crate::sorting::ListOrder;
use crate::table::Record;
use crate::text::{
    bytes_lt, lemma_bytes_lt_irreflexive, lemma_bytes_lt_total, lemma_bytes_lt_transitive,
    text_less, text_lt,
};

verus! {

/// A copy of an optional text.
pub fn copy_text(t: &Option<String>) -> (r: Option<String>)
    ensures
        r == *t,
{
    match t {
        Some(s) => Some(s.clone()),
        None => None,
    }
}


/// Listing order by a text key (byte-wise on its UTF-8 encoding), then by identifier.
pub open spec fn key_before(k1: Seq<char>, id1: i32, k2: Seq<char>, id2: i32) -> bool {
    text_lt(k1, k2) || (encode_utf8(k1) == encode_utf8(k2) && id1 < id2)
}

pub proof fn lemma_key_order(
    k1: Seq<char>,
    id1: i32,
    k2: Seq<char>,
    id2: i32,
    k3: Seq<char>,
    id3: i32,
)
    ensures
        !key_before(k1, id1, k1, id1),
        key_before(k1, id1, k2, id2) && key_before(k2, id2, k3, id3) ==> key_before(k1, id1, k3, id3),
        id1 != id2 ==> key_before(k1, id1, k2, id2) || key_before(k2, id2, k1, id1),
{
    let (b1, b2, b3) = (encode_utf8(k1), encode_utf8(k2), encode_utf8(k3));
    lemma_bytes_lt_irreflexive(b1);
    lemma_bytes_lt_total(b1, b2);
    if bytes_lt(b1, b2) && bytes_lt(b2, b3) {
        lemma_bytes_lt_transitive(b1, b2, b3);
    }
}

/// A case under investigation.
#[derive(Debug, PartialEq)]
pub struct Case {
    pub id: i32,
    pub code: String,
    pub title: String,
    pub description: Option<String>,
    pub created_at: i64,
    pub updated_at: i64,
}

impl Record for Case {
    open spec fn spec_id(&self) -> i32 {
        self.id
    }

    open spec fn spec_created_at(&self) -> i64 {
        self.created_at
    }

    open spec fn spec_parent(&self) -> Option<i32> {
        None
    }

    fn id(&self) -> (r: i32) {
        self.id
    }

    fn created_at(&self) -> (r: i64) {
        self.created_at
    }

    fn parent(&self) -> (r: Option<i32>) {
        None
    }

    fn duplicate(&self) -> (r: Self) {
        Case {
            id: self.id,
            code: self.code.clone(),
            title: self.title.clone(),
            description: copy_text(&self.description),
            created_at: self.created_at,
            updated_at: self.updated_at,
        }
    }
}

/// A registered audio recording of a case; `duration` is in milliseconds.
#[derive(Debug, PartialEq)]
pub struct AudioFile {
    pub id: i32,
    pub case_id: i32,
    pub file_name: String,
    pub file_path: String,
    pub duration: i64,
    pub status: String,
    pub created_at: i64,
}

impl Record for AudioFile {
    open spec fn spec_id(&self) -> i32 {
        self.id
    }

    open spec fn spec_created_at(&self) -> i64 {
        self.created_at
    }

    open spec fn spec_parent(&self) -> Option<i32> {
        Some(self.case_id)
    }

    fn id(&self) -> (r: i32) {
        self.id
    }

    fn created_at(&self) -> (r: i64) {
        self.created_at
    }

    fn parent(&self) -> (r: Option<i32>) {
        Some(self.case_id)
    }

    fn duplicate(&self) -> (r: Self) {
        AudioFile {
            id: self.id,
            case_id: self.case_id,
            file_name: self.file_name.clone(),
            file_path: self.file_path.clone(),
            duration: self.duration,
            status: self.status.clone(),
            created_at: self.created_at,
        }
    }
}

/// A speaker profile.
#[derive(Debug, PartialEq)]
pub struct Speaker {
    pub id: i32,
    pub name: String,
    pub alias: Option<String>,
    pub gender: Option<String>,
    pub age_estimate: Option<String>,
    pub notes: Option<String>,
    pub created_at: i64,
}

impl Record for Speaker {
    open spec fn spec_id(&self) -> i32 {
        self.id
    }

    open spec fn spec_created_at(&self) -> i64 {
        self.created_at
    }

    open spec fn spec_parent(&self) -> Option<i32> {
        None
    }

    fn id(&self) -> (r: i32) {
        self.id
    }

    fn created_at(&self) -> (r: i64) {
        self.created_at
    }

    fn parent(&self) -> (r: Option<i32>) {
        None
    }

    fn duplicate(&self) -> (r: Self) {
        Speaker {
            id: self.id,
            name: self.name.clone(),
            alias: copy_text(&self.alias),
            gender: copy_text(&self.gender),
            age_estimate: copy_text(&self.age_estimate),
            notes: copy_text(&self.notes),
            created_at: self.created_at,
        }
    }
}

/// A voice sample of a speaker; `duration` is in milliseconds.
#[derive(Debug, PartialEq)]
pub struct VoiceSample {
    pub id: i32,
    pub speaker_id: i32,
    pub file_name: String,
    pub file_path: String,
    pub duration: i64,
    pub created_at: i64,
}

impl Record for VoiceSample {
    open spec fn spec_id(&self) -> i32 {
        self.id
    }

    open spec fn spec_created_at(&self) -> i64 {
        self.created_at
    }

    open spec fn spec_parent(&self) -> Option<i32> {
        Some(self.speaker_id)
    }

    fn id(&self) -> (r: i32) {
        self.id
    }

    fn created_at(&self) -> (r: i64) {
        self.created_at
    }

    fn parent(&self) -> (r: Option<i32>) {
        Some(self.speaker_id)
    }

    fn duplicate(&self) -> (r: Self) {
        VoiceSample {
            id: self.id,
            speaker_id: self.speaker_id,
            file_name: self.file_name.clone(),
            file_path: self.file_path.clone(),
            duration: self.duration,
            created_at: self.created_at,
        }
    }
}

/// A stretch of transcript of an audio file; times are in milliseconds from its start.
#[derive(Debug, PartialEq)]
pub struct TranscriptSegment {
    pub id: i32,
    pub audio_file_id: i32,
    pub speaker_id: Option<i32>,
    pub start_time: i64,
    pub end_time: i64,
    pub text: String,
    pub is_deleted: bool,
    pub created_at: i64,
}

impl Record for TranscriptSegment {
    open spec fn spec_id(&self) -> i32 {
        self.id
    }

    open spec fn spec_created_at(&self) -> i64 {
        self.created_at
    }

    open spec fn spec_parent(&self) -> Option<i32> {
        Some(self.audio_file_id)
    }

    fn id(&self) -> (r: i32) {
        self.id
    }

    fn created_at(&self) -> (r: i64) {
        self.created_at
    }

    fn parent(&self) -> (r: Option<i32>) {
        Some(self.audio_file_id)
    }

    fn duplicate(&self) -> (r: Self) {
        TranscriptSegment {
            id: self.id,
            audio_file_id: self.audio_file_id,
            speaker_id: self.speaker_id,
            start_time: self.start_time,
            end_time: self.end_time,
            text: self.text.clone(),
            is_deleted: self.is_deleted,
            created_at: self.created_at,
        }
    }
}

/// A keyword that raises an alert when it is heard.
#[derive(Debug, PartialEq)]
pub struct AlertWord {
    pub id: i32,
    pub keyword: String,
    pub category: String,
    pub description: Option<String>,
    pub created_at: i64,
}

impl Record for AlertWord {
    open spec fn spec_id(&self) -> i32 {
        self.id
    }

    open spec fn spec_created_at(&self) -> i64 {
        self.created_at
    }

    open spec fn spec_parent(&self) -> Option<i32> {
        None
    }

    fn id(&self) -> (r: i32) {
        self.id
    }

    fn created_at(&self) -> (r: i64) {
        self.created_at
    }

    fn parent(&self) -> (r: Option<i32>) {
        None
    }

    fn duplicate(&self) -> (r: Self) {
        AlertWord {
            id: self.id,
            keyword: self.keyword.clone(),
            category: self.category.clone(),
            description: copy_text(&self.description),
            created_at: self.created_at,
        }
    }
}

/// A correction applied to transcribed text.
#[derive(Debug, PartialEq)]
pub struct ReplacementWord {
    pub id: i32,
    pub original: String,
    pub correct: String,
    pub category: String,
    pub created_at: i64,
}

impl Record for ReplacementWord {
    open spec fn spec_id(&self) -> i32 {
        self.id
    }

    open spec fn spec_created_at(&self) -> i64 {
        self.created_at
    }

    open spec fn spec_parent(&self) -> Option<i32> {
        None
    }

    fn id(&self) -> (r: i32) {
        self.id
    }

    fn created_at(&self) -> (r: i64) {
        self.created_at
    }

    fn parent(&self) -> (r: Option<i32>) {
        None
    }

    fn duplicate(&self) -> (r: Self) {
        ReplacementWord {
            id: self.id,
            original: self.original.clone(),
            correct: self.correct.clone(),
            category: self.category.clone(),
            created_at: self.created_at,
        }
    }
}

/// A notification shown to users; it may point at any entity.
#[derive(Debug, PartialEq)]
pub struct Notification {
    pub id: i32,
    pub notification_type: String,
    pub action: String,
    pub title: String,
    pub message: Option<String>,
    pub entity_type: Option<String>,
    pub entity_id: Option<i32>,
    pub is_read: bool,
    pub is_important: bool,
    pub created_at: i64,
}

impl Record for Notification {
    open spec fn spec_id(&self) -> i32 {
        self.id
    }

    open spec fn spec_created_at(&self) -> i64 {
        self.created_at
    }

    open spec fn spec_parent(&self) -> Option<i32> {
        None
    }

    fn id(&self) -> (r: i32) {
        self.id
    }

    fn created_at(&self) -> (r: i64) {
        self.created_at
    }

    fn parent(&self) -> (r: Option<i32>) {
        None
    }

    fn duplicate(&self) -> (r: Self) {
        Notification {
            id: self.id,
            notification_type: self.notification_type.clone(),
            action: self.action.clone(),
            title: self.title.clone(),
            message: copy_text(&self.message),
            entity_type: copy_text(&self.entity_type),
            entity_id: self.entity_id,
            is_read: self.is_read,
            is_important: self.is_important,
            created_at: self.created_at,
        }
    }
}

/// An entry of the audit log.
#[derive(Debug, PartialEq)]
pub struct ActivityLog {
    pub id: i32,
    pub user_id: Option<i32>,
    pub action: String,
    pub target_type: String,
    pub target_id: Option<i32>,
    pub details: Option<String>,
    pub created_at: i64,
}

impl Record for ActivityLog {
    open spec fn spec_id(&self) -> i32 {
        self.id
    }

    open spec fn spec_created_at(&self) -> i64 {
        self.created_at
    }

    open spec fn spec_parent(&self) -> Option<i32> {
        None
    }

    fn id(&self) -> (r: i32) {
        self.id
    }

    fn created_at(&self) -> (r: i64) {
        self.created_at
    }

    fn parent(&self) -> (r: Option<i32>) {
        None
    }

    fn duplicate(&self) -> (r: Self) {
        ActivityLog {
            id: self.id,
            user_id: self.user_id,
            action: self.action.clone(),
            target_type: self.target_type.clone(),
            target_id: self.target_id,
            details: copy_text(&self.details),
            created_at: self.created_at,
        }
    }
}

/// A user account; `password_hash` never leaves the library through a public view.
#[derive(Debug, PartialEq)]
pub struct User {
    pub id: i32,
    pub name: String,
    pub email: String,
    pub role: String,
    pub avatar: Option<String>,
    pub username: String,
    pub password_hash: String,
    pub is_active: bool,
    pub created_at: i64,
}

impl Record for User {
    open spec fn spec_id(&self) -> i32 {
        self.id
    }

    open spec fn spec_created_at(&self) -> i64 {
        self.created_at
    }

    open spec fn spec_parent(&self) -> Option<i32> {
        None
    }

    fn id(&self) -> (r: i32) {
        self.id
    }

    fn created_at(&self) -> (r: i64) {
        self.created_at
    }

    fn parent(&self) -> (r: Option<i32>) {
        None
    }

    fn duplicate(&self) -> (r: Self) {
        User {
            id: self.id,
            name: self.name.clone(),
            email: self.email.clone(),
            role: self.role.clone(),
            avatar: copy_text(&self.avatar),
            username: self.username.clone(),
            password_hash: self.password_hash.clone(),
            is_active: self.is_active,
            created_at: self.created_at,
        }
    }
}

/// Speakers are listed by name, ties broken by identifier.
impl ListOrder for Speaker {
    open spec fn spec_before(&self, other: &Self) -> bool {
        key_before(self.name@, self.id, other.name@, other.id)
    }

    fn before(&self, other: &Self) -> (r: bool) {
        let lt = text_less(&self.name, &other.name);
        let gt = text_less(&other.name, &self.name);
        proof {
            lemma_bytes_lt_total(encode_utf8(self.name@), encode_utf8(other.name@));
            lemma_bytes_lt_irreflexive(encode_utf8(self.name@));
        }
        lt || (!gt && self.id < other.id)
    }

    proof fn lemma_order(a: &Self, b: &Self, c: &Self) {
        lemma_key_order(a.name@, a.id, b.name@, b.id, c.name@, c.id);
    }
}

/// Users are listed by name, ties broken by identifier.
impl ListOrder for User {
    open spec fn spec_before(&self, other: &Self) -> bool {
        key_before(self.name@, self.id, other.name@, other.id)
    }

    fn before(&self, other: &Self) -> (r: bool) {
        let lt = text_less(&self.name, &other.name);
        let gt = text_less(&other.name, &self.name);
        proof {
            lemma_bytes_lt_total(encode_utf8(self.name@), encode_utf8(other.name@));
            lemma_bytes_lt_irreflexive(encode_utf8(self.name@));
        }
        lt || (!gt && self.id < other.id)
    }

    proof fn lemma_order(a: &Self, b: &Self, c: &Self) {
        lemma_key_order(a.name@, a.id, b.name@, b.id, c.name@, c.id);
    }
}

/// Alert words are listed by keyword, ties broken by identifier.
impl ListOrder for AlertWord {
    open spec fn spec_before(&self, other: &Self) -> bool {
        key_before(self.keyword@, self.id, other.keyword@, other.id)
    }

    fn before(&self, other: &Self) -> (r: bool) {
        let lt = text_less(&self.keyword, &other.keyword);
        let gt = text_less(&other.keyword, &self.keyword);
        proof {
            lemma_bytes_lt_total(encode_utf8(self.keyword@), encode_utf8(other.keyword@));
            lemma_bytes_lt_irreflexive(encode_utf8(self.keyword@));
        }
        lt || (!gt && self.id < other.id)
    }

    proof fn lemma_order(a: &Self, b: &Self, c: &Self) {
        lemma_key_order(a.keyword@, a.id, b.keyword@, b.id, c.keyword@, c.id);
    }
}

/// Replacement words are listed by the word they replace, ties broken by identifier.
impl ListOrder for ReplacementWord {
    open spec fn spec_before(&self, other: &Self) -> bool {
        key_before(self.original@, self.id, other.original@, other.id)
    }

    fn before(&self, other: &Self) -> (r: bool) {
        let lt = text_less(&self.original, &other.original);
        let gt = text_less(&other.original, &self.original);
        proof {
            lemma_bytes_lt_total(encode_utf8(self.original@), encode_utf8(other.original@));
            lemma_bytes_lt_irreflexive(encode_utf8(self.original@));
        }
        lt || (!gt && self.id < other.id)
    }

    proof fn lemma_order(a: &Self, b: &Self, c: &Self) {
        lemma_key_order(a.original@, a.id, b.original@, b.id, c.original@, c.id);
    }
}

/// Transcript segments are listed by start time, ties broken by identifier.
impl ListOrder for TranscriptSegment {
    open spec fn spec_before(&self, other: &Self) -> bool {
        self.start_time < other.start_time || (self.start_time == other.start_time && self.id
            < other.id)
    }

    fn before(&self, other: &Self) -> (r: bool) {
        self.start_time < other.start_time || (self.start_time == other.start_time && self.id
            < other.id)
    }

    proof fn lemma_order(a: &Self, b: &Self, c: &Self) {
    }
}

} // verus!
