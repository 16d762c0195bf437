use vstd::prelude::*;

verus! {

/// The kinds of rows the store holds.
#[derive(Debug, Clone, Copy, PartialEq, Eq, Structural)]
pub enum Entity {
    Case,
    AudioFile,
    Speaker,
    VoiceSample,
    TranscriptSegment,
    AlertWord,
    ReplacementWord,
    Notification,
    ActivityLog,
    User,
}

/// A failure of a store operation.
#[derive(Debug, Clone, Copy, PartialEq, Eq, Structural)]
pub enum DbError {
    /// No row of this kind carries this identifier.
    NotFound(Entity, i32),
    /// A row refers to a row of the given kind and identifier that does not exist.
    MissingReference(Entity, i32),
    /// Another user already has this username.
    DuplicateUsername,
    /// The identifier space of the table is used up.
    StorageFull,
    /// Every connection of the pool is in use.
    PoolExhausted,
}

} // verus!
