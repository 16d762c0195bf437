//! Properties that relate several operations of the store, stated over the
//! same models that the operations' contracts use.
use vstd::prelude::*;
use crate::activity_logs::{not_before, purge_cutoff};
use crate::auth::{has_username, login_outcome, public_view, user_named, AuthError, UserResponse};
use crate::bootstrap::{
    is_seeded_admin, ADMIN_EMAIL, ADMIN_NAME, ADMIN_PASSWORD, ADMIN_ROLE, ADMIN_USERNAME,
};
use crate::db::usernames_unique;
use crate::models::User;
use crate::password::password_verifies;
use crate::cases::updated_case;
use crate::cases::UpdateCaseInput;
use crate::db::{case_stamps_ok, clock_advanced};
use crate::models::{ActivityLog, AudioFile, Case, Notification, TranscriptSegment, VoiceSample};
use crate::notifications::{is_unread, marked_read, unread_count};
use crate::table::{
    children_of, find_row, has_id, id_differs, ids_increasing, lemma_filter_all, lemma_find_at,
    parent_differs,
    parent_is, replace_row, rows_wf, without_children, without_id, Record,
};
use crate::transcript::{batch_rows, CreateSegmentInput};

verus! {

/// A filter that no element passes is empty.
proof fn lemma_filter_none<A>(s: Seq<A>, pred: spec_fn(A) -> bool)
    requires
        forall|i: int| 0 <= i < s.len() ==> !pred(#[trigger] s[i]),
    ensures
        s.filter(pred).len() == 0,
    decreases s.len(),
{
    reveal(Seq::filter);
    if s.len() > 0 {
        lemma_filter_none(s.drop_last(), pred);
    }
}

/// A row just created is what a read of its identifier returns: appending a
/// row that takes the next identifier to well-formed rows makes it the row
/// found for that identifier.
pub proof fn law_created_row_is_found<R: Record>(rows: Seq<R>, last_id: i32, clock: i64, row: R)
    requires
        rows_wf(rows, last_id, clock),
        last_id < i32::MAX,
        row.spec_id() == last_id + 1,
    ensures
        find_row(rows.push(row), row.spec_id()) == Some(row),
{
    let s = rows.push(row);
    assert(ids_increasing(s)) by {
        assert forall|i: int, j: int| 0 <= i < j < s.len() implies #[trigger] s[i].spec_id()
            < #[trigger] s[j].spec_id() by {
            if j == rows.len() {
                assert(s[i] == rows[i]);
            }
        }
    }
    lemma_find_at(s, rows.len() as int);
}

/// An update replaces only the row it names: every other row is unchanged.
pub proof fn law_update_touches_one_row<R: Record>(rows: Seq<R>, row: R, i: int)
    requires
        0 <= i < rows.len(),
        rows[i].spec_id() != row.spec_id(),
    ensures
        replace_row(rows, row)[i] == rows[i],
{
}

/// Updating a case moves its `updated_at` strictly forward: the stamp taken by
/// the update is later than every stamp the store had handed out.
pub proof fn law_case_update_refreshes_stamp(
    cases: Seq<Case>,
    clock: i64,
    id: i32,
    input: UpdateCaseInput,
    new_clock: i64,
)
    requires
        case_stamps_ok(cases, clock),
        clock < i64::MAX,
        clock_advanced(clock, new_clock),
        find_row(cases, id) is Some,
    ensures
        updated_case(find_row(cases, id)->Some_0, input, new_clock).updated_at > find_row(
            cases,
            id,
        )->Some_0.updated_at,
{
    let k = choose|i: int| 0 <= i < cases.len() && #[trigger] cases[i].spec_id() == id;
    assert(cases[k].created_at <= cases[k].updated_at <= clock);
}

/// After a delete, reading the deleted identifier finds nothing.
pub proof fn law_deleted_row_is_gone<R: Record>(rows: Seq<R>, id: i32)
    ensures
        find_row(without_id(rows, id), id) is None,
{
    let s = without_id(rows, id);
    if has_id(s, id) {
        let i = choose|i: int| 0 <= i < s.len() && #[trigger] s[i].spec_id() == id;
        rows.lemma_filter_pred(id_differs(id), i);
    }
}

/// Deleting a case leaves no audio file of that case.
pub proof fn law_case_delete_cascades(audio: Seq<AudioFile>, case_id: i32)
    ensures
        children_of(without_children(audio, case_id), case_id).len() == 0,
{
    let s = without_children(audio, case_id);
    assert forall|i: int| 0 <= i < s.len() implies !parent_is::<AudioFile>(case_id)(#[trigger] s[i]) by {
        audio.lemma_filter_pred(parent_differs(case_id), i);
    }
    lemma_filter_none(s, parent_is(case_id));
}

/// Deleting a speaker leaves no voice sample of that speaker.
pub proof fn law_speaker_delete_cascades(samples: Seq<VoiceSample>, speaker_id: i32)
    ensures
        children_of(without_children(samples, speaker_id), speaker_id).len() == 0,
{
    let s = without_children(samples, speaker_id);
    assert forall|i: int| 0 <= i < s.len() implies !parent_is::<VoiceSample>(speaker_id)(#[trigger] s[i]) by {
        samples.lemma_filter_pred(parent_differs(speaker_id), i);
    }
    lemma_filter_none(s, parent_is(speaker_id));
}

/// Once every notification is marked read, none is unread.
pub proof fn law_mark_all_read_leaves_none_unread(rows: Seq<Notification>)
    ensures
        unread_count(rows.map_values(|n: Notification| marked_read(n))) == 0,
{
    let s = rows.map_values(|n: Notification| marked_read(n));
    lemma_filter_none(s, is_unread());
}

/// A purge of entries older than zero days, with a stamp later than every
/// entry, removes every entry.
pub proof fn law_cleanup_zero_days_removes_all(
    logs: Seq<ActivityLog>,
    last_id: i32,
    clock: i64,
    new_clock: i64,
)
    requires
        rows_wf(logs, last_id, clock),
        clock < i64::MAX,
        clock_advanced(clock, new_clock),
    ensures
        logs.filter(not_before(purge_cutoff(new_clock, 0))).len() == 0,
{
    assert forall|i: int| 0 <= i < logs.len() implies !not_before(purge_cutoff(new_clock, 0))(
        #[trigger] logs[i],
    ) by {
        assert(logs[i].spec_created_at() <= clock);
    }
    lemma_filter_none(logs, not_before(purge_cutoff(new_clock, 0)));
}

/// A purge keeps every entry younger than its cutoff.
pub proof fn law_cleanup_keeps_recent(logs: Seq<ActivityLog>, now: i64, days: i32)
    requires
        forall|i: int| 0 <= i < logs.len() ==> #[trigger] logs[i].created_at >= purge_cutoff(now, days),
    ensures
        logs.filter(not_before(purge_cutoff(now, days))) == logs,
{
    lemma_filter_all(logs, not_before(purge_cutoff(now, days)));
}

/// The segments of an audio file that had none are, after a batch insert,
/// exactly the inserted ones.
pub proof fn law_batch_is_listed(
    before: Seq<TranscriptSegment>,
    inputs: Seq<CreateSegmentInput>,
    audio_file_id: i32,
    first_id: int,
    stamp: i64,
)
    requires
        children_of(before, audio_file_id).len() == 0,
    ensures
        children_of(before + batch_rows(inputs, audio_file_id, first_id, stamp), audio_file_id)
            == batch_rows(inputs, audio_file_id, first_id, stamp),
{
    let added = batch_rows(inputs, audio_file_id, first_id, stamp);
    Seq::filter_distributes_over_add(before, added, parent_is(audio_file_id));
    lemma_filter_all(added, parent_is(audio_file_id));
    assert(children_of(before, audio_file_id) =~= Seq::<TranscriptSegment>::empty());
    assert(Seq::<TranscriptSegment>::empty() + added =~= added);
}

/// Once the administrator account is seeded, logging in with its username and
/// initial password succeeds with the account's public view, and logging in
/// with a password its hash does not accept is refused as invalid credentials.
pub proof fn law_seeded_admin_can_log_in(users: Seq<User>, u: User, wrong: Seq<char>)
    requires
        user_named(users, ADMIN_USERNAME@) == Some(u),
        is_seeded_admin(u),
        !password_verifies(wrong, u.password_hash@),
    ensures
        login_outcome(
            user_named(users, ADMIN_USERNAME@),
            password_verifies(ADMIN_PASSWORD@, u.password_hash@),
        ) == Ok::<UserResponse, AuthError>(public_view(u)),
        public_view(u).name@ == ADMIN_NAME@ && public_view(u).email@ == ADMIN_EMAIL@
            && public_view(u).role@ == ADMIN_ROLE@ && public_view(u).is_active,
        login_outcome(user_named(users, ADMIN_USERNAME@), password_verifies(wrong, u.password_hash@))
            == Err::<UserResponse, AuthError>(AuthError::InvalidCredentials),
{
}

/// After a password change, logging in with the account's username and the
/// new password succeeds: the row with the new hash is the one its username
/// finds.
pub proof fn law_changed_password_logs_in(users: Seq<User>, k: int, h: String, new_password: Seq<char>)
    requires
        usernames_unique(users),
        ids_increasing(users),
        0 <= k < users.len(),
        users[k].is_active,
        password_verifies(new_password, h@),
    ensures
        ({
            let changed = User { password_hash: h, ..users[k] };
            let after = replace_row(users, changed);
            login_outcome(
                user_named(after, users[k].username@),
                password_verifies(new_password, user_named(after, users[k].username@)->Some_0.password_hash@),
            ) == Ok::<UserResponse, AuthError>(public_view(changed))
        }),
{
    let changed = User { password_hash: h, ..users[k] };
    let after = replace_row(users, changed);
    let name = users[k].username@;
    assert(after[k] == changed);
    assert(after[k].username@ == name);
    assert(has_username(after, name));
    let j = choose|i: int| 0 <= i < after.len() && #[trigger] after[i].username@ == name;
    if j != k {
        assert(users[j].spec_id() != users[k].spec_id()) by {
            if j < k {
                assert(users[j].spec_id() < users[k].spec_id());
            } else {
                assert(users[k].spec_id() < users[j].spec_id());
            }
        }
        assert(after[j] == users[j]);
        assert(users[j].username@ != users[k].username@);
    }
}

} // verus!
