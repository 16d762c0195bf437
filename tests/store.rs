use spexor::activity_logs::{
    cleanup_old_logs, create_activity_log, get_activity_logs, get_activity_logs_by_action,
    CreateActivityLogInput,
};
use spexor::audio::{
    delete_audio_file, get_audio_file, get_audio_files, update_audio_file, upload_audio,
    CreateAudioInput, UpdateAudioInput,
};
use spexor::bootstrap::init_db;
use spexor::cases::{
    create_case, delete_case, get_case, get_cases, update_case, CreateCaseInput, UpdateCaseInput,
};
use spexor::db::{Database, MIGRATION_COUNT};
use spexor::error::{DbError, Entity};
use spexor::notifications::{
    create_notification, delete_notification, get_notifications, get_unread_count,
    mark_all_notifications_read, update_notification, CreateNotificationInput,
    UpdateNotificationInput,
};
use spexor::speakers::{
    create_speaker, create_voice_sample, delete_speaker, delete_voice_sample, get_speaker,
    get_speakers, get_voice_samples, update_speaker, CreateSpeakerInput, CreateVoiceSampleInput,
    UpdateSpeakerInput,
};
use spexor::transcript::{
    bulk_create_segments, create_transcript_segment, delete_transcript_segment,
    get_transcript_segments, update_transcript_segment, CreateSegmentInput, UpdateSegmentInput,
};
use spexor::vocabulary::{
    create_alert_word, create_replacement_word, delete_alert_word, delete_replacement_word,
    get_alert_words, get_alert_words_by_category, get_replacement_words, CreateAlertWordInput,
    CreateReplacementWordInput,
};

fn fresh() -> Database {
    let mut db = Database::new(4);
    init_db(&mut db).unwrap();
    db
}

fn new_case(db: &mut Database, code: &str) -> i32 {
    create_case(
        db,
        CreateCaseInput { code: code.to_string(), title: format!("Case {}", code), description: None },
    )
    .unwrap()
    .id
}

fn new_audio(db: &mut Database, case_id: i32, name: &str) -> i32 {
    upload_audio(
        db,
        CreateAudioInput {
            case_id,
            file_name: name.to_string(),
            file_path: format!("/audio/{}", name),
            duration: None,
            status: None,
        },
    )
    .unwrap()
    .id
}

fn new_speaker(db: &mut Database, name: &str) -> i32 {
    create_speaker(
        db,
        CreateSpeakerInput { name: name.to_string(), alias: None, gender: None, age_estimate: None, notes: None },
    )
    .unwrap()
    .id
}

fn segment(start: i64, end: i64, text: &str) -> CreateSegmentInput {
    CreateSegmentInput { audio_file_id: 0, speaker_id: None, start_time: start, end_time: end, text: text.to_string() }
}

#[test]
fn test_db_init() {
    let mut db = Database::new(4);
    let result = init_db(&mut db);
    assert!(result.is_ok(), "Database initialization failed: {:?}", result.err());
}

#[test]
fn migrations_run_once() {
    let mut db = Database::new(4);
    assert_eq!(db.run_pending_migrations(), MIGRATION_COUNT);
    assert_eq!(db.schema_version, MIGRATION_COUNT);
    assert_eq!(db.run_pending_migrations(), 0);
    assert_eq!(db.schema_version, MIGRATION_COUNT);
}

#[test]
fn created_case_reads_back() {
    let mut db = fresh();
    let created = create_case(
        &mut db,
        CreateCaseInput { code: "C-1".to_string(), title: "Harbour".to_string(), description: Some("night shift".to_string()) },
    )
    .unwrap();
    assert_eq!(created.id, 1);
    assert_eq!(created.code, "C-1");
    assert_eq!(created.created_at, created.updated_at);
    assert_eq!(get_case(&db, created.id).unwrap(), created);
}

#[test]
fn identifiers_are_not_reused() {
    let mut db = fresh();
    let a = new_case(&mut db, "A");
    delete_case(&mut db, a);
    let b = new_case(&mut db, "B");
    assert_eq!(a, 1);
    assert_eq!(b, 2);
}

#[test]
fn update_case_changes_only_supplied_fields() {
    let mut db = fresh();
    let created = create_case(
        &mut db,
        CreateCaseInput { code: "C-7".to_string(), title: "Old".to_string(), description: Some("keep".to_string()) },
    )
    .unwrap();
    let updated = update_case(
        &mut db,
        created.id,
        UpdateCaseInput { code: None, title: Some("New".to_string()), description: None },
    )
    .unwrap();
    assert_eq!(updated.title, "New");
    assert_eq!(updated.code, "C-7");
    assert_eq!(updated.description, Some("keep".to_string()));
    assert_eq!(updated.created_at, created.created_at);
    assert!(updated.updated_at > created.updated_at);
    assert_eq!(get_case(&db, created.id).unwrap(), updated);
}

#[test]
fn update_missing_case_is_not_found() {
    let mut db = fresh();
    let r = update_case(&mut db, 42, UpdateCaseInput { code: None, title: None, description: None });
    assert_eq!(r, Err(DbError::NotFound(Entity::Case, 42)));
}

#[test]
fn deleted_case_is_not_found() {
    let mut db = fresh();
    let id = new_case(&mut db, "D");
    delete_case(&mut db, id);
    assert_eq!(get_case(&db, id), Err(DbError::NotFound(Entity::Case, id)));
}

#[test]
fn cases_list_newest_first() {
    let mut db = fresh();
    let a = new_case(&mut db, "A");
    let b = new_case(&mut db, "B");
    let c = new_case(&mut db, "C");
    let ids: Vec<i32> = get_cases(&db).iter().map(|c| c.id).collect();
    assert_eq!(ids, vec![c, b, a]);
}

#[test]
fn deleting_case_cascades_to_audio_and_segments() {
    let mut db = fresh();
    let keep = new_case(&mut db, "K");
    let gone = new_case(&mut db, "G");
    let kept_audio = new_audio(&mut db, keep, "k.wav");
    let gone_audio = new_audio(&mut db, gone, "g.wav");
    bulk_create_segments(&mut db, gone_audio, vec![segment(0, 10, "x")]).unwrap();
    bulk_create_segments(&mut db, kept_audio, vec![segment(0, 10, "y")]).unwrap();
    delete_case(&mut db, gone);
    assert!(get_audio_files(&db, gone).is_empty());
    assert_eq!(get_audio_file(&db, gone_audio), Err(DbError::NotFound(Entity::AudioFile, gone_audio)));
    assert!(get_transcript_segments(&db, gone_audio).is_empty());
    assert_eq!(get_audio_files(&db, keep).len(), 1);
    assert_eq!(get_transcript_segments(&db, kept_audio).len(), 1);
}

#[test]
fn audio_defaults_and_missing_case() {
    let mut db = fresh();
    let case_id = new_case(&mut db, "A");
    let audio = upload_audio(
        &mut db,
        CreateAudioInput { case_id, file_name: "a.wav".to_string(), file_path: "/a.wav".to_string(), duration: None, status: None },
    )
    .unwrap();
    assert_eq!(audio.duration, 0);
    assert_eq!(audio.status, "pending");
    let missing = upload_audio(
        &mut db,
        CreateAudioInput { case_id: 99, file_name: "b.wav".to_string(), file_path: "/b.wav".to_string(), duration: Some(5), status: None },
    );
    assert_eq!(missing, Err(DbError::MissingReference(Entity::Case, 99)));
}

#[test]
fn audio_files_oldest_first_and_update() {
    let mut db = fresh();
    let case_id = new_case(&mut db, "A");
    let first = new_audio(&mut db, case_id, "1.wav");
    let second = new_audio(&mut db, case_id, "2.wav");
    let ids: Vec<i32> = get_audio_files(&db, case_id).iter().map(|a| a.id).collect();
    assert_eq!(ids, vec![first, second]);
    let updated = update_audio_file(
        &mut db,
        second,
        UpdateAudioInput { file_name: None, duration: Some(61_500), status: Some("transcribed".to_string()) },
    )
    .unwrap();
    assert_eq!(updated.duration, 61_500);
    assert_eq!(updated.status, "transcribed");
    assert_eq!(updated.file_name, "2.wav");
    delete_audio_file(&mut db, first);
    assert_eq!(get_audio_files(&db, case_id).len(), 1);
}

#[test]
fn speakers_listed_by_name() {
    let mut db = fresh();
    new_speaker(&mut db, "Maria");
    new_speaker(&mut db, "Anton");
    new_speaker(&mut db, "Zoe");
    new_speaker(&mut db, "Anton");
    let names: Vec<String> = get_speakers(&db).iter().map(|s| s.name.clone()).collect();
    assert_eq!(names, vec!["Anton", "Anton", "Maria", "Zoe"]);
    let ids: Vec<i32> = get_speakers(&db).iter().map(|s| s.id).collect();
    assert_eq!(ids, vec![2, 4, 1, 3]);
}

#[test]
fn update_speaker_keeps_unsupplied_fields() {
    let mut db = fresh();
    let created = create_speaker(
        &mut db,
        CreateSpeakerInput {
            name: "Ivan".to_string(),
            alias: Some("Fox".to_string()),
            gender: Some("m".to_string()),
            age_estimate: None,
            notes: None,
        },
    )
    .unwrap();
    let updated = update_speaker(
        &mut db,
        created.id,
        UpdateSpeakerInput { name: None, alias: None, gender: None, age_estimate: Some("40".to_string()), notes: Some("calm".to_string()) },
    )
    .unwrap();
    assert_eq!(updated.alias, Some("Fox".to_string()));
    assert_eq!(updated.gender, Some("m".to_string()));
    assert_eq!(updated.age_estimate, Some("40".to_string()));
    assert_eq!(updated.notes, Some("calm".to_string()));
    assert_eq!(get_speaker(&db, created.id).unwrap(), updated);
}

#[test]
fn deleting_speaker_cascades_to_samples_and_detaches_segments() {
    let mut db = fresh();
    let speaker = new_speaker(&mut db, "S");
    let other = new_speaker(&mut db, "T");
    for name in ["a.wav", "b.wav"] {
        create_voice_sample(
            &mut db,
            CreateVoiceSampleInput { speaker_id: speaker, file_name: name.to_string(), file_path: name.to_string(), duration: 1000 },
        )
        .unwrap();
    }
    create_voice_sample(
        &mut db,
        CreateVoiceSampleInput { speaker_id: other, file_name: "c.wav".to_string(), file_path: "c.wav".to_string(), duration: 1000 },
    )
    .unwrap();
    let case_id = new_case(&mut db, "A");
    let audio = new_audio(&mut db, case_id, "a.wav");
    let mut s = segment(0, 5, "hello");
    s.speaker_id = Some(speaker);
    bulk_create_segments(&mut db, audio, vec![s]).unwrap();
    delete_speaker(&mut db, speaker);
    assert!(get_voice_samples(&db, speaker).is_empty());
    assert_eq!(get_voice_samples(&db, other).len(), 1);
    let segs = get_transcript_segments(&db, audio);
    assert_eq!(segs.len(), 1);
    assert_eq!(segs[0].speaker_id, None);
    assert_eq!(segs[0].text, "hello");
}

#[test]
fn voice_samples_newest_first_and_delete() {
    let mut db = fresh();
    let speaker = new_speaker(&mut db, "S");
    let mut ids = Vec::new();
    for name in ["a.wav", "b.wav", "c.wav"] {
        ids.push(
            create_voice_sample(
                &mut db,
                CreateVoiceSampleInput { speaker_id: speaker, file_name: name.to_string(), file_path: name.to_string(), duration: 2500 },
            )
            .unwrap()
            .id,
        );
    }
    let listed: Vec<i32> = get_voice_samples(&db, speaker).iter().map(|v| v.id).collect();
    assert_eq!(listed, vec![ids[2], ids[1], ids[0]]);
    delete_voice_sample(&mut db, ids[1]);
    let listed: Vec<i32> = get_voice_samples(&db, speaker).iter().map(|v| v.id).collect();
    assert_eq!(listed, vec![ids[2], ids[0]]);
    let missing = create_voice_sample(
        &mut db,
        CreateVoiceSampleInput { speaker_id: 77, file_name: "x".to_string(), file_path: "x".to_string(), duration: 1 },
    );
    assert_eq!(missing, Err(DbError::MissingReference(Entity::Speaker, 77)));
}

#[test]
fn bulk_insert_lists_by_start_time() {
    let mut db = fresh();
    let case_id = new_case(&mut db, "A");
    let audio = new_audio(&mut db, case_id, "a.wav");
    let n = bulk_create_segments(
        &mut db,
        audio,
        vec![segment(2000, 3000, "s1"), segment(0, 1000, "s2"), segment(1000, 2000, "s3")],
    )
    .unwrap();
    assert_eq!(n, 3);
    let listed = get_transcript_segments(&db, audio);
    let texts: Vec<String> = listed.iter().map(|s| s.text.clone()).collect();
    assert_eq!(texts, vec!["s2", "s3", "s1"]);
    assert!(listed.iter().all(|s| s.audio_file_id == audio && !s.is_deleted));
}

#[test]
fn bulk_insert_refuses_unknown_speaker_whole() {
    let mut db = fresh();
    let case_id = new_case(&mut db, "A");
    let audio = new_audio(&mut db, case_id, "a.wav");
    let mut bad = segment(5, 6, "b");
    bad.speaker_id = Some(9);
    let r = bulk_create_segments(&mut db, audio, vec![segment(0, 1, "a"), bad]);
    assert_eq!(r, Err(DbError::MissingReference(Entity::Speaker, 9)));
    assert!(get_transcript_segments(&db, audio).is_empty());
    let r = bulk_create_segments(&mut db, 55, vec![segment(0, 1, "a")]);
    assert_eq!(r, Err(DbError::MissingReference(Entity::AudioFile, 55)));
}

#[test]
fn segment_soft_and_hard_delete() {
    let mut db = fresh();
    let case_id = new_case(&mut db, "A");
    let audio = new_audio(&mut db, case_id, "a.wav");
    let mut input = segment(0, 900, "words");
    input.audio_file_id = audio;
    let seg = create_transcript_segment(&mut db, input).unwrap();
    let soft = update_transcript_segment(
        &mut db,
        seg.id,
        UpdateSegmentInput { speaker_id: None, text: None, is_deleted: Some(true) },
    )
    .unwrap();
    assert!(soft.is_deleted);
    assert_eq!(soft.text, "words");
    assert_eq!(get_transcript_segments(&db, audio).len(), 1);
    let bad = update_transcript_segment(
        &mut db,
        seg.id,
        UpdateSegmentInput { speaker_id: Some(3), text: Some("other".to_string()), is_deleted: None },
    );
    assert_eq!(bad, Err(DbError::MissingReference(Entity::Speaker, 3)));
    assert_eq!(get_transcript_segments(&db, audio)[0].text, "words");
    delete_transcript_segment(&mut db, seg.id);
    assert!(get_transcript_segments(&db, audio).is_empty());
    let gone = update_transcript_segment(
        &mut db,
        seg.id,
        UpdateSegmentInput { speaker_id: None, text: None, is_deleted: None },
    );
    assert_eq!(gone, Err(DbError::NotFound(Entity::TranscriptSegment, seg.id)));
}

#[test]
fn alert_words_by_keyword_and_category() {
    let mut db = fresh();
    for (k, c) in [("weapon", "threat"), ("bank", "finance"), ("attack", "threat")] {
        create_alert_word(
            &mut db,
            CreateAlertWordInput { keyword: k.to_string(), category: c.to_string(), description: None },
        )
        .unwrap();
    }
    let all: Vec<String> = get_alert_words(&db).iter().map(|w| w.keyword.clone()).collect();
    assert_eq!(all, vec!["attack", "bank", "weapon"]);
    let threats: Vec<String> = get_alert_words_by_category(&db, "threat".to_string())
        .iter()
        .map(|w| w.keyword.clone())
        .collect();
    assert_eq!(threats, vec!["attack", "weapon"]);
    delete_alert_word(&mut db, 1);
    assert_eq!(get_alert_words(&db).len(), 2);
}

#[test]
fn text_order_is_bytewise() {
    let mut db = fresh();
    for k in ["b", "B", "ab", "a", "\u{e9}"] {
        create_alert_word(
            &mut db,
            CreateAlertWordInput { keyword: k.to_string(), category: "c".to_string(), description: None },
        )
        .unwrap();
    }
    let all: Vec<String> = get_alert_words(&db).iter().map(|w| w.keyword.clone()).collect();
    assert_eq!(all, vec!["B", "a", "ab", "b", "\u{e9}"]);
}

#[test]
fn replacement_words_by_original() {
    let mut db = fresh();
    for (o, c) in [("teh", "the"), ("adn", "and")] {
        create_replacement_word(
            &mut db,
            CreateReplacementWordInput { original: o.to_string(), correct: c.to_string(), category: "typo".to_string() },
        )
        .unwrap();
    }
    let originals: Vec<String> = get_replacement_words(&db).iter().map(|w| w.original.clone()).collect();
    assert_eq!(originals, vec!["adn", "teh"]);
    delete_replacement_word(&mut db, 2);
    assert_eq!(get_replacement_words(&db)[0].original, "teh");
}

fn notify(db: &mut Database, title: &str) -> i32 {
    create_notification(
        db,
        CreateNotificationInput {
            notification_type: "info".to_string(),
            action: "created".to_string(),
            title: title.to_string(),
            message: None,
            entity_type: Some("case".to_string()),
            entity_id: Some(1),
        },
    )
    .unwrap()
    .id
}

#[test]
fn mark_all_read_counts_and_clears() {
    let mut db = fresh();
    let a = notify(&mut db, "a");
    notify(&mut db, "b");
    notify(&mut db, "c");
    update_notification(&mut db, a, UpdateNotificationInput { is_read: Some(true), is_important: None }).unwrap();
    assert_eq!(get_unread_count(&db), 2);
    assert_eq!(mark_all_notifications_read(&mut db), 2);
    assert_eq!(get_unread_count(&db), 0);
    assert_eq!(mark_all_notifications_read(&mut db), 0);
}

#[test]
fn notifications_newest_first_and_flags() {
    let mut db = fresh();
    let a = notify(&mut db, "a");
    let b = notify(&mut db, "b");
    let listed: Vec<i32> = get_notifications(&db).iter().map(|n| n.id).collect();
    assert_eq!(listed, vec![b, a]);
    let n = update_notification(&mut db, b, UpdateNotificationInput { is_read: None, is_important: Some(true) }).unwrap();
    assert!(n.is_important);
    assert!(!n.is_read);
    delete_notification(&mut db, a);
    assert_eq!(get_notifications(&db).len(), 1);
    let missing = update_notification(&mut db, a, UpdateNotificationInput { is_read: Some(true), is_important: None });
    assert_eq!(missing, Err(DbError::NotFound(Entity::Notification, a)));
}

fn log(db: &mut Database, action: &str) {
    create_activity_log(
        db,
        CreateActivityLogInput {
            user_id: Some(1),
            action: action.to_string(),
            target_type: "case".to_string(),
            target_id: None,
            details: None,
        },
    )
    .unwrap();
}

#[test]
fn cleanup_zero_days_removes_all() {
    let mut db = fresh();
    log(&mut db, "login");
    log(&mut db, "logout");
    assert_eq!(cleanup_old_logs(&mut db, 0), 2);
    assert!(get_activity_logs(&db).is_empty());
}

#[test]
fn cleanup_hundred_years_removes_none() {
    let mut db = fresh();
    log(&mut db, "login");
    log(&mut db, "logout");
    assert_eq!(cleanup_old_logs(&mut db, 36500), 0);
    assert_eq!(get_activity_logs(&db).len(), 2);
}

#[test]
fn activity_log_lists_are_capped() {
    let mut db = fresh();
    for i in 0..120 {
        log(&mut db, if i % 2 == 0 { "view" } else { "edit" });
    }
    let all = get_activity_logs(&db);
    assert_eq!(all.len(), 100);
    assert_eq!(all[0].id, 120);
    let views = get_activity_logs_by_action(&db, "view".to_string());
    assert_eq!(views.len(), 50);
    assert!(views.iter().all(|l| l.action == "view"));
    assert_eq!(views[0].id, 119);
    let missing = create_activity_log(
        &mut db,
        CreateActivityLogInput { user_id: Some(50), action: "x".to_string(), target_type: "y".to_string(), target_id: None, details: None },
    );
    assert_eq!(missing, Err(DbError::MissingReference(Entity::User, 50)));
}

#[test]
fn timestamps_strictly_increase() {
    let mut db = fresh();
    let a = create_case(&mut db, CreateCaseInput { code: "a".to_string(), title: "a".to_string(), description: None }).unwrap();
    let b = create_case(&mut db, CreateCaseInput { code: "b".to_string(), title: "b".to_string(), description: None }).unwrap();
    assert!(b.created_at > a.created_at);
    assert!(a.created_at > 1_500_000_000_000_000);
}

#[test]
fn consistency_check_finds_broken_rows() {
    let mut db = fresh();
    let case_id = new_case(&mut db, "A");
    let audio = new_audio(&mut db, case_id, "a.wav");
    bulk_create_segments(&mut db, audio, vec![segment(0, 1, "a"), segment(1, 2, "b")]).unwrap();
    assert!(db.check_tables());

    db.audio_files.rows[0].case_id = 99;
    assert!(!db.check_tables());
    db.audio_files.rows[0].case_id = case_id;
    assert!(db.check_tables());

    db.segments.rows[1].id = db.segments.rows[0].id;
    assert!(!db.check_tables());
    db.segments.rows[1].id = db.segments.rows[0].id + 1;
    assert!(db.check_tables());

    db.segments.rows[0].speaker_id = Some(5);
    assert!(!db.check_tables());
    db.segments.rows[0].speaker_id = None;

    db.cases.rows[0].updated_at = db.clock + 1;
    assert!(!db.check_tables());
    db.cases.rows[0].updated_at = db.cases.rows[0].created_at;
    assert!(db.check_tables());

    db.cases.last_id = 0;
    assert!(!db.check_tables());
}

#[test]
fn deleting_missing_rows_changes_nothing() {
    let mut db = fresh();
    let case_id = new_case(&mut db, "A");
    new_audio(&mut db, case_id, "a.wav");
    let clock = db.clock;
    delete_case(&mut db, 77);
    delete_audio_file(&mut db, 77);
    delete_speaker(&mut db, 77);
    delete_notification(&mut db, 77);
    assert_eq!(db.clock, clock);
    assert_eq!(db.cases.last_id, 1);
    assert_eq!(get_audio_files(&db, case_id).len(), 1);
    assert_eq!(new_case(&mut db, "B"), 2);
}
