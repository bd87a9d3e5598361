use mentor::session::{Session, SessionId};
use mentor::storage::{
    categories_from_string, categories_to_string, needs_first_migration, session_from_row,
    session_to_row, topic_from_row, topic_to_row, SessionRow, StorageError, TopicRow,
    TopicStorageError, SCHEMA_VERSION,
};
use mentor::topic::{Topic, TopicCategories};

#[test]
fn categories_text_round_trip() {
    let categories = TopicCategories::new(vec!["rust".to_string(), "memory".to_string()]);
    let text = categories_to_string(&categories);
    assert_eq!(text, "rust,memory");
    let back = categories_from_string(&text);
    let names: Vec<&str> = back.0.iter().map(|c| c.name.as_str()).collect();
    assert_eq!(names, vec!["rust", "memory"]);
}

#[test]
fn categories_text_drops_empty_pieces() {
    let back = categories_from_string(",a,,b,");
    let names: Vec<&str> = back.0.iter().map(|c| c.name.as_str()).collect();
    assert_eq!(names, vec!["a", "b"]);
    assert!(categories_from_string("").0.is_empty());
    assert_eq!(categories_to_string(&TopicCategories(vec![])), "");
}

#[test]
fn topic_row_round_trip() {
    let topic = Topic::new("test", 1200)
        .update_categories(vec!["A".to_string()])
        .update_quality(5, 2000);
    let row = topic_to_row(&topic);
    assert_eq!(row.repetitions, 1);
    assert_eq!(row.interval_days, 6);
    assert_eq!(row.ease_factor, 260);
    assert_eq!(row.reviewed_at, 2000);
    assert_eq!(row.categories, "a");
    let back = topic_from_row(row).ok().unwrap();
    assert_eq!(back.name, "test");
    assert_eq!((back.repetitions, back.interval, back.ease_factor, back.reviewed_at), (1, 6, 260, 2000));
    assert_eq!(back.categories.0[0].name, "a");
}

#[test]
fn topic_row_casts_like_rust() {
    let row = TopicRow {
        name: "x".to_string(),
        repetitions: -1,
        interval_days: 1 << 32,
        ease_factor: 250,
        reviewed_at: 5,
        categories: String::new(),
    };
    let t = topic_from_row(row).ok().unwrap();
    assert_eq!(t.repetitions, u32::MAX);
    assert_eq!(t.interval, 0);
    assert_eq!(t.reviewed_at, 5);
}

fn topic_row_at(reviewed_at: i64) -> TopicRow {
    TopicRow {
        name: "x".to_string(),
        repetitions: 0,
        interval_days: 1,
        ease_factor: 250,
        reviewed_at,
        categories: String::new(),
    }
}

#[test]
fn topic_row_with_invalid_review_time_is_refused() {
    for at in [i64::MAX, i64::MIN] {
        match topic_from_row(topic_row_at(at)) {
            Err(e) => assert_eq!(e.message, "Expecting valid epoc for reviewed_at"),
            Ok(_) => panic!("expected an error for {at}"),
        }
    }
    assert!(topic_from_row(topic_row_at(0)).is_ok());
    let before_epoch = topic_from_row(topic_row_at(-86400)).ok().unwrap();
    assert_eq!(before_epoch.reviewed_at, -86400);
}

fn session_row_at(created_at: i64, modified_at: i64) -> SessionRow {
    SessionRow {
        id: "a1a2a3a4-b1b2-c1c2-d1d2-d3d4d5d6d7d8".to_string(),
        name: "n".to_string(),
        created_at,
        modified_at,
        content: None,
    }
}

#[test]
fn session_row_with_invalid_times_is_refused() {
    match session_from_row(session_row_at(i64::MAX, 1)) {
        Err(e) => assert_eq!(e.message, "Expecting valid epoc for created_at"),
        Ok(_) => panic!("expected an error"),
    }
    match session_from_row(session_row_at(1, i64::MIN)) {
        Err(e) => assert_eq!(e.message, "Expecting valid epoc for modified_at"),
        Ok(_) => panic!("expected an error"),
    }
    assert!(session_from_row(session_row_at(1, 2)).is_ok());
}

#[test]
fn session_row_round_trip() {
    let session = Session::new("session name", 1775764375)
        .update_content(&"content".to_string(), 1775764999);
    let row = session_to_row(&session);
    assert_eq!(row.id.len(), 36);
    assert_eq!(row.created_at, 1775764375);
    assert_eq!(row.modified_at, 1775764999);
    let back = session_from_row(row).ok().unwrap();
    assert_eq!(back.id, session.id);
    assert_eq!(back.name, "session name");
    assert_eq!(back.content, Some("content".to_string()));
}

#[test]
fn session_row_with_bad_id_is_a_uuid_error() {
    let row = SessionRow {
        id: "not a uuid".to_string(),
        name: "n".to_string(),
        created_at: 1,
        modified_at: 1,
        content: None,
    };
    match session_from_row(row) {
        Err(e) => assert_eq!(e.message, uuid::Uuid::parse_str("not a uuid").unwrap_err().to_string()),
        Ok(_) => panic!("expected an error"),
    }
}

#[test]
fn session_id_text_is_hyphenated_lowercase() {
    let id = SessionId(0xa1a2a3a4b1b2c1c2d1d2d3d4d5d6d7d8);
    assert_eq!(id.to_text(), "a1a2a3a4-b1b2-c1c2-d1d2-d3d4d5d6d7d8");
    assert_eq!(SessionId::parse("a1a2a3a4-b1b2-c1c2-d1d2-d3d4d5d6d7d8").ok(), Some(id));
    assert!(SessionId::parse("zz").is_err());
}

#[test]
fn new_session_ids_are_random_v4() {
    let a = SessionId::new();
    let b = SessionId::new();
    assert_ne!(a, b);
    assert_eq!((a.0 >> 76) & 0xF, 4);
    assert_eq!((a.0 >> 62) & 0x3, 2);
}

#[test]
fn storage_error_messages() {
    assert_eq!(StorageError::stdio().message, "Stdio error");
    assert_eq!(StorageError::sqlite().message, "Sqlite error");
    assert_eq!(StorageError::uuid().message, "uuid error");
    assert_eq!(TopicStorageError::stdio().message, "TopicStorageError stdio error");
    assert_eq!(TopicStorageError::sqlite().message, "TopicStorageError sqlite error");
}

#[test]
fn first_migration_runs_once() {
    assert!(needs_first_migration(0));
    assert!(!needs_first_migration(SCHEMA_VERSION));
    assert!(!needs_first_migration(7));
}
