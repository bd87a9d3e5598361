use mentor::migration::{session_notes_from_file, SessionWithAllHistoricalFields};

fn row(file_path: Option<&str>) -> SessionWithAllHistoricalFields {
    SessionWithAllHistoricalFields {
        id: "id".to_string(),
        name: "my session".to_string(),
        created_at: 1,
        file_name: None,
        file_path: file_path.map(|p| p.to_string()),
        modified_at: 1,
        content: None,
    }
}

#[test]
fn file_name_is_the_last_component_of_the_path() {
    assert_eq!(
        row(Some("/home/me/.mentor/my_session.md")).file_name_from_path(),
        Some("my_session.md".to_string())
    );
    assert_eq!(row(Some("notes.md")).file_name_from_path(), Some("notes.md".to_string()));
    assert_eq!(row(Some("/home/me/..")).file_name_from_path(), None);
    assert_eq!(row(None).file_name_from_path(), None);
}

#[test]
fn notes_from_file_or_notice() {
    assert_eq!(session_notes_from_file(Ok("text".to_string())), "text");
    assert_eq!(
        session_notes_from_file(Err("No such file or directory (os error 2)".to_string())),
        "No content found e: No such file or directory (os error 2)"
    );
}
