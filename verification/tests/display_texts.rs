use mentor::dashboard::{DashboardConfig, Model, ReviewTopicCommand};
use mentor::display::{
    decimal_text, ease_factor_text, moment_in_range, moment_string, session_notes_text,
    session_row, session_row_checked, time_string, topic_row, topic_row_checked,
};
use mentor::header::header_instructions;
use mentor::logger::{DashboardLogger, Log, Moment};
use mentor::panes::View;
use mentor::session::Session;
use mentor::topic::Topic;

const AT: i64 = 1741183389;

#[test]
fn decimal_texts() {
    assert_eq!(decimal_text(0), "0");
    assert_eq!(decimal_text(7), "7");
    assert_eq!(decimal_text(1234), "1234");
    assert_eq!(decimal_text(u64::MAX), u64::MAX.to_string());
}

#[test]
fn ease_factor_texts_match_float_printing() {
    for h in [130u32, 200, 205, 236, 250, 1000, 1234] {
        let printed = (h as f64 / 100.0).to_string();
        assert_eq!(ease_factor_text(h), printed, "hundredths {h}");
    }
    assert_eq!(ease_factor_text(250), "2.5");
    assert_eq!(ease_factor_text(236), "2.36");
    assert_eq!(ease_factor_text(200), "2");
}

#[test]
fn moments_in_patterns() {
    assert_eq!(time_string(0, "%b %e %T %Y"), "Jan  1 00:00:00 1970");
    assert_eq!(time_string(AT, "%b %e %T %Y"), "Mar  5 14:03:09 2025");
    assert_eq!(moment_string(AT as i64, "%d/%m/%Y %H:%M:%S"), "05/03/2025 14:03:09");
}

#[test]
fn moments_out_of_range_are_not_shown() {
    assert!(moment_in_range(0));
    assert!(moment_in_range(AT));
    assert!(!moment_in_range(i64::MAX));
    assert!(!moment_in_range(i64::MIN));
    assert!(moment_in_range(-86400));
    assert!(Moment::from_timestamp(i64::MAX).is_none());
    assert_eq!(Moment::from_timestamp(AT as i64).map(|m| m.timestamp()), Some(AT as i64));
    let far = Topic::new("far", i64::MAX);
    assert!(topic_row_checked(&far, 0).is_none());
    let session = Session::new("far", i64::MIN);
    assert!(session_row_checked(&session).is_none());
}

#[test]
fn topic_rows() {
    let topic = Topic::new("closures", AT);
    let row = topic_row(&topic, AT);
    assert_eq!(row.name, "closures");
    assert_eq!(row.ease_factor, "2.5");
    assert_eq!(row.repetitions, "0");
    assert_eq!(row.last_review, "Mar  5 14:03:09 2025");
    assert_eq!(row.next_review, "Mar  6 14:03:09 2025");
    let due = topic_row_checked(&topic, AT + 86400).unwrap();
    assert_eq!(due.next_review, "Mar  6 14:03:09 2025 (overdue)");
}

#[test]
fn session_rows_and_notes() {
    let session = Session::new("pairing", AT);
    let (name, created) = session_row(&session);
    assert_eq!(name, "pairing");
    assert_eq!(created, "Mar  5 14:03:09 2025");
    assert_eq!(session_row_checked(&session), Some((name, created)));
    assert_eq!(session_notes_text(&session), "No content available");
    let session = session.update_content(&"notes".to_string(), AT + 1);
    assert_eq!(session_notes_text(&session), "notes");
}

fn config(names: &[&str]) -> Option<DashboardConfig> {
    Some(DashboardConfig {
        review_topic_commands: names
            .iter()
            .map(|n| ReviewTopicCommand { name: n.to_string(), args: vec!["agent".to_string()] })
            .collect(),
    })
}

#[test]
fn header_hints_per_view() {
    let mut m = Model::new(config(&["agent-review"]), DashboardLogger::new());
    assert_eq!(
        header_instructions(&m),
        "(q) quit, (s) sessions, (l) logs, (→|←) switch pane, (Esc) reset category filter, (a) review topic configuration (agent-review)"
    );
    m.selected_view = View::Sessions;
    assert_eq!(header_instructions(&m), "(q) quit, (t) topics, (l) logs");
    m.selected_view = View::Logs;
    assert_eq!(header_instructions(&m), "(q) quit, (t) topics, (s) sessions");
    let m = Model::new(None, DashboardLogger::new());
    assert_eq!(
        header_instructions(&m),
        "(q) quit, (s) sessions, (l) logs, (→|←) switch pane, (Esc) reset category filter"
    );
}

#[test]
fn log_lines_newest_first() {
    let epoch = Moment::from_timestamp(0).unwrap();
    assert_eq!(Log::Info("m".to_string(), epoch).text(), "[INFO] 01/01/1970 00:00:00 m");
    let mut logger = DashboardLogger::new();
    assert_eq!(logger.first_message(), "");
    logger.info("first");
    logger.info("second");
    assert_eq!(logger.first_message(), "second");
    let lines = logger.lines();
    assert_eq!(lines.len(), 2);
    assert!(lines[0].starts_with("[INFO] "));
    assert!(lines[0].ends_with(" second"));
    assert!(lines[1].ends_with(" first"));
}
