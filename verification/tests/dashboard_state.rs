use mentor::dashboard::{key_action, Key, KeyAction};
use mentor::dashboard::{
    collect_sorted_categories, update, update_is_allowed, update_selected_list_down, update_selected_list_up,
    update_selected_table_down, update_selected_table_up, DashboardConfig, Message, Model,
    ReviewTopicCommand, UpdateCommand,
};
use mentor::logger::DashboardLogger;
use mentor::panes::{SessionsPane, StatsFilter, TopicsPane, View};
use mentor::session::Session;
use mentor::topic::Topic;

fn config(n: usize) -> Option<DashboardConfig> {
    Some(DashboardConfig {
        review_topic_commands: (0..n)
            .map(|i| ReviewTopicCommand {
                name: format!("cmd{i}"),
                args: vec!["agent".to_string(), "$MentorPrompt".to_string()],
            })
            .collect(),
    })
}

fn topics() -> Vec<Topic> {
    vec![
        Topic::new("b", 0).update_categories(vec!["Rust".to_string(), "Go".to_string()]),
        Topic::new("a", 0).update_categories(vec!["rust".to_string()]),
        Topic::new("c", 0),
    ]
}

#[test]
fn new_model_selects_first_command() {
    let m = Model::new(config(2), DashboardLogger::new());
    assert_eq!(m.selected_review_topic_command, Some(0));
    assert!(matches!(m.selected_view, View::Topics));
    assert_eq!(Model::new(config(0), DashboardLogger::new()).selected_review_topic_command, None);
    assert_eq!(Model::new(None, DashboardLogger::new()).selected_review_topic_command, None);
}

#[test]
fn loading_topics_sorts_categories() {
    let mut m = Model::new(None, DashboardLogger::new());
    assert!(update(&mut m, Message::UpdateTopics(topics())).is_none());
    let names: Vec<&str> = m.categories.iter().map(|c| c.name.as_str()).collect();
    assert_eq!(names, vec!["go", "rust"]);
    assert_eq!(m.topics.len(), 3);
    let direct = collect_sorted_categories(&topics());
    assert_eq!(direct.len(), 2);
}

#[test]
fn panes_cycle() {
    let mut m = Model::new(None, DashboardLogger::new());
    update(&mut m, Message::NextSessionPane);
    assert_eq!(m.selected_topics_pane, TopicsPane::Stats);
    update(&mut m, Message::PrevPane);
    assert_eq!(m.selected_topics_pane, TopicsPane::Categories);
    update(&mut m, Message::NextSessionPane);
    assert_eq!(m.selected_topics_pane, TopicsPane::List);
    update(&mut m, Message::ShowSessionView);
    update(&mut m, Message::NextSessionPane);
    assert_eq!(m.selected_session_pane, SessionsPane::SessionMd);
    update(&mut m, Message::NextSessionPane);
    assert_eq!(m.selected_session_pane, SessionsPane::List);
}

#[test]
fn navigation_moves_selection_within_bounds() {
    let mut m = Model::new(None, DashboardLogger::new());
    update(&mut m, Message::UpdateTopics(topics()));
    update(&mut m, Message::NavigateDown);
    assert_eq!(m.topics_state, Some(0));
    for _ in 0..5 {
        update(&mut m, Message::NavigateDown);
    }
    assert_eq!(m.topics_state, Some(2));
    update(&mut m, Message::NavigateUp);
    assert_eq!(m.topics_state, Some(1));
    match update(&mut m, Message::ReviewTopic) {
        Some(UpdateCommand::StartReview(name)) => assert_eq!(name, "a"),
        None => panic!("expected a review"),
    }
}

#[test]
fn stats_filter_moves_and_stops() {
    let mut m = Model::new(None, DashboardLogger::new());
    update(&mut m, Message::NextSessionPane);
    update(&mut m, Message::NavigateUp);
    assert_eq!(m.selected_stats_filter, StatsFilter::Total);
    for _ in 0..6 {
        update(&mut m, Message::NavigateDown);
    }
    assert_eq!(m.selected_stats_filter, StatsFilter::Struggling);
    update(&mut m, Message::NavigateUp);
    assert_eq!(m.selected_stats_filter, StatsFilter::Mastered);
}

#[test]
fn session_text_scrolls() {
    let mut m = Model::new(None, DashboardLogger::new());
    update(&mut m, Message::UpdateSessions(vec![Session::new("s", 0)]));
    update(&mut m, Message::ShowSessionView);
    update(&mut m, Message::NextSessionPane);
    update(&mut m, Message::NavigateDown);
    assert_eq!(m.session_md_scroll, 0);
    update(&mut m, Message::NavigateUp);
    update(&mut m, Message::NavigateUp);
    assert_eq!(m.session_md_scroll, 2);
    update(&mut m, Message::NavigateDown);
    assert_eq!(m.session_md_scroll, 1);
    assert_eq!(m.sessions.len(), 1);
}

#[test]
fn logs_selection_uses_log_count() {
    let mut m = Model::new(None, DashboardLogger::new());
    update(&mut m, Message::ShowLogsView);
    for _ in 0..4 {
        update(&mut m, Message::NavigateDown);
    }
    // Each message is logged before it is answered, so the list grows as
    // the selection moves down.
    assert_eq!(m.logs_state, Some(3));
    assert_eq!(m.logger.logs.len(), 5);
    assert_eq!(m.logger.first_message(), "Message: NavigateDown");
}

#[test]
fn review_commands_cycle() {
    let mut m = Model::new(config(3), DashboardLogger::new());
    for expected in [1, 2, 0, 1] {
        update(&mut m, Message::NextReviewTopicCommand);
        assert_eq!(m.selected_review_topic_command, Some(expected));
    }
}

#[test]
fn reset_filters_clears_category_selection() {
    let mut m = Model::new(None, DashboardLogger::new());
    m.category_state = Some(1);
    update(&mut m, Message::ResetFilters);
    assert_eq!(m.category_state, None);
    assert!(update(&mut m, Message::ReviewTopic).is_none());
}

#[test]
fn selection_helpers() {
    let mut s = None;
    update_selected_table_up(&mut s);
    assert_eq!(s, Some(0));
    update_selected_table_up(&mut s);
    assert_eq!(s, Some(0));
    update_selected_table_down(&mut s, 2);
    assert_eq!(s, Some(1));
    update_selected_table_down(&mut s, 2);
    assert_eq!(s, Some(1));
    let mut l = None;
    update_selected_list_down(&mut l, 1);
    assert_eq!(l, Some(0));
    update_selected_list_down(&mut l, 1);
    assert_eq!(l, Some(0));
    update_selected_list_up(&mut l);
    assert_eq!(l, Some(0));
}

#[test]
fn message_names() {
    assert_eq!(Message::NavigateUp.name(), "NavigateUp");
    assert_eq!(Message::UpdateTopics(vec![]).name(), "UpdateTopics");
    assert_eq!(Message::NextReviewTopicCommand.name(), "NextReviewTopicCommand");
}

#[test]
fn review_prompt_replaces_placeholder() {
    let cmd = ReviewTopicCommand {
        name: "agent".to_string(),
        args: vec!["agent".to_string(), "--prompt=$MentorPrompt!".to_string()],
    };
    let args = cmd.prompt_args("closures");
    assert_eq!(args[0], "agent");
    assert_eq!(
        args[1],
        "--prompt=Activate /mentor+ skill and then start a session to review the topic named closures!"
    );
}

#[test]
fn allowed_messages_follow_the_state() {
    let mut m = Model::new(None, DashboardLogger::new());
    assert!(update_is_allowed(&m, &Message::NavigateDown));
    m.topics_state = Some(4);
    assert!(!update_is_allowed(&m, &Message::NavigateDown));
    assert!(!update_is_allowed(&m, &Message::ReviewTopic));
    assert!(update_is_allowed(&m, &Message::ShowLogsView));
    m.selected_view = View::Sessions;
    m.selected_session_pane = SessionsPane::SessionMd;
    m.session_md_scroll = u16::MAX;
    assert!(!update_is_allowed(&m, &Message::NavigateUp));
    assert!(update_is_allowed(&m, &Message::NavigateDown));
}

#[test]
fn view_switches_are_idempotent_and_reset_clears_categories() {
    let mut m = Model::new(None, DashboardLogger::new());
    assert!(update(&mut m, Message::ShowSessionView).is_none());
    assert!(update(&mut m, Message::ShowSessionView).is_none());
    assert_eq!(m.selected_view, View::Sessions);
    assert_eq!(m.selected_topics_pane, TopicsPane::List);
    m.category_state = Some(2);
    assert!(update(&mut m, Message::ResetFilters).is_none());
    assert_eq!(m.category_state, None);
    assert_eq!(m.selected_view, View::Sessions);
}

#[test]
fn keys_map_to_messages() {
    assert!(matches!(key_action(Key::Char('q')), KeyAction::Quit));
    assert!(matches!(key_action(Key::Char('s')), KeyAction::Send(Message::ShowSessionView)));
    assert!(matches!(key_action(Key::Left), KeyAction::Send(Message::PrevPane)));
    assert!(matches!(key_action(Key::Right), KeyAction::Send(Message::NextSessionPane)));
    assert!(matches!(key_action(Key::Enter), KeyAction::Send(Message::ReviewTopic)));
    assert!(matches!(key_action(Key::Esc), KeyAction::Send(Message::ResetFilters)));
    assert!(matches!(key_action(Key::Char('x')), KeyAction::Ignore));
    assert!(matches!(key_action(Key::Other), KeyAction::Ignore));
}
