use mentor::session::Session;
use mentor::tools::{
    categorised_topic, create_session_result, normalise_topic, review_allowed, review_topic_result,
    reviewed_topic, session_results, session_update, similar_topic_names, topic_candidates,
    topic_depth_result, topic_results, update_session_result, update_topic_categories_result,
};
use mentor::session::SessionId;
use mentor::topic::{QuestionDepth, Topic, TopicCategories};

#[test]
fn normalise_collapses_white_space() {
    assert_eq!(normalise_topic("  rust \t  closures\n"), "rust closures");
    assert_eq!(normalise_topic("a\u{3000}b"), "a b");
    assert_eq!(normalise_topic("   "), "");
    assert_eq!(normalise_topic("x"), "x");
}

#[test]
fn normalise_is_idempotent_on_examples() {
    for s in ["  a  b  ", "\u{a0}x\u{2003}y z ", "", "one"] {
        let once = normalise_topic(s);
        assert_eq!(normalise_topic(&once), once);
    }
}

#[test]
fn search_ranks_by_similarity() {
    let topics = vec![
        Topic::new("another topic", 0),
        Topic::new("javascript", 0),
        Topic::new("some topic", 0),
        Topic::new("topics", 0),
    ];
    assert_eq!(
        similar_topic_names(&topics, "topic"),
        vec!["topics", "some topic", "another topic"]
    );
    assert!(similar_topic_names(&topics, "zzz").is_empty());
}

#[test]
fn search_keeps_storage_order_among_equals() {
    let topics = vec![Topic::new("b topic", 0), Topic::new("a topic", 0)];
    assert_eq!(similar_topic_names(&topics, "topic"), vec!["b topic", "a topic"]);
}

#[test]
fn all_topics_with_categories() {
    let topics = vec![Topic::new("a", 0).update_categories(vec!["X".to_string()])];
    let results = topic_results(&topics);
    assert_eq!(results.len(), 1);
    assert_eq!(results[0].name, "a");
    assert_eq!(results[0].categories, vec!["x"]);
}

#[test]
fn depth_of_unknown_topic_is_full() {
    let r = topic_depth_result("some topic".to_string(), None);
    assert_eq!(r.name, "some topic");
    assert_eq!(r.question_depth, QuestionDepth::Full);
    let known = Topic {
        repetitions: 4,
        ease_factor: 300,
        ..Topic::new("Some Topic", 0)
    };
    let r = topic_depth_result("some topic".to_string(), Some(known));
    assert_eq!(r.name, "Some Topic");
    assert_eq!(r.question_depth, QuestionDepth::Skip);
}

#[test]
fn review_of_new_topic_starts_from_defaults() {
    let t = reviewed_topic("some topic", 3, 5000, None);
    assert_eq!((t.repetitions, t.interval, t.ease_factor, t.reviewed_at), (1, 6, 236, 5000));
    let t = reviewed_topic("some topic", 0, 5000, None);
    assert_eq!((t.repetitions, t.interval, t.ease_factor), (0, 1, 170));
    let r = review_topic_result(t);
    assert_eq!(r.topic, "some topic");
    assert_eq!(r.next_review_in_days, 1);
}

#[test]
fn review_of_stored_topic_updates_it() {
    let stored = reviewed_topic("t", 3, 0, None);
    let again = reviewed_topic("t", 4, 86400 * 6, Some(stored));
    assert_eq!((again.repetitions, again.interval, again.ease_factor), (2, 14, 236));
}

#[test]
fn review_quality_is_truncated_to_u32() {
    let t = reviewed_topic("t", (1usize << 32) + 5, 0, None);
    assert_eq!(t.ease_factor, 260);
}

#[test]
fn categories_of_missing_topic_is_an_error() {
    match categorised_topic(None, vec!["a".to_string()]) {
        Err(e) => assert_eq!(e, "Topic not found"),
        Ok(_) => panic!("expected an error"),
    }
    let t = categorised_topic(Some(Topic::new("t", 0)), vec!["A".to_string(), "a".to_string()])
        .ok()
        .unwrap();
    let r = update_topic_categories_result(&t);
    assert_eq!(r.topic, "t");
    assert_eq!(r.categories, vec!["a"]);
}

#[test]
fn candidates_are_limited() {
    let overdue = vec![Topic::new("a", 0), Topic::new("b", 86400), Topic::new("c", 0)];
    let c = topic_candidates(&overdue, 2, 86400 * 3);
    assert_eq!(c.len(), 2);
    assert_eq!((c[0].name.as_str(), c[0].days_since_last_review), ("a", 3));
    assert_eq!((c[1].name.as_str(), c[1].days_since_last_review), ("b", 2));
    assert_eq!(topic_candidates(&overdue, 10, 0).len(), 3);
    assert!(topic_candidates(&overdue, 0, 0).is_empty());
}

#[test]
fn created_session_id_finds_it_again() {
    let session = Session::new("session name", 100);
    let created = create_session_result(&session, "/home/me/.local/share/agent-mentor");
    assert_eq!(created.session_file_path, "/home/me/.local/share/agent-mentor/session_name.md");
    let trailing = create_session_result(&session, "/tmp/mentor/");
    assert_eq!(trailing.session_file_path, "/tmp/mentor/session_name.md");
    let id = SessionId::parse(&created.session_id).ok().unwrap();
    assert_eq!(id, session.id);
}

#[test]
fn session_update_keeps_identity() {
    let session = Session::new("s", 100);
    let id = session.id;
    let updated = session_update(Some(session), &"new content".to_string(), 200).ok().unwrap();
    assert_eq!(updated.id, id);
    assert_eq!(updated.created_at, 100);
    assert_eq!(updated.modified_at, 200);
    assert_eq!(updated.content, Some("new content".to_string()));
    assert_eq!(update_session_result(&updated).session_name, "s");
    match session_update(None, &"x".to_string(), 1) {
        Err(e) => assert_eq!(e, "Topic not found"),
        Ok(_) => panic!("expected an error"),
    }
}

#[test]
fn sessions_listed_with_ids() {
    let sessions = vec![Session::new("one", 1), Session::new("two", 2)];
    let r = session_results(&sessions, 1);
    assert_eq!(r.len(), 1);
    assert_eq!(r[0].name, "one");
    assert_eq!(r[0].id, sessions[0].id.to_text());
}

#[test]
fn topic_with_no_categories_lists_none() {
    let t = Topic {
        categories: TopicCategories(vec![]),
        ..Topic::new("x", 0)
    };
    assert!(topic_results(&vec![t])[0].categories.is_empty());
}

#[test]
fn reviews_out_of_the_counters_range_are_refused() {
    assert!(review_allowed("t", 5, 0, &None));
    assert!(review_allowed("t", 1000, 0, &None));
    let mut worn = Topic::new("t", 0);
    worn.repetitions = u32::MAX;
    assert!(!review_allowed("t", 3, 0, &Some(worn)));
    let mut worn = Topic::new("t", 0);
    worn.repetitions = u32::MAX;
    assert!(review_allowed("t", 2, 0, &Some(worn)));
    let mut heavy = Topic::new("t", 0);
    heavy.ease_factor = u32::MAX;
    assert!(!review_allowed("t", 5, 0, &Some(heavy)));
    let mut heavy = Topic::new("t", 0);
    heavy.ease_factor = u32::MAX;
    assert!(review_allowed("t", 4, 0, &Some(heavy)));
}

const NOW: i64 = 1775764375;

#[test]
fn update_topic_and_list_them() {
    let name = normalise_topic("some topic");
    let first = reviewed_topic(&name, 3, NOW, None);
    let second = reviewed_topic(&name, 4, NOW, Some(first));
    let stored = vec![second];
    assert_eq!(similar_topic_names(&stored, "some"), vec!["some topic"]);
}

#[test]
fn topic_depth() {
    let name = normalise_topic("some topic");
    let stored = reviewed_topic(&name, 1, NOW, None);
    let result = topic_depth_result(normalise_topic("some topic"), Some(stored));
    assert_eq!(result.question_depth, QuestionDepth::Full);
    assert_eq!(result.name, "some topic");
}

#[test]
fn get_topic_candidates() {
    let stored = reviewed_topic("some topic", 0, NOW, None);
    // Reviewed just now with an interval of one day: not yet due.
    assert!(!stored.is_overdue(NOW));
    let overdue: Vec<Topic> = vec![stored].into_iter().filter(|t| t.is_overdue(NOW)).collect();
    assert_eq!(topic_candidates(&overdue, 1, NOW).len(), 0);
}

#[test]
fn normalised_name_is_words_joined_by_spaces() {
    for name in ["  rust \t closures\n", "a", "", "   ", "x\u{3000}y  z", "one two"] {
        let expected = name.split_whitespace().collect::<Vec<_>>().join(" ");
        let r = normalise_topic(name);
        assert_eq!(r, expected);
        assert_eq!(r.trim(), r);
        assert!(!r.contains("  "));
    }
}
