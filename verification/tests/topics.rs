use mentor::topic::{Category, QuestionDepth, Topic, TopicCategories};

fn topic(repetitions: u32, ease_factor: u32) -> Topic {
    Topic {
        name: "test topic".to_string(),
        repetitions,
        interval: 10,
        ease_factor,
        reviewed_at: 10000,
        categories: TopicCategories(vec![]),
    }
}

#[test]
fn topic_categories_merge() {
    let topic = Topic {
        reviewed_at: 1000,
        ..topic(1, 150)
    };

    let new_topic = topic.update_categories(vec![
        "One".to_string(),
        "Two".to_string(),
        "two".to_string(),
    ]);

    let mut names = new_topic
        .categories
        .0
        .iter()
        .map(|c| &c.name)
        .collect::<Vec<_>>();

    let mut expected = vec!["one", "two"];
    names.sort();
    expected.sort();

    assert_eq!(names, expected);
}

#[test]
fn categories_lowercase_beyond_ascii() {
    let categories = TopicCategories::new(vec!["ÄPFEL".to_string(), "äpfel".to_string()]);
    assert_eq!(categories.0.len(), 1);
    assert_eq!(categories.0[0].name, "äpfel");
}

#[test]
fn question_depth_by_repetitions_and_ease() {
    assert_eq!(topic(2, 400).question_depth(), QuestionDepth::Full);
    assert_eq!(topic(3, 199).question_depth(), QuestionDepth::Full);
    assert_eq!(topic(3, 200).question_depth(), QuestionDepth::Light);
    assert_eq!(topic(3, 250).question_depth(), QuestionDepth::Light);
    assert_eq!(topic(3, 251).question_depth(), QuestionDepth::Skip);
}

#[test]
fn topic_states_partition() {
    for reps in 0..5 {
        for ease in [130, 199, 200, 250, 251, 300] {
            let t = topic(reps, ease);
            let states = [t.mastered(), t.struggled(), t.learning()];
            assert_eq!(states.iter().filter(|s| **s).count(), 1);
        }
    }
    assert!(topic(3, 300).mastered());
    assert!(topic(0, 150).struggled());
    assert!(topic(0, 250).learning());
    assert!(topic(3, 220).learning());
}

#[test]
fn schedule_of_a_topic() {
    let t = topic(1, 250);
    assert_eq!(t.next_review(), 10000 + 10 * 86400);
    assert!(!t.is_overdue(10000 + 10 * 86400 - 1));
    assert!(t.is_overdue(10000 + 10 * 86400));
    assert_eq!(t.interval_in_seconds(), 864000);
    assert!(t.is_between(10000, 10000));
    assert!(!t.is_between(10001, 20000));
}

#[test]
fn days_since_last_review_rounds_toward_zero() {
    let t = topic(1, 250);
    assert_eq!(t.days_since_last_review(10000), 0);
    assert_eq!(t.days_since_last_review(10000 + 86399), 0);
    assert_eq!(t.days_since_last_review(10000 + 86400 * 3 + 5), 3);
    assert_eq!(t.days_since_last_review(0), 0);
    let later = Topic {
        reviewed_at: 86400 * 2 + 10,
        ..topic(1, 250)
    };
    assert_eq!(later.days_since_last_review(0), -2);
}

#[test]
fn has_category_by_name() {
    let t = topic(1, 250).update_categories(vec!["Rust".to_string(), "Memory".to_string()]);
    assert!(t.has_category(&Category { name: "rust".to_string() }));
    assert!(!t.has_category(&Category { name: "Rust".to_string() }));
}

#[test]
fn new_topic_defaults() {
    let t = Topic::new("closures", 42);
    assert_eq!(t.name, "closures");
    assert_eq!((t.repetitions, t.interval, t.ease_factor, t.reviewed_at), (0, 1, 250, 42));
    assert!(t.categories.0.is_empty());
}

#[test]
fn next_review_checked_reports_overflow() {
    let t = Topic::new("t", 1000);
    assert_eq!(t.next_review_checked(), Some(1000 + 86400));
    let mut late = Topic::new("t", i64::MAX - 10);
    late.interval = 1;
    assert_eq!(late.next_review_checked(), None);
}

#[test]
fn failed_review_asks_full_depth() {
    let mut t = Topic::new("t", 0);
    t.repetitions = 7;
    t.ease_factor = 300;
    assert_eq!(t.question_depth(), QuestionDepth::Skip);
    let failed = t.update_quality(2, 10);
    assert_eq!(failed.question_depth(), QuestionDepth::Full);
    assert!(!failed.mastered());
}
