use mentor::sm2::sm2;
use mentor::topic::{Topic, TopicCategories};

fn mocked_topic() -> Topic {
    Topic {
        name: "test topic".to_string(),
        repetitions: 1,
        interval: 10,
        ease_factor: 150,
        reviewed_at: 10000,
        categories: TopicCategories(vec![]),
    }
}

fn ease(topic: &Topic) -> f32 {
    topic.ease_factor as f32 / 100.0
}

#[test]
fn update_last_review_date() {
    let topic = Topic {
        reviewed_at: 10000,
        ..mocked_topic()
    };

    assert_eq!(sm2(&topic, 0, 2000).reviewed_at, 2000)
}

#[test]
fn quality_less_than_3_reset_repetitions_and_interval() {
    let topic = Topic {
        repetitions: 3,
        interval: 10,
        ..mocked_topic()
    };

    let result_quality_0 = sm2(&topic, 0, 2000);
    assert_eq!(result_quality_0.repetitions, 0);
    assert_eq!(result_quality_0.interval, 1);

    let result_quality_1 = sm2(&topic, 1, 2000);
    assert_eq!(result_quality_1.repetitions, 0);
    assert_eq!(result_quality_1.interval, 1);

    let result_quality_2 = sm2(&topic, 2, 2000);
    assert_eq!(result_quality_2.repetitions, 0);
    assert_eq!(result_quality_2.interval, 1);
}

#[test]
fn quality_equal_more_than_3_increase_repetitions_by_one() {
    let topic = Topic {
        repetitions: 0,
        interval: 10,
        ..mocked_topic()
    };

    let result_quality_3 = sm2(&topic, 3, 2000);
    assert_eq!(result_quality_3.repetitions, 1);

    let result_quality_4 = sm2(&topic, 4, 2000);
    assert_eq!(result_quality_4.repetitions, 1);
}

#[test]
fn first_time_success_topic_interval_go_to_6() {
    let topic = Topic {
        repetitions: 0,
        interval: 0,
        ..mocked_topic()
    };

    let result = sm2(&topic, 4, 2000);
    assert_eq!(result.interval, 6);
}

#[test]
fn consecutive_good_quality_increase_interval_more_than_6() {
    let topic = Topic {
        repetitions: 0,
        interval: 0,
        ..mocked_topic()
    };

    let mut result = sm2(&topic, 4, 2000);
    result = sm2(&result, 4, 2000);
    result = sm2(&result, 4, 2000);
    assert!(result.interval == 13, "expected 13 got {}", result.interval);
}

#[test]
fn ease_factor_minimum_value() {
    let topic = Topic {
        repetitions: 0,
        ease_factor: 140,
        interval: 0,
        ..mocked_topic()
    };

    let result = sm2(&topic, 1, 2000);
    assert_eq!(ease(&result), 1.3);
}

#[test]
fn ease_factor_increase_with_max_quality() {
    let topic = Topic {
        repetitions: 0,
        ease_factor: 140,
        interval: 0,
        ..mocked_topic()
    };

    let result = sm2(&topic, 5, 2000);
    assert_eq!(ease(&result), 1.5);
}

#[test]
fn ease_factor_stay_the_same_with_quality_4() {
    let topic = Topic {
        repetitions: 0,
        ease_factor: 140,
        interval: 0,
        ..mocked_topic()
    };

    let result = sm2(&topic, 4, 2000);
    assert_eq!(ease(&result), 1.4);
}

#[test]
fn ease_factor_decrease_with_quality_3_or_lower() {
    let topic = Topic {
        repetitions: 0,
        ease_factor: 350,
        interval: 0,
        ..mocked_topic()
    };

    let mut result = sm2(&topic, 3, 2000);
    let mut ef = ease(&result);
    assert!(
        ef > 3.35 && ef < 3.37,
        "expected ease factor between 3.35 and 3.37 but got {}",
        ef
    );

    result = sm2(&topic, 2, 2000);
    ef = ease(&result);
    assert!(
        ef > 3.17 && ef < 3.19,
        "expected ease factor between 3.17 and 3.19 but got {}",
        ef
    );

    result = sm2(&topic, 1, 2000);
    ef = ease(&result);
    assert!(
        ef > 2.95 && ef < 2.97,
        "expected ease factor between 2.95 and 2.97 but got {}",
        ef
    );
}

#[test]
fn ease_factor_exact_changes_by_quality() {
    let topic = Topic {
        ease_factor: 250,
        ..mocked_topic()
    };
    let changes: Vec<u32> = (0..=5).map(|q| sm2(&topic, q, 1).ease_factor).collect();
    assert_eq!(changes, vec![170, 196, 218, 236, 250, 260]);
}

#[test]
fn ease_factor_monotone_for_qualities_up_to_five() {
    let topic = Topic {
        ease_factor: 131,
        ..mocked_topic()
    };
    let mut last = 0;
    for q in 0..=5 {
        let ef = sm2(&topic, q, 1).ease_factor;
        assert!(ef >= last);
        assert!(ef >= 130);
        last = ef;
    }
}

#[test]
fn quality_above_five_follows_the_formula() {
    let topic = Topic {
        ease_factor: 250,
        ..mocked_topic()
    };
    assert_eq!(sm2(&topic, 6, 1).ease_factor, 266);
    assert_eq!(sm2(&topic, 7, 1).ease_factor, 268);
    assert_eq!(sm2(&topic, 10, 1).ease_factor, 250);
    assert_eq!(sm2(&topic, 1000, 1).ease_factor, 130);
    assert_eq!(sm2(&topic, u32::MAX, 1).ease_factor, 130);
}

#[test]
fn successful_reviews_never_shorten_interval() {
    let mut topic = Topic::new("x", 0);
    let mut last = topic.interval;
    for (day, q) in [3u32, 5, 3, 4, 3, 5, 4].iter().enumerate() {
        topic = sm2(&topic, *q, day as i64);
        if topic.repetitions >= 2 {
            assert!(topic.interval >= last);
        }
        assert!(topic.interval >= 1);
        last = topic.interval;
    }
}

#[test]
fn interval_saturates_at_u32_max() {
    let topic = Topic {
        repetitions: 5,
        interval: u32::MAX,
        ease_factor: 300,
        ..mocked_topic()
    };
    assert_eq!(sm2(&topic, 5, 1).interval, u32::MAX);
}

#[test]
fn review_keeps_name_and_categories() {
    let topic = Topic::new("Rust lifetimes", 5).update_categories(vec!["Rust".to_string()]);
    let reviewed = topic.update_quality(4, 99);
    assert_eq!(reviewed.name, "Rust lifetimes");
    assert_eq!(reviewed.categories.0.len(), 1);
    assert_eq!(reviewed.categories.0[0].name, "rust");
    assert_eq!(reviewed.reviewed_at, 99);
}
