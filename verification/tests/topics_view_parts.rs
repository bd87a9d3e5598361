use mentor::topic::Topic;
use mentor::topics_view::{
    build_summaries, category_bar_widths, category_breakdown, category_counts, chart_height,
    chart_scroll, epoch_now, epoch_seconds, seven_days_ago, stats_bar, stats_panel, topics_for_category,
    truncate_pad, update_selected_table_down, update_selected_table_up, CategoryCounts,
};

fn sample() -> Vec<Topic> {
    let mastered = Topic {
        repetitions: 3,
        ease_factor: 300,
        interval: 30,
        ..Topic::new("mastered", 0)
    }
    .update_categories(vec!["rust".to_string()]);
    let learning = Topic {
        repetitions: 3,
        ease_factor: 220,
        interval: 2,
        ..Topic::new("learning", 86400 * 5)
    }
    .update_categories(vec!["rust".to_string(), "go".to_string()]);
    let fresh = Topic::new("fresh", 86400 * 9);
    vec![mastered, learning, fresh]
}

#[test]
fn truncate_pad_cuts_and_pads() {
    assert_eq!(truncate_pad("abc", 5), "abc  ");
    assert_eq!(truncate_pad("abcdef", 4), "abc ");
    assert_eq!(truncate_pad("abcd", 4), "abc ");
    assert_eq!(truncate_pad("é", 3), "é  ");
    assert_eq!(truncate_pad("éé", 3), "é ");
}

#[test]
fn topics_of_a_category() {
    let topics = sample();
    let rust: Vec<&str> = topics_for_category(&topics, "rust").iter().map(|t| t.name.as_str()).collect();
    assert_eq!(rust, vec!["mastered", "learning"]);
    let none: Vec<&str> =
        topics_for_category(&topics, "Uncategorized").iter().map(|t| t.name.as_str()).collect();
    assert_eq!(none, vec!["fresh"]);
}

#[test]
fn summaries_put_uncategorized_last() {
    let topics = sample();
    let summaries = build_summaries(&topics);
    let names: Vec<&str> = summaries.iter().map(|s| s.name.as_str()).collect();
    assert_eq!(names, vec!["go", "rust", "Uncategorized"]);
    assert_eq!(summaries[1].topics.len(), 2);
    assert_eq!(summaries[2].topics[0].name, "fresh");
}

#[test]
fn statistics_counts() {
    let topics = sample();
    let now = 86400 * 10;
    let bar = stats_bar(&topics, now);
    assert_eq!((bar.overdue, bar.due_this_week, bar.mastered, bar.struggling), (1, 1, 1, 1));
    let panel = stats_panel(&topics, now, seven_days_ago(now));
    assert_eq!(
        (panel.total, panel.overdue, panel.last_7_days, panel.mastered, panel.struggling),
        (3, 2, 2, 1, 0)
    );
    let rust = category_breakdown(&topics, &"rust".to_string());
    assert_eq!((rust.total, rust.mastered, rust.learning, rust.struggled), (2, 1, 1, 0));
}

#[test]
fn category_bars_scale() {
    let topics = sample();
    let refs: Vec<&Topic> = topics.iter().collect();
    let counts = category_counts(&refs);
    assert_eq!((counts.total, counts.mastered, counts.learning), (3, 1, 1));
    let w = category_bar_widths(&counts, 10, 3);
    assert_eq!((w.mastered, w.learning, w.struggling), (3, 3, 4));
    let empty = CategoryCounts { total: 0, mastered: 0, learning: 0 };
    let w = category_bar_widths(&empty, 10, 3);
    assert_eq!((w.mastered, w.learning, w.struggling), (0, 0, 0));
}

#[test]
fn chart_geometry() {
    assert_eq!(chart_scroll(2, 5), 0);
    assert_eq!(chart_scroll(7, 5), 3);
    assert_eq!(chart_height(0), 4);
    assert_eq!(chart_height(5), 7);
    assert_eq!(chart_height(40), 12);
}

#[test]
fn topics_view_selection() {
    let mut s = None;
    update_selected_table_down(&mut s, 0);
    assert_eq!(s, None);
    update_selected_table_down(&mut s, 2);
    assert_eq!(s, Some(0));
    update_selected_table_down(&mut s, 2);
    update_selected_table_down(&mut s, 2);
    assert_eq!(s, Some(1));
    update_selected_table_up(&mut s);
    assert_eq!(s, Some(0));
}

#[test]
fn clock_reads_after_epoch() {
    assert!(epoch_now() > 1_600_000_000);
}

#[test]
fn epoch_seconds_of_a_reading() {
    assert_eq!(epoch_seconds(Ok(1741183389)), 1741183389);
    assert_eq!(epoch_seconds(Ok(0)), 0);
    assert_eq!(epoch_seconds(Err(())), 0);
}
