use mentor::overview::{
    filter_title, overview_row_checked, selected_topics, selection_title, summary_counts, RowEmphasis,
};
use mentor::topic::Topic;
use mentor::topics_view::{build_summaries, max_category_count, seven_days_ago};

const AT: i64 = 1741183389;

fn topics() -> Vec<Topic> {
    let mut mastered = Topic::new("closures", AT).update_categories(vec!["Rust".to_string(), "fp".to_string()]);
    mastered.repetitions = 4;
    mastered.ease_factor = 260;
    mastered.interval = 30;
    let fresh = Topic::new("lifetimes", AT).update_categories(vec!["rust".to_string()]);
    let plain = Topic::new("monads", AT - 10 * 86400);
    vec![mastered, fresh, plain]
}

#[test]
fn week_ago_is_seven_days_back_even_before_the_epoch() {
    assert_eq!(seven_days_ago(3600), 3600 - 7 * 86400);
    assert_eq!(seven_days_ago(8 * 86400), 86400);
}

#[test]
fn category_rows_count_topics_overdue_and_mastered() {
    let topics = topics();
    let summaries = build_summaries(&topics);
    let names: Vec<&str> = summaries.iter().map(|s| s.name.as_str()).collect();
    assert_eq!(names, vec!["fp", "rust", "Uncategorized"]);
    let rust = summary_counts(&summaries[1], AT + 2 * 86400);
    assert_eq!((rust.topics, rust.overdue, rust.mastered), (2, 1, 1));
    let none = summary_counts(&summaries[2], AT);
    assert_eq!((none.topics, none.overdue, none.mastered), (1, 1, 0));
}

#[test]
fn chosen_topics_and_title() {
    let topics = topics();
    let summaries = build_summaries(&topics);
    let chosen = selected_topics(&summaries, Some(1), &topics);
    let names: Vec<&str> = chosen.iter().map(|t| t.name.as_str()).collect();
    assert_eq!(names, vec!["closures", "lifetimes"]);
    assert_eq!(selected_topics(&summaries, Some(9), &topics).len(), 0);
    assert_eq!(selected_topics(&summaries, None, &topics).len(), 3);
    assert_eq!(selection_title(&summaries, Some(1)), " rust ");
    assert_eq!(selection_title(&summaries, None), " All topics ");
    assert_eq!(selection_title(&summaries, Some(9)), " All topics ");
}

#[test]
fn overview_rows() {
    let topics = topics();
    let row = overview_row_checked(&topics[0], AT).unwrap();
    assert_eq!(row.name, "closures");
    assert_eq!(row.categories, "rust, fp");
    assert_eq!(row.ease_factor, "2.60");
    assert_eq!(row.repetitions, "4");
    assert_eq!(row.next_review, "Apr  4 2025");
    assert!(matches!(row.emphasis, RowEmphasis::Mastered));
    let old = overview_row_checked(&topics[2], AT).unwrap();
    assert_eq!(old.categories, "-");
    assert_eq!(old.ease_factor, "2.50");
    assert_eq!(old.next_review, "Feb 24 2025 (overdue)");
    assert!(matches!(old.emphasis, RowEmphasis::Overdue));
    let far = Topic::new("far", i64::MAX);
    assert!(overview_row_checked(&far, 0).is_none());
}

#[test]
fn filter_titles() {
    assert_eq!(filter_title(3, 3, &vec![]), " Topics (3) ");
    let filters = vec!["rust".to_string(), "Overdue".to_string(), "go".to_string()];
    assert_eq!(filter_title(2, 10, &filters), " Topics (2/10) · Overdue, go, rust ");
}

#[test]
fn largest_category_count_is_at_least_one() {
    let topics = topics();
    assert_eq!(max_category_count(&topics, &vec![]), 1);
    assert_eq!(max_category_count(&topics, &vec!["fp".to_string(), "rust".to_string()]), 2);
    assert_eq!(max_category_count(&topics, &vec!["none".to_string()]), 1);
    assert_eq!(max_category_count(&topics, &vec!["Uncategorized".to_string()]), 1);
}
