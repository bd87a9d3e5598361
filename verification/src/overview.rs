//! The topics overview of the dashboard: the table of categories with their
//! counts, and the rows of the topics of the category chosen there.
use vstd::prelude::*;
use vstd::string::StringExecFns;

use crate::display::{
    decimal_digits, decimal_text, digit, digit_char, holds_moment, moment_in_range,
    plain_pattern, time_string, time_text,
};
use crate::header::comma_joined;
use crate::text::{chars_less, chars_of, push_char, text_less};
use crate::tools::topic_views;
use crate::topic::{depth_for, next_review_time, schedule_fits, QuestionDepth, Topic, TopicView};
use crate::topics_view::{
    count_where, due_time, overdue_before, skip_depth, topic_ref_views, CategorySummary,
};

verus! {

/// The counts of a row of the category table.
pub struct SummaryCounts {
    pub topics: usize,
    pub overdue: usize,
    pub mastered: usize,
}

/// The counts of a category's row at `now`: its topics, those due strictly
/// before `now`, and those whose questioning can be skipped.
pub fn summary_counts(summary: &CategorySummary, now: i64) -> (r: SummaryCounts)
    requires
        forall|i: int| 0 <= i < summary.topics.len() ==> due_time(#[trigger] summary.topics@[i]@) <= i64::MAX,
    ensures
        r.topics == summary.topics.len(),
        r.overdue == count_where(topic_ref_views(summary.topics@), overdue_before(now)),
        r.mastered == count_where(topic_ref_views(summary.topics@), skip_depth()),
{
    let ghost all = topic_ref_views(summary.topics@);
    let mut overdue: usize = 0;
    let mut mastered: usize = 0;
    let mut i: usize = 0;
    while i < summary.topics.len()
        invariant
            i <= summary.topics.len(),
            all == topic_ref_views(summary.topics@),
            forall|j: int| 0 <= j < summary.topics.len() ==> due_time(#[trigger] summary.topics@[j]@) <= i64::MAX,
            overdue == count_where(all.take(i as int), overdue_before(now)),
            mastered == count_where(all.take(i as int), skip_depth()),
            overdue <= i,
            mastered <= i,
        decreases summary.topics.len() - i,
    {
        let t = summary.topics[i];
        assert(all.take(i + 1).drop_last() =~= all.take(i as int));
        assert(all.take(i + 1).last() == t@);
        assert(due_time(summary.topics@[i as int]@) <= i64::MAX);
        if t.next_review() < now {
            overdue = overdue + 1;
        }
        if t.question_depth() == QuestionDepth::Skip {
            mastered = mastered + 1;
        }
        i = i + 1;
    }
    assert(all.take(summary.topics.len() as int) =~= all);
    SummaryCounts { topics: summary.topics.len(), overdue, mastered }
}

/// The topics shown beside the category table: those of the chosen
/// category, none where the choice is past the table's end, and all topics
/// where no category is chosen.
pub open spec fn chosen_topics(
    summaries: Seq<CategorySummary>,
    selection: Option<usize>,
    topics: Seq<TopicView>,
) -> Seq<TopicView> {
    match selection {
        Some(i) => if i < summaries.len() {
            topic_ref_views(summaries[i as int].topics@)
        } else {
            Seq::empty()
        },
        None => topics,
    }
}

/// The topics shown beside the category table.
pub fn selected_topics<'a>(
    summaries: &Vec<CategorySummary<'a>>,
    selection: Option<usize>,
    topics: &'a Vec<Topic>,
) -> (r: Vec<&'a Topic>)
    ensures
        topic_ref_views(r@) == chosen_topics(summaries@, selection, topic_views(topics@)),
{
    let mut r: Vec<&'a Topic> = Vec::new();
    match selection {
        Some(s) => {
            if s < summaries.len() {
                let chosen = &summaries[s].topics;
                let mut k: usize = 0;
                while k < chosen.len()
                    invariant
                        k <= chosen.len(),
                        topic_ref_views(r@) == topic_ref_views(chosen@).take(k as int),
                    decreases chosen.len() - k,
                {
                    let ghost before = topic_ref_views(r@);
                    let t = chosen[k];
                    r.push(t);
                    assert(topic_ref_views(r@) =~= before.push(t@));
                    assert(topic_ref_views(chosen@).take(k + 1) =~= topic_ref_views(chosen@).take(
                        k as int,
                    ).push(t@));
                    k = k + 1;
                }
                assert(topic_ref_views(chosen@).take(chosen.len() as int) =~= topic_ref_views(chosen@));
            }
        },
        None => {
            let mut k: usize = 0;
            while k < topics.len()
                invariant
                    k <= topics.len(),
                    topic_ref_views(r@) == topic_views(topics@).take(k as int),
                decreases topics.len() - k,
            {
                let ghost before = topic_ref_views(r@);
                let t = &topics[k];
                r.push(t);
                assert(topic_ref_views(r@) =~= before.push(t@));
                assert(topic_views(topics@).take(k + 1) =~= topic_views(topics@).take(k as int).push(
                    t@,
                ));
                k = k + 1;
            }
            assert(topic_views(topics@).take(topics.len() as int) =~= topic_views(topics@));
        },
    }
    assert(topic_ref_views(r@) =~= chosen_topics(summaries@, selection, topic_views(topics@)));
    r
}

/// The title of the topic rows: the chosen category's name, or `All topics`,
/// with a space on either side.
pub open spec fn chosen_title(summaries: Seq<CategorySummary>, selection: Option<usize>) -> Seq<char> {
    match selection {
        Some(i) => if i < summaries.len() {
            " "@ + summaries[i as int].name@ + " "@
        } else {
            " All topics "@
        },
        None => " All topics "@,
    }
}

/// The title of the topic rows.
pub fn selection_title(summaries: &Vec<CategorySummary>, selection: Option<usize>) -> (r: String)
    ensures
        r@ == chosen_title(summaries@, selection),
{
    match selection {
        Some(i) => {
            if i < summaries.len() {
                let mut r = String::from_str(" ");
                r.append(summaries[i].name.as_str());
                r.append(" ");
                r
            } else {
                String::from_str(" All topics ")
            }
        },
        None => String::from_str(" All topics "),
    }
}

/// How a topic row is emphasised: overdue rows first, then mastered topics,
/// then topics questioned lightly.
pub enum RowEmphasis {
    Overdue,
    Mastered,
    Light,
    Plain,
}

/// The emphasis of a topic's row at `now`.
pub open spec fn emphasis_of(t: TopicView, now: i64) -> RowEmphasis {
    if due_time(t) < now {
        RowEmphasis::Overdue
    } else {
        match depth_for(t.ease_factor, t.repetitions) {
            QuestionDepth::Skip => RowEmphasis::Mastered,
            QuestionDepth::Light => RowEmphasis::Light,
            QuestionDepth::Full => RowEmphasis::Plain,
        }
    }
}

/// An ease factor given in hundredths with two decimals, as `{:.2}` writes
/// it (250 is `2.50`).
pub open spec fn ease_two_decimals(hundredths: nat) -> Seq<char> {
    decimal_digits(hundredths / 100) + seq![
        '.',
        digit_char((hundredths % 100) / 10),
        digit_char(hundredths % 10),
    ]
}

/// The pattern of the dates in the overview, such as `Mar  5 2025`.
pub open spec fn date_pattern() -> Seq<char> {
    "%b %e %Y"@
}

proof fn lemma_date_pattern_plain()
    ensures
        plain_pattern(date_pattern()),
{
    reveal_strlit("%b %e %Y");
}

/// A row of the topics overview.
pub struct OverviewRow {
    pub name: String,
    pub categories: String,
    pub ease_factor: String,
    pub repetitions: String,
    pub next_review: String,
    pub emphasis: RowEmphasis,
}

/// A row of the topics overview as plain values.
pub struct OverviewRowView {
    pub name: Seq<char>,
    pub categories: Seq<char>,
    pub ease_factor: Seq<char>,
    pub repetitions: Seq<char>,
    pub next_review: Seq<char>,
    pub emphasis: RowEmphasis,
}

impl View for OverviewRow {
    type V = OverviewRowView;

    open spec fn view(&self) -> OverviewRowView {
        OverviewRowView {
            name: self.name@,
            categories: self.categories@,
            ease_factor: self.ease_factor@,
            repetitions: self.repetitions@,
            next_review: self.next_review@,
            emphasis: self.emphasis,
        }
    }
}

/// The row of a topic at `now`, as the category overview shows it beside
/// its table: its name; its categories joined by commas, or `-`; its ease
/// factor with two decimals, as `{:.2}` writes it; its repetitions; the date
/// of its next review, marked `(overdue)` when that moment is before `now`;
/// and its emphasis. (The topics list shows the ease factor with one
/// decimal, which rounds a floating-point value at ties and is not computed
/// here.)
pub open spec fn overview_cells(t: TopicView, now: i64) -> OverviewRowView {
    let next = time_text(next_review_time(t) as i64, date_pattern());
    OverviewRowView {
        name: t.name,
        categories: if t.categories.len() == 0 {
            "-"@
        } else {
            comma_joined(t.categories)
        },
        ease_factor: ease_two_decimals(t.ease_factor as nat),
        repetitions: decimal_digits(t.repetitions as nat),
        next_review: if due_time(t) < now {
            next + " (overdue)"@
        } else {
            next
        },
        emphasis: emphasis_of(t, now),
    }
}

fn categories_text(topic: &Topic) -> (r: String)
    ensures
        r@ == (if topic@.categories.len() == 0 {
            "-"@
        } else {
            comma_joined(topic@.categories)
        }),
{
    let names = &topic.categories.0;
    if names.len() == 0 {
        return String::from_str("-");
    }
    let ghost texts = topic@.categories;
    let mut r = String::new();
    let mut i: usize = 0;
    while i < names.len()
        invariant
            i <= names.len(),
            texts == topic@.categories,
            texts.len() == names.len(),
            forall|k: int| 0 <= k < names.len() ==> (#[trigger] names@[k])@ == texts[k],
            r@ == comma_joined(texts.take(i as int)),
        decreases names.len() - i,
    {
        if i > 0 {
            r.append(", ");
        }
        r.append(names[i].name.as_str());
        proof {
            let next = texts.take(i + 1);
            assert(next.drop_last() =~= texts.take(i as int));
            if i == 0 {
                assert(next =~= seq![texts[0]]);
            }
        }
        i = i + 1;
    }
    assert(texts.take(names.len() as int) =~= texts);
    r
}

fn ease_text_two_decimals(hundredths: u32) -> (r: String)
    ensures
        r@ == ease_two_decimals(hundredths as nat),
{
    let h = hundredths as u64;
    let mut r = decimal_text(h / 100);
    push_char(&mut r, '.');
    push_char(&mut r, digit((h % 100) / 10));
    push_char(&mut r, digit(h % 10));
    assert(r@ =~= ease_two_decimals(hundredths as nat));
    r
}

/// Whether the topic's next review is a moment that chrono holds.
pub open spec fn next_review_held(t: TopicView) -> bool {
    schedule_fits(t) && holds_moment(next_review_time(t) as i64)
}

/// The row of a topic in the overview.
pub fn overview_row(topic: &Topic, now: i64) -> (r: OverviewRow)
    requires
        next_review_held(topic@),
    ensures
        r@ == overview_cells(topic@, now),
{
    proof {
        lemma_date_pattern_plain();
    }
    let next = topic.next_review();
    let overdue = next < now;
    let mut next_review = time_string(next, "%b %e %Y");
    if overdue {
        next_review.append(" (overdue)");
    }
    let emphasis = if overdue {
        RowEmphasis::Overdue
    } else {
        match topic.question_depth() {
            QuestionDepth::Skip => RowEmphasis::Mastered,
            QuestionDepth::Light => RowEmphasis::Light,
            QuestionDepth::Full => RowEmphasis::Plain,
        }
    };
    OverviewRow {
        name: topic.name.clone(),
        categories: categories_text(topic),
        ease_factor: ease_text_two_decimals(topic.ease_factor),
        repetitions: decimal_text(topic.repetitions as u64),
        next_review,
        emphasis,
    }
}

/// The row of a topic in the overview, or `None` where its next review is
/// past the clock's range or not a moment that chrono holds.
pub fn overview_row_checked(topic: &Topic, now: i64) -> (r: Option<OverviewRow>)
    ensures
        r is Some <==> next_review_held(topic@),
        r matches Some(row) ==> row@ == overview_cells(topic@, now),
{
    match topic.next_review_checked() {
        Some(next) => {
            if moment_in_range(next) {
                Some(overview_row(topic, now))
            } else {
                None
            }
        },
        None => None,
    }
}

/// A text put into a sorted sequence: after every text that it does not
/// come before, so that equal texts keep their order.
pub open spec fn insert_sorted_text(s: Seq<Seq<char>>, x: Seq<char>) -> Seq<Seq<char>>
    decreases s.len(),
{
    if s.len() == 0 {
        seq![x]
    } else if text_less(x, s.last()) {
        insert_sorted_text(s.drop_last(), x).push(s.last())
    } else {
        s.push(x)
    }
}

/// Texts in increasing order, as a stable sort by `text_less` (the order of
/// `String`) leaves them.
pub open spec fn sorted_texts(s: Seq<Seq<char>>) -> Seq<Seq<char>>
    decreases s.len(),
{
    if s.len() == 0 {
        Seq::empty()
    } else {
        insert_sorted_text(sorted_texts(s.drop_last()), s.last())
    }
}

proof fn lemma_insert_sorted_text_at(s: Seq<Seq<char>>, x: Seq<char>, j: int)
    requires
        0 <= j <= s.len(),
        forall|k: int| j <= k < s.len() ==> text_less(x, #[trigger] s[k]),
        j == 0 || !text_less(x, s[j - 1]),
    ensures
        insert_sorted_text(s, x) == s.take(j).push(x) + s.skip(j),
    decreases s.len(),
{
    if s.len() == 0 {
        assert(s.take(j).push(x) + s.skip(j) =~= seq![x]);
    } else if text_less(x, s.last()) {
        assert(j < s.len());
        let front = s.drop_last();
        assert forall|k: int| j <= k < front.len() implies text_less(x, #[trigger] front[k]) by {
            assert(front[k] == s[k]);
        }
        if j > 0 {
            assert(front[j - 1] == s[j - 1]);
        }
        lemma_insert_sorted_text_at(front, x, j);
        assert((front.take(j).push(x) + front.skip(j)).push(s.last()) =~= s.take(j).push(x) + s.skip(j));
    } else {
        if j < s.len() {
            assert(text_less(x, s[s.len() - 1]));
        }
        assert(s.take(j).push(x) + s.skip(j) =~= s.push(x));
    }
}

/// Texts in increasing order; equal texts keep their order.
pub fn sort_texts(texts: &Vec<String>) -> (r: Vec<String>)
    ensures
        r@.map_values(|t: String| t@) == sorted_texts(texts@.map_values(|t: String| t@)),
{
    let ghost all = texts@.map_values(|t: String| t@);
    let mut out: Vec<String> = Vec::new();
    let mut keys: Vec<Vec<char>> = Vec::new();
    let mut i: usize = 0;
    while i < texts.len()
        invariant
            i <= texts.len(),
            all == texts@.map_values(|t: String| t@),
            out@.map_values(|t: String| t@) == sorted_texts(all.take(i as int)),
            keys.len() == out.len(),
            forall|k: int| 0 <= k < out.len() ==> (#[trigger] keys@[k])@ == out@[k]@,
        decreases texts.len() - i,
    {
        let ghost before = out@.map_values(|t: String| t@);
        let x = &texts[i];
        let key = chars_of(x.as_str());
        let mut j: usize = out.len();
        while j > 0 && chars_less(&key, &keys[j - 1])
            invariant
                j <= out.len(),
                keys.len() == out.len(),
                before == out@.map_values(|t: String| t@),
                key@ == x@,
                forall|k: int| 0 <= k < out.len() ==> (#[trigger] keys@[k])@ == out@[k]@,
                forall|k: int| j <= k < before.len() ==> text_less(x@, #[trigger] before[k]),
            decreases j,
        {
            assert(before[j - 1] == out@[j - 1]@);
            j = j - 1;
        }
        if j > 0 {
            assert(before[j - 1] == out@[j - 1]@);
        }
        proof {
            lemma_insert_sorted_text_at(before, x@, j as int);
        }
        out.insert(j, x.clone());
        keys.insert(j, key);
        assert(out@.map_values(|t: String| t@) =~= before.take(j as int).push(x@) + before.skip(j as int));
        assert forall|k: int| 0 <= k < out.len() implies (#[trigger] keys@[k])@ == out@[k]@ by {
            if k < j {
                assert(out@[k]@ == before[k]);
            } else if k > j {
                assert(out@[k]@ == before[k - 1]);
            }
        }
        proof {
            assert(all.take(i + 1).drop_last() =~= all.take(i as int));
            assert(all.take(i + 1).last() == x@);
        }
        i = i + 1;
    }
    assert(all.take(texts.len() as int) =~= all);
    out
}

/// The title of the topics list: ` Topics (total) ` with no filter active,
/// else ` Topics (shown/total) · ` followed by the active filters' names in
/// increasing order, joined by commas, and a space.
pub open spec fn filter_title_text(count: nat, total: nat, filters: Seq<Seq<char>>) -> Seq<char> {
    if filters.len() == 0 {
        " Topics ("@ + decimal_digits(total) + ") "@
    } else {
        " Topics ("@ + decimal_digits(count) + "/"@ + decimal_digits(total) + ") · "@ + comma_joined(
            sorted_texts(filters),
        ) + " "@
    }
}

/// The title of the topics list, for `count` topics shown of `total`, with
/// the named filters active.
pub fn filter_title(count: usize, total: usize, filters: &Vec<String>) -> (r: String)
    ensures
        r@ == filter_title_text(count as nat, total as nat, filters@.map_values(|t: String| t@)),
{
    if filters.len() == 0 {
        let mut r = String::from_str(" Topics (");
        r.append(decimal_text(total as u64).as_str());
        r.append(") ");
        return r;
    }
    let parts = sort_texts(filters);
    let ghost texts = parts@.map_values(|t: String| t@);
    let mut joined = String::new();
    let mut i: usize = 0;
    while i < parts.len()
        invariant
            i <= parts.len(),
            texts == parts@.map_values(|t: String| t@),
            joined@ == comma_joined(texts.take(i as int)),
        decreases parts.len() - i,
    {
        if i > 0 {
            joined.append(", ");
        }
        joined.append(parts[i].as_str());
        proof {
            let next = texts.take(i + 1);
            assert(next.drop_last() =~= texts.take(i as int));
            if i == 0 {
                assert(next =~= seq![texts[0]]);
            }
        }
        i = i + 1;
    }
    assert(texts.take(parts.len() as int) =~= texts);
    let mut r = String::from_str(" Topics (");
    r.append(decimal_text(count as u64).as_str());
    r.append("/");
    r.append(decimal_text(total as u64).as_str());
    r.append(") · ");
    r.append(joined.as_str());
    r.append(" ");
    r
}

/// A topic's row is marked overdue exactly when its last review plus its
/// interval in days lies strictly before `now`; otherwise it is marked
/// mastered after at least three repetitions with an ease factor above 2.5,
/// light after at least three repetitions with an ease factor from 2.0 to
/// 2.5, and plain in every other case. Only an overdue row's next review
/// date carries the `(overdue)` mark.
pub proof fn law_row_emphasis(t: TopicView, now: i64)
    ensures
        emphasis_of(t, now) is Overdue <==> t.reviewed_at + t.interval * 86400 < now,
        emphasis_of(t, now) is Mastered <==> (t.reviewed_at + t.interval * 86400 >= now
            && t.repetitions >= 3 && t.ease_factor > 250),
        emphasis_of(t, now) is Light <==> (t.reviewed_at + t.interval * 86400 >= now
            && t.repetitions >= 3 && 200 <= t.ease_factor <= 250),
        emphasis_of(t, now) is Plain <==> (t.reviewed_at + t.interval * 86400 >= now && (
        t.repetitions < 3 || t.ease_factor < 200)),
        overview_cells(t, now).next_review == (if t.reviewed_at + t.interval * 86400 < now {
            time_text(next_review_time(t) as i64, date_pattern()) + " (overdue)"@
        } else {
            time_text(next_review_time(t) as i64, date_pattern())
        }),
{
}

} // verus!
