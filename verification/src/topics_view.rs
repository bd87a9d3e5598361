//! What the dashboard's topics view computes before it draws: selections,
//! counts, bar widths, category groups and column text.
use vstd::prelude::*;
use vstd::string::{StrSliceExecFns, StringExecFns, StringSliceAdditionalSpecFns};
use vstd::utf8::{decode_utf8, encode_utf8_decode_utf8, is_char_boundary};

use crate::dashboard::{collect_sorted_categories, sorted_category_names, topic_category_names};
use crate::text::push_char;
use crate::tools::{string_views, topic_views};
use crate::topic::{
    depth_for, is_mastered, is_struggled, names_of, QuestionDepth, Topic, TopicView,
    SECONDS_IN_A_DAY,
};

verus! {

/// Moves a table's selection up: one row up, staying at the first; with no
/// selection, the first row.
pub fn update_selected_table_up(state: &mut Option<usize>)
    ensures
        *final(state) == (match *old(state) {
            Some(s) => Some(if s == 0 { 0 } else { (s - 1) as usize }),
            None => Some(0usize),
        }),
{
    match *state {
        Some(s) => {
            *state = Some(
                if s == 0 {
                    0
                } else {
                    s - 1
                },
            );
        },
        None => {
            *state = Some(0);
        },
    }
}

/// Moves a table's selection down in a table of `len` rows: one row down,
/// staying at the last; with no selection, the first row. An empty table
/// keeps its selection.
pub fn update_selected_table_down(state: &mut Option<usize>, len: usize)
    requires
        len > 0 ==> (*old(state) matches Some(s) ==> s < usize::MAX),
    ensures
        *final(state) == (if len == 0 {
            *old(state)
        } else {
            match *old(state) {
                Some(s) => Some(if s + 1 < len { (s + 1) as usize } else { s }),
                None => Some(0usize),
            }
        }),
{
    if len == 0 {
        return ;
    }
    match *state {
        Some(s) => {
            *state = Some(
                if s + 1 < len {
                    s + 1
                } else {
                    s
                },
            );
        },
        None => {
            *state = Some(0);
        },
    }
}

#[verifier::external_type_specification]
#[verifier::external_body]
pub struct ExSystemTime(std::time::SystemTime);

/// Calls `std::time::SystemTime::now`. The clock's reading is not stated.
#[verifier::external_body]
fn system_time_now() -> std::time::SystemTime {
    std::time::SystemTime::now()
}

/// Calls `SystemTime::duration_since` with the Unix epoch and converts the
/// elapsed time to its whole seconds (`Duration::as_secs`), or the error, for
/// a clock set before the epoch, to `()`. The reading is not stated.
#[verifier::external_body]
fn since_unix_epoch(t: std::time::SystemTime) -> Result<u64, ()> {
    t.duration_since(std::time::UNIX_EPOCH).map(|d| d.as_secs()).map_err(|_| ())
}

/// The seconds since the Unix epoch that a clock reading gives: the whole
/// seconds elapsed, or 0 for a clock set before the epoch.
pub fn epoch_seconds(reading: Result<u64, ()>) -> (r: u64)
    ensures
        r == match reading {
            Ok(s) => s,
            Err(_) => 0,
        },
{
    match reading {
        Ok(s) => s,
        Err(_) => 0,
    }
}

/// The seconds since the Unix epoch by the system clock, or 0 when the clock
/// is set before the epoch (as `epoch_seconds` gives them).
pub fn epoch_now() -> u64 {
    epoch_seconds(since_unix_epoch(system_time_now()))
}

/// `n` spaces.
pub open spec fn spaces(n: nat) -> Seq<char> {
    Seq::new(n, |i: int| ' ')
}

/// A cell of `width` columns: a text whose UTF-8 form is at least `width`
/// bytes long is cut to `width - 1` bytes and followed by a space; a shorter
/// text is padded with spaces to `width` characters.
pub open spec fn padded_cell(s: Seq<char>, bytes: Seq<u8>, width: usize) -> Seq<char> {
    if bytes.len() >= width {
        decode_utf8(bytes.take(width - 1)) + seq![' ']
    } else if s.len() < width {
        s + spaces((width - s.len()) as nat)
    } else {
        s
    }
}

/// Cuts or pads a text to a column of `width`. The cut is made in bytes and
/// must fall on a character boundary.
pub fn truncate_pad(s: &str, width: usize) -> (r: String)
    requires
        width >= 1,
        s.spec_bytes().len() <= usize::MAX,
        s.spec_bytes().len() >= width ==> is_char_boundary(s.spec_bytes(), width - 1),
    ensures
        r@ == padded_cell(s@, s.spec_bytes(), width),
{
    if s.len() >= width {
        let (head, _) = s.split_at(width - 1);
        proof {
            encode_utf8_decode_utf8(head@);
            assert(head.spec_bytes() =~= s.spec_bytes().take(width - 1));
        }
        let mut out = String::from_str(head);
        push_char(&mut out, ' ');
        out
    } else {
        let count = s.unicode_len();
        let mut out = String::from_str(s);
        if count < width {
            let mut k: usize = 0;
            while k < width - count
                invariant
                    count == s@.len(),
                    count < width,
                    k <= width - count,
                    out@ == s@ + spaces(k as nat),
                decreases width - count - k,
            {
                push_char(&mut out, ' ');
                k = k + 1;
                assert(out@ =~= s@ + spaces(k as nat));
            }
        }
        out
    }
}

/// Whether a topic belongs to a category in the topics view: the category
/// `Uncategorized` holds the topics without categories.
pub open spec fn in_category(t: TopicView, category: Seq<char>) -> bool {
    if category == "Uncategorized"@ {
        t.categories.len() == 0
    } else {
        t.categories.contains(category)
    }
}

/// The topics that belong to a category, in order.
pub open spec fn topics_in_category(topics: Seq<TopicView>, category: Seq<char>) -> Seq<TopicView>
    decreases topics.len(),
{
    if topics.len() == 0 {
        Seq::empty()
    } else {
        let front = topics_in_category(topics.drop_last(), category);
        if in_category(topics.last(), category) {
            front.push(topics.last())
        } else {
            front
        }
    }
}

/// The views of a sequence of topic references.
pub open spec fn topic_ref_views(topics: Seq<&Topic>) -> Seq<TopicView> {
    topics.map_values(|t: &Topic| t@)
}

fn has_category_named(topic: &Topic, name: &String) -> (r: bool)
    ensures
        r == topic.categories@.contains(name@),
{
    let mut i: usize = 0;
    while i < topic.categories.0.len()
        invariant
            i <= topic.categories.0.len(),
            forall|j: int| 0 <= j < i ==> topic.categories@[j] != name@,
        decreases topic.categories.0.len() - i,
    {
        if topic.categories.0[i].name == *name {
            assert(topic.categories@[i as int] == name@);
            return true;
        }
        i = i + 1;
    }
    false
}

/// The topics of a category, in order.
pub fn topics_for_category<'a>(topics: &'a Vec<Topic>, category: &str) -> (r: Vec<&'a Topic>)
    ensures
        topic_ref_views(r@) == topics_in_category(topic_views(topics@), category@),
{
    let ghost all = topic_views(topics@);
    let wanted = String::from_str(category);
    let uncategorized = String::from_str("Uncategorized");
    let is_uncategorized = wanted == uncategorized;
    let mut out: Vec<&'a Topic> = Vec::new();
    let mut i: usize = 0;
    while i < topics.len()
        invariant
            i <= topics.len(),
            all == topic_views(topics@),
            wanted@ == category@,
            is_uncategorized == (category@ == "Uncategorized"@),
            topic_ref_views(out@) == topics_in_category(all.take(i as int), category@),
        decreases topics.len() - i,
    {
        let t = &topics[i];
        let ghost before = topic_ref_views(out@);
        assert(all.take(i + 1).drop_last() =~= all.take(i as int));
        assert(all.take(i + 1).last() == t@);
        let belongs = if is_uncategorized {
            t.categories.0.len() == 0
        } else {
            has_category_named(t, &wanted)
        };
        if belongs {
            out.push(t);
            assert(topic_ref_views(out@) =~= before.push(t@));
        }
        i = i + 1;
    }
    assert(all.take(topics.len() as int) =~= all);
    out
}

/// How many topics satisfy a predicate.
pub open spec fn count_where(topics: Seq<TopicView>, p: spec_fn(TopicView) -> bool) -> nat
    decreases topics.len(),
{
    if topics.len() == 0 {
        0
    } else {
        count_where(topics.drop_last(), p) + if p(topics.last()) {
            1nat
        } else {
            0nat
        }
    }
}

proof fn lemma_count_where_bound(topics: Seq<TopicView>, p: spec_fn(TopicView) -> bool)
    ensures
        count_where(topics, p) <= topics.len(),
    decreases topics.len(),
{
    if topics.len() > 0 {
        lemma_count_where_bound(topics.drop_last(), p);
    }
}

/// The time at which a topic falls due: the last review plus the interval.
pub open spec fn due_time(t: TopicView) -> int {
    t.reviewed_at + t.interval * SECONDS_IN_A_DAY
}

/// Overdue in the statistics bar: due strictly before `now`.
pub open spec fn overdue_before(now: i64) -> spec_fn(TopicView) -> bool {
    |t: TopicView| due_time(t) < now
}

/// Due within the week from `now`.
pub open spec fn due_within_week(now: i64) -> spec_fn(TopicView) -> bool {
    |t: TopicView| now <= due_time(t) < now + 7 * SECONDS_IN_A_DAY
}

/// Whose questioning can be skipped.
pub open spec fn skip_depth() -> spec_fn(TopicView) -> bool {
    |t: TopicView| depth_for(t.ease_factor, t.repetitions) == QuestionDepth::Skip
}

/// Who need full questioning.
pub open spec fn full_depth() -> spec_fn(TopicView) -> bool {
    |t: TopicView| depth_for(t.ease_factor, t.repetitions) == QuestionDepth::Full
}

/// The counts of the statistics bar.
pub struct StatsBar {
    pub overdue: usize,
    pub due_this_week: usize,
    pub mastered: usize,
    pub struggling: usize,
}

/// The statistics bar's counts at `now`: overdue topics, topics due within
/// the week, topics whose questioning can be skipped, and topics that need
/// full questioning.
pub fn stats_bar(topics: &Vec<Topic>, now: i64) -> (r: StatsBar)
    requires
        now + 7 * SECONDS_IN_A_DAY <= i64::MAX,
        forall|i: int| 0 <= i < topics.len() ==> due_time(#[trigger] topics@[i]@) <= i64::MAX,
    ensures
        r.overdue == count_where(topic_views(topics@), overdue_before(now)),
        r.due_this_week == count_where(topic_views(topics@), due_within_week(now)),
        r.mastered == count_where(topic_views(topics@), skip_depth()),
        r.struggling == count_where(topic_views(topics@), full_depth()),
{
    let ghost all = topic_views(topics@);
    let week_end = now + 7 * SECONDS_IN_A_DAY;
    let mut overdue: usize = 0;
    let mut due_this_week: usize = 0;
    let mut mastered: usize = 0;
    let mut struggling: usize = 0;
    let mut i: usize = 0;
    while i < topics.len()
        invariant
            i <= topics.len(),
            all == topic_views(topics@),
            week_end == now + 7 * SECONDS_IN_A_DAY,
            forall|k: int| 0 <= k < topics.len() ==> due_time(#[trigger] topics@[k]@) <= i64::MAX,
            overdue == count_where(all.take(i as int), overdue_before(now)),
            due_this_week == count_where(all.take(i as int), due_within_week(now)),
            mastered == count_where(all.take(i as int), skip_depth()),
            struggling == count_where(all.take(i as int), full_depth()),
        decreases topics.len() - i,
    {
        let t = &topics[i];
        assert(all.take(i + 1).drop_last() =~= all.take(i as int));
        assert(all.take(i + 1).last() == t@);
        proof {
            lemma_count_where_bound(all.take(i as int), overdue_before(now));
            lemma_count_where_bound(all.take(i as int), due_within_week(now));
            lemma_count_where_bound(all.take(i as int), skip_depth());
            lemma_count_where_bound(all.take(i as int), full_depth());
        }
        assert(due_time(topics@[i as int]@) <= i64::MAX);
        let next = t.reviewed_at + (t.interval as i64) * SECONDS_IN_A_DAY;
        if next < now {
            overdue = overdue + 1;
        }
        if next >= now && next < week_end {
            due_this_week = due_this_week + 1;
        }
        let depth = t.question_depth();
        if depth == QuestionDepth::Skip {
            mastered = mastered + 1;
        }
        if depth == QuestionDepth::Full {
            struggling = struggling + 1;
        }
        i = i + 1;
    }
    assert(all.take(topics.len() as int) =~= all);
    StatsBar { overdue, due_this_week, mastered, struggling }
}

/// How many of the topics of a category are mastered, being learnt, and
/// struggled with: the widths of the bar's three parts before scaling.
pub struct CategoryCounts {
    pub total: usize,
    pub mastered: usize,
    pub learning: usize,
}

/// Light questioning.
pub open spec fn light_depth() -> spec_fn(TopicView) -> bool {
    |t: TopicView| depth_for(t.ease_factor, t.repetitions) == QuestionDepth::Light
}

/// The counts for the categories chart: the category's topics, those whose
/// The largest number of topics in one of the categories, and at least
/// one: the count that the longest bar of the chart stands for.
pub open spec fn largest_category_count(topics: Seq<TopicView>, categories: Seq<Seq<char>>) -> nat
    decreases categories.len(),
{
    if categories.len() == 0 {
        1
    } else {
        let rest = largest_category_count(topics, categories.drop_last());
        let n = topics_in_category(topics, categories.last()).len();
        if n > rest {
            n
        } else {
            rest
        }
    }
}

/// The largest number of topics in one of the categories, and at least one.
pub fn max_category_count(topics: &Vec<Topic>, categories: &Vec<String>) -> (r: usize)
    ensures
        r == largest_category_count(topic_views(topics@), string_views(categories@)),
{
    let ghost names = string_views(categories@);
    let mut best: usize = 1;
    let mut i: usize = 0;
    while i < categories.len()
        invariant
            i <= categories.len(),
            names == string_views(categories@),
            best == largest_category_count(topic_views(topics@), names.take(i as int)),
        decreases categories.len() - i,
    {
        let chosen = topics_for_category(topics, categories[i].as_str());
        assert(names.take(i + 1).drop_last() =~= names.take(i as int));
        assert(names.take(i + 1).last() == categories@[i as int]@);
        assert(topic_ref_views(chosen@).len() == chosen@.len());
        if chosen.len() > best {
            best = chosen.len();
        }
        i = i + 1;
    }
    assert(names.take(categories.len() as int) =~= names);
    best
}

/// questioning can be skipped, and those that need light questioning.
pub fn category_counts(topics: &Vec<&Topic>) -> (r: CategoryCounts)
    ensures
        r.total == topics.len(),
        r.mastered == count_where(topic_ref_views(topics@), skip_depth()),
        r.learning == count_where(topic_ref_views(topics@), light_depth()),
        r.mastered + r.learning <= r.total,
{
    let ghost all = topic_ref_views(topics@);
    let mut mastered: usize = 0;
    let mut learning: usize = 0;
    let mut i: usize = 0;
    while i < topics.len()
        invariant
            i <= topics.len(),
            all == topic_ref_views(topics@),
            mastered == count_where(all.take(i as int), skip_depth()),
            learning == count_where(all.take(i as int), light_depth()),
            mastered + learning <= i,
        decreases topics.len() - i,
    {
        let t = topics[i];
        assert(all.take(i + 1).drop_last() =~= all.take(i as int));
        assert(all.take(i + 1).last() == t@);
        let depth = t.question_depth();
        if depth == QuestionDepth::Skip {
            mastered = mastered + 1;
        } else if depth == QuestionDepth::Light {
            learning = learning + 1;
        }
        i = i + 1;
    }
    assert(all.take(topics.len() as int) =~= all);
    CategoryCounts { total: topics.len(), mastered, learning }
}

/// The widths of a category's bar: mastered, learning and struggling parts.
pub struct BarWidths {
    pub mastered: usize,
    pub learning: usize,
    pub struggling: usize,
}

/// The columns of the whole bar: `total * bar_max / max_count`, rounded down.
pub open spec fn bar_total(total: int, bar_max: int, max_count: int) -> int {
    total * bar_max / max_count
}

/// A part's share of the bar: `part * bar / total`, rounded down.
pub open spec fn bar_share(part: int, bar: int, total: int) -> int {
    part * bar / total
}

proof fn lemma_bar_fits(total: int, bar_max: int, max_count: int)
    requires
        0 <= total <= max_count,
        max_count > 0,
        bar_max >= 0,
    ensures
        0 <= bar_total(total, bar_max, max_count) <= bar_max,
{
    assert(total * bar_max <= max_count * bar_max) by (nonlinear_arith)
        requires
            0 <= total <= max_count,
            bar_max >= 0,
    ;
    assert(total * bar_max / max_count <= (max_count * bar_max) / max_count) by (nonlinear_arith)
        requires
            total * bar_max <= max_count * bar_max,
            max_count > 0,
    ;
    assert((max_count * bar_max) / max_count == bar_max) by (nonlinear_arith)
        requires
            max_count > 0,
    ;
    assert(0 <= total * bar_max / max_count) by (nonlinear_arith)
        requires
            total >= 0,
            bar_max >= 0,
            max_count > 0,
    ;
}

proof fn lemma_shares_fit(m: int, l: int, bar: int, total: int)
    requires
        m >= 0,
        l >= 0,
        bar >= 0,
        m + l <= total,
        total > 0,
    ensures
        0 <= bar_share(m, bar, total),
        0 <= bar_share(l, bar, total),
        bar_share(m, bar, total) + bar_share(l, bar, total) <= bar,
        m * bar <= total * bar,
        l * bar <= total * bar,
{
    assert(m * bar <= total * bar) by (nonlinear_arith)
        requires
            0 <= m <= total,
            bar >= 0,
    ;
    assert(l * bar <= total * bar) by (nonlinear_arith)
        requires
            0 <= l <= total,
            bar >= 0,
    ;
    assert(m * bar / total + l * bar / total <= (m * bar + l * bar) / total) by (nonlinear_arith)
        requires
            m >= 0,
            l >= 0,
            bar >= 0,
            total > 0,
    ;
    assert(m * bar + l * bar <= total * bar) by (nonlinear_arith)
        requires
            m + l <= total,
            bar >= 0,
    ;
    assert((m * bar + l * bar) / total <= (total * bar) / total) by (nonlinear_arith)
        requires
            m * bar + l * bar <= total * bar,
            total > 0,
            m >= 0,
            l >= 0,
            bar >= 0,
    ;
    assert((total * bar) / total == bar) by (nonlinear_arith)
        requires
            total > 0,
    ;
    assert(0 <= m * bar / total) by (nonlinear_arith)
        requires
            m >= 0,
            bar >= 0,
            total > 0,
    ;
    assert(0 <= l * bar / total) by (nonlinear_arith)
        requires
            l >= 0,
            bar >= 0,
            total > 0,
    ;
}

/// Scales a category's bar: the whole bar is `total * bar_max / max_count`
/// columns, the mastered and learning parts take their share of it rounded
/// down, and the struggling part the rest.
pub fn category_bar_widths(counts: &CategoryCounts, bar_max: usize, max_count: usize) -> (r: BarWidths)
    requires
        max_count > 0,
        counts.mastered + counts.learning <= counts.total,
        counts.total * bar_max <= usize::MAX,
        counts.total <= max_count,
    ensures
        r.mastered + r.learning + r.struggling == bar_total(
            counts.total as int,
            bar_max as int,
            max_count as int,
        ),
        counts.total > 0 ==> r.mastered == bar_share(
            counts.mastered as int,
            bar_total(counts.total as int, bar_max as int, max_count as int),
            counts.total as int,
        ),
        counts.total > 0 ==> r.learning == bar_share(
            counts.learning as int,
            bar_total(counts.total as int, bar_max as int, max_count as int),
            counts.total as int,
        ),
        counts.total == 0 ==> r.mastered == 0 && r.learning == 0,
        r.mastered + r.learning + r.struggling <= bar_max,
        ({
            let bar: int = counts.total * bar_max / (max_count as int);
            counts.total > 0 ==> r.mastered == counts.mastered * bar / (counts.total as int)
                && r.learning == counts.learning * bar / (counts.total as int) && r.struggling == bar
                - r.mastered - r.learning
        }),
{
    let total = counts.total;
    let product = total * bar_max;
    let bar = product / max_count;
    proof {
        lemma_bar_fits(total as int, bar_max as int, max_count as int);
    }
    if total == 0 {
        return BarWidths { mastered: 0, learning: 0, struggling: bar };
    }
    let m = counts.mastered;
    let l = counts.learning;
    proof {
        lemma_shares_fit(m as int, l as int, bar as int, total as int);
        assert(total * bar <= total * bar_max) by (nonlinear_arith)
            requires
                bar <= bar_max,
                total >= 0,
        ;
    }
    let bar_mastered = (m * bar) / total;
    let bar_learning = (l * bar) / total;
    BarWidths {
        mastered: bar_mastered,
        learning: bar_learning,
        struggling: bar - bar_mastered - bar_learning,
    }
}

/// The first row to show so that the row at `cursor` is visible in `visible`
/// rows.
pub fn chart_scroll(cursor: usize, visible: usize) -> (r: usize)
    requires
        visible > 0 || cursor < usize::MAX,
    ensures
        r == (if cursor >= visible {
            cursor - visible + 1
        } else {
            0
        }),
        visible > 0 ==> r <= cursor && cursor < r + visible,
{
    if cursor >= visible {
        cursor - visible + 1
    } else {
        0
    }
}

/// The height of the categories chart: two rows of border around one row
/// per category, between 4 and 12 rows. The count is converted with `as u16`.
pub fn chart_height(category_count: usize) -> (r: u16)
    requires
        (category_count as u16) + 2 <= u16::MAX,
    ensures
        r == (if (category_count as u16) + 2 < 4 {
            4
        } else if (category_count as u16) + 2 > 12 {
            12
        } else {
            (category_count as u16) + 2
        }),
        4 <= r <= 12,
{
    let h = (category_count as u16) + 2;
    if h < 4 {
        4
    } else if h > 12 {
        12
    } else {
        h
    }
}

/// The name of the group of topics without categories.
pub open spec fn uncategorized() -> Seq<char> {
    "Uncategorized"@
}

/// A topic repeated once for each of its categories named `name`.
pub open spec fn repeat_for_name(t: TopicView, categories: Seq<Seq<char>>, name: Seq<char>) -> Seq<TopicView>
    decreases categories.len(),
{
    if categories.len() == 0 {
        Seq::empty()
    } else {
        let front = repeat_for_name(t, categories.drop_last(), name);
        if categories.last() == name {
            front.push(t)
        } else {
            front
        }
    }
}

/// The topics listed under a name in the categories summary, in order: a
/// topic without categories under `Uncategorized`, any other topic once per
/// category of that name.
pub open spec fn grouped_topics(topics: Seq<TopicView>, name: Seq<char>) -> Seq<TopicView>
    decreases topics.len(),
{
    if topics.len() == 0 {
        Seq::empty()
    } else {
        let t = topics.last();
        grouped_topics(topics.drop_last(), name) + if t.categories.len() == 0 {
            if name == uncategorized() {
                seq![t]
            } else {
                Seq::empty()
            }
        } else {
            repeat_for_name(t, t.categories, name)
        }
    }
}

/// A sequence of names without a given name.
pub open spec fn without(names: Seq<Seq<char>>, name: Seq<char>) -> Seq<Seq<char>>
    decreases names.len(),
{
    if names.len() == 0 {
        Seq::empty()
    } else {
        let front = without(names.drop_last(), name);
        if names.last() == name {
            front
        } else {
            front.push(names.last())
        }
    }
}

/// Whether the summary has an `Uncategorized` group: some topic has no
/// category, or some topic has a category of that name.
pub open spec fn has_uncategorized_group(topics: Seq<TopicView>) -> bool {
    ||| exists|i: int| 0 <= i < topics.len() && (#[trigger] topics[i]).categories.len() == 0
    ||| topic_category_names(topics).contains(uncategorized())
}

/// The names of the summary's groups: the category names in increasing
/// order, and `Uncategorized` last when there is such a group.
pub open spec fn summary_names(topics: Seq<TopicView>) -> Seq<Seq<char>> {
    without(sorted_category_names(topics), uncategorized()) + if has_uncategorized_group(topics) {
        seq![uncategorized()]
    } else {
        Seq::empty()
    }
}

/// A category and its topics.
pub struct CategorySummary<'a> {
    pub name: String,
    pub topics: Vec<&'a Topic>,
}

/// The names of a sequence of summaries.
pub open spec fn summary_name_views(summaries: Seq<CategorySummary>) -> Seq<Seq<char>> {
    summaries.map_values(|c: CategorySummary| c.name@)
}

fn grouped<'a>(topics: &'a Vec<Topic>, name: &String) -> (r: Vec<&'a Topic>)
    ensures
        topic_ref_views(r@) == grouped_topics(topic_views(topics@), name@),
{
    let ghost all = topic_views(topics@);
    let uncategorized_name = String::from_str("Uncategorized");
    let is_uncategorized = *name == uncategorized_name;
    let mut out: Vec<&'a Topic> = Vec::new();
    let mut i: usize = 0;
    while i < topics.len()
        invariant
            i <= topics.len(),
            all == topic_views(topics@),
            is_uncategorized == (name@ == uncategorized()),
            topic_ref_views(out@) == grouped_topics(all.take(i as int), name@),
        decreases topics.len() - i,
    {
        let t = &topics[i];
        let ghost before = topic_ref_views(out@);
        assert(all.take(i + 1).drop_last() =~= all.take(i as int));
        assert(all.take(i + 1).last() == t@);
        if t.categories.0.len() == 0 {
            if is_uncategorized {
                out.push(t);
                assert(topic_ref_views(out@) =~= before + seq![t@]);
            } else {
                assert(topic_ref_views(out@) =~= before + Seq::<TopicView>::empty());
            }
        } else {
            let mut j: usize = 0;
            assert(topic_ref_views(out@) =~= before + repeat_for_name(
                t@,
                t.categories@.take(0),
                name@,
            ));
            while j < t.categories.0.len()
                invariant
                    j <= t.categories.0.len(),
                    topic_ref_views(out@) == before + repeat_for_name(
                        t@,
                        t.categories@.take(j as int),
                        name@,
                    ),
                decreases t.categories.0.len() - j,
            {
                let ghost mid = topic_ref_views(out@);
                assert(t.categories@.take(j + 1).drop_last() =~= t.categories@.take(j as int));
                assert(t.categories@.take(j + 1).last() == t.categories@[j as int]);
                if t.categories.0[j].name == *name {
                    out.push(t);
                    assert(topic_ref_views(out@) =~= mid.push(t@));
                }
                j = j + 1;
            }
            assert(t.categories@.take(t.categories.0.len() as int) =~= t.categories@);
        }
        i = i + 1;
    }
    assert(all.take(topics.len() as int) =~= all);
    out
}

/// The categories summary: one group per category name in increasing order,
/// then `Uncategorized` for the topics without categories, each group with
/// its topics in order.
pub fn build_summaries<'a>(topics: &'a Vec<Topic>) -> (r: Vec<CategorySummary<'a>>)
    ensures
        summary_name_views(r@) == summary_names(topic_views(topics@)),
        forall|k: int|
            0 <= k < r.len() ==> topic_ref_views((#[trigger] r@[k]).topics@) == grouped_topics(
                topic_views(topics@),
                r@[k].name@,
            ),
{
    let ghost all = topic_views(topics@);
    let sorted = collect_sorted_categories(topics);
    let ghost names = names_of(sorted@);
    let uncategorized_name = String::from_str("Uncategorized");
    let mut out: Vec<CategorySummary<'a>> = Vec::new();
    let mut saw_uncategorized = false;
    let mut i: usize = 0;
    while i < sorted.len()
        invariant
            i <= sorted.len(),
            all == topic_views(topics@),
            names == names_of(sorted@),
            names == sorted_category_names(all),
            uncategorized_name@ == uncategorized(),
            summary_name_views(out@) == without(names.take(i as int), uncategorized()),
            saw_uncategorized == names.take(i as int).contains(uncategorized()),
            forall|k: int|
                0 <= k < out.len() ==> topic_ref_views((#[trigger] out@[k]).topics@) == grouped_topics(
                    all,
                    out@[k].name@,
                ),
        decreases sorted.len() - i,
    {
        let ghost before = summary_name_views(out@);
        assert(names.take(i + 1).drop_last() =~= names.take(i as int));
        assert(names.take(i + 1).last() == sorted@[i as int]@);
        if sorted[i].name == uncategorized_name {
            saw_uncategorized = true;
            assert(names.take(i + 1)[i as int] == uncategorized());
        } else {
            let group = grouped(topics, &sorted[i].name);
            out.push(CategorySummary { name: sorted[i].name.clone(), topics: group });
            assert(summary_name_views(out@) =~= before.push(sorted@[i as int]@));
            assert forall|x: Seq<char>| names.take(i + 1).contains(x) && x == uncategorized() implies names.take(
                i as int,
            ).contains(x) by {
                let k = names.take(i + 1).index_of(x);
                assert(k < i);
                assert(names.take(i as int)[k] == x);
            }
        }
        proof {
            if names.take(i as int).contains(uncategorized()) {
                let k = names.take(i as int).index_of(uncategorized());
                assert(names.take(i + 1)[k] == uncategorized());
            }
        }
        i = i + 1;
    }
    assert(names.take(sorted.len() as int) =~= names);
    let mut any_without_categories = false;
    let mut j: usize = 0;
    while j < topics.len()
        invariant
            j <= topics.len(),
            all == topic_views(topics@),
            any_without_categories == exists|m: int| 0 <= m < j && (#[trigger] all[m]).categories.len() == 0,
        decreases topics.len() - j,
    {
        if topics[j].categories.0.len() == 0 {
            any_without_categories = true;
            assert(all[j as int].categories.len() == 0);
        }
        j = j + 1;
    }
    proof {
        assert(names.to_set() == topic_category_names(all));
        if names.contains(uncategorized()) {
            assert(names.to_set().contains(uncategorized()));
        }
        if topic_category_names(all).contains(uncategorized()) {
            assert(names.to_set().contains(uncategorized()));
        }
        assert(saw_uncategorized == topic_category_names(all).contains(uncategorized()));
    }
    if any_without_categories || saw_uncategorized {
        let ghost before = summary_name_views(out@);
        let group = grouped(topics, &uncategorized_name);
        out.push(CategorySummary { name: uncategorized_name, topics: group });
        assert(summary_name_views(out@) =~= before + seq![uncategorized()]);
    } else {
        assert(summary_name_views(out@) =~= summary_name_views(out@) + Seq::<Seq<char>>::empty());
    }
    out
}

/// A week in seconds.
pub const SECONDS_IN_A_WEEK: i64 = 604800;

/// The time seven days before `now`.
pub fn seven_days_ago(now: i64) -> (r: i64)
    requires
        now >= i64::MIN + SECONDS_IN_A_WEEK,
    ensures
        r == now - 7 * SECONDS_IN_A_DAY,
{
    now - SECONDS_IN_A_WEEK
}

/// Due at or before `now`.
pub open spec fn due_by(now: i64) -> spec_fn(TopicView) -> bool {
    |t: TopicView| now >= due_time(t)
}

/// Last reviewed between `start` and `end`, both included.
pub open spec fn reviewed_between(start: i64, end: i64) -> spec_fn(TopicView) -> bool {
    |t: TopicView| start <= t.reviewed_at && t.reviewed_at <= end
}

/// Mastered.
pub open spec fn mastered_topic() -> spec_fn(TopicView) -> bool {
    |t: TopicView| is_mastered(t)
}

/// Struggled with.
pub open spec fn struggled_topic() -> spec_fn(TopicView) -> bool {
    |t: TopicView| is_struggled(t)
}

/// The counts of the statistics panel.
pub struct StatsPanel {
    pub total: usize,
    pub overdue: usize,
    pub last_7_days: usize,
    pub mastered: usize,
    pub struggling: usize,
}

/// The statistics panel's counts: all topics, those overdue at `now`, those
/// reviewed between `week_ago` and `now`, and those mastered or struggled with.
pub fn stats_panel(topics: &Vec<Topic>, now: i64, week_ago: i64) -> (r: StatsPanel)
    requires
        forall|i: int| 0 <= i < topics.len() ==> due_time(#[trigger] topics@[i]@) <= i64::MAX,
    ensures
        r.total == topics.len(),
        r.overdue == count_where(topic_views(topics@), due_by(now)),
        r.last_7_days == count_where(topic_views(topics@), reviewed_between(week_ago, now)),
        r.mastered == count_where(topic_views(topics@), mastered_topic()),
        r.struggling == count_where(topic_views(topics@), struggled_topic()),
{
    let ghost all = topic_views(topics@);
    let mut overdue: usize = 0;
    let mut last_7_days: usize = 0;
    let mut mastered: usize = 0;
    let mut struggling: usize = 0;
    let mut i: usize = 0;
    while i < topics.len()
        invariant
            i <= topics.len(),
            all == topic_views(topics@),
            forall|k: int| 0 <= k < topics.len() ==> due_time(#[trigger] topics@[k]@) <= i64::MAX,
            overdue == count_where(all.take(i as int), due_by(now)),
            last_7_days == count_where(all.take(i as int), reviewed_between(week_ago, now)),
            mastered == count_where(all.take(i as int), mastered_topic()),
            struggling == count_where(all.take(i as int), struggled_topic()),
        decreases topics.len() - i,
    {
        let t = &topics[i];
        assert(all.take(i + 1).drop_last() =~= all.take(i as int));
        assert(all.take(i + 1).last() == t@);
        proof {
            lemma_count_where_bound(all.take(i as int), due_by(now));
            lemma_count_where_bound(all.take(i as int), reviewed_between(week_ago, now));
            lemma_count_where_bound(all.take(i as int), mastered_topic());
            lemma_count_where_bound(all.take(i as int), struggled_topic());
        }
        assert(due_time(topics@[i as int]@) <= i64::MAX);
        if t.is_overdue(now) {
            overdue = overdue + 1;
        }
        if t.is_between(week_ago, now) {
            last_7_days = last_7_days + 1;
        }
        if t.mastered() {
            mastered = mastered + 1;
        }
        if t.struggled() {
            struggling = struggling + 1;
        }
        i = i + 1;
    }
    assert(all.take(topics.len() as int) =~= all);
    StatsPanel { total: topics.len(), overdue, last_7_days, mastered, struggling }
}

/// Has a category of the given name.
pub open spec fn has_category_name(name: Seq<char>) -> spec_fn(TopicView) -> bool {
    |t: TopicView| t.categories.contains(name)
}

/// Has a category of the given name and is mastered, being learnt, or
/// struggled with.
pub open spec fn category_and(name: Seq<char>, state: spec_fn(TopicView) -> bool) -> spec_fn(TopicView) -> bool {
    |t: TopicView| t.categories.contains(name) && state(t)
}

/// Being learnt.
pub open spec fn learning_topic() -> spec_fn(TopicView) -> bool {
    |t: TopicView| crate::topic::is_learning(t)
}

/// A category's row in the categories panel: its topics, and how many of
/// them are mastered, being learnt, and struggled with.
pub struct CategoryBreakdown {
    pub total: usize,
    pub mastered: usize,
    pub learning: usize,
    pub struggled: usize,
}

/// The categories panel's counts for the category named `name`.
pub fn category_breakdown(topics: &Vec<Topic>, name: &String) -> (r: CategoryBreakdown)
    ensures
        r.total == count_where(topic_views(topics@), has_category_name(name@)),
        r.mastered == count_where(topic_views(topics@), category_and(name@, mastered_topic())),
        r.learning == count_where(topic_views(topics@), category_and(name@, learning_topic())),
        r.struggled == count_where(topic_views(topics@), category_and(name@, struggled_topic())),
        r.mastered + r.learning + r.struggled == r.total,
{
    let ghost all = topic_views(topics@);
    let mut total: usize = 0;
    let mut mastered: usize = 0;
    let mut learning: usize = 0;
    let mut struggled: usize = 0;
    let mut i: usize = 0;
    while i < topics.len()
        invariant
            i <= topics.len(),
            all == topic_views(topics@),
            total == count_where(all.take(i as int), has_category_name(name@)),
            mastered == count_where(all.take(i as int), category_and(name@, mastered_topic())),
            learning == count_where(all.take(i as int), category_and(name@, learning_topic())),
            struggled == count_where(all.take(i as int), category_and(name@, struggled_topic())),
            mastered + learning + struggled == total,
            total <= i,
        decreases topics.len() - i,
    {
        let t = &topics[i];
        assert(all.take(i + 1).drop_last() =~= all.take(i as int));
        assert(all.take(i + 1).last() == t@);
        if has_category_named(t, name) {
            total = total + 1;
            if t.mastered() {
                mastered = mastered + 1;
            } else if t.struggled() {
                struggled = struggled + 1;
            } else {
                learning = learning + 1;
            }
        }
        i = i + 1;
    }
    assert(all.take(topics.len() as int) =~= all);
    CategoryBreakdown { total, mastered, learning, struggled }
}

/// The statistics bar's counts at `now`, stated from the topics' records: a
/// topic is overdue when its last review plus its interval in days comes
/// strictly before `now`, and due this week when that moment lies from `now`
/// up to (not including) seven days later.
pub proof fn law_stats_bar_counts(topics: Seq<TopicView>, now: i64)
    ensures
        count_where(topics, overdue_before(now)) == topics.filter(
            |t: TopicView| t.reviewed_at + t.interval * 86400 < now,
        ).len(),
        count_where(topics, due_within_week(now)) == topics.filter(
            |t: TopicView|
                now <= t.reviewed_at + t.interval * 86400 && t.reviewed_at + t.interval * 86400 < now
                    + 604800,
        ).len(),
        count_where(topics, skip_depth()) == topics.filter(
            |t: TopicView| t.repetitions >= 3 && t.ease_factor > 250,
        ).len(),
        count_where(topics, full_depth()) == topics.filter(
            |t: TopicView| t.repetitions < 3 || t.ease_factor < 200,
        ).len(),
    decreases topics.len(),
{
    reveal(Seq::filter);
    if topics.len() > 0 {
        law_stats_bar_counts(topics.drop_last(), now);
    }
}

/// The statistics panel's counts, stated from the topics' records: a topic
/// is overdue once `now` has reached its last review plus its interval in
/// days; it counts for the last seven days when its last review lies from
/// `week_ago` to `now`, both included; it is mastered after at least three
/// repetitions with an ease factor above 2.5; and it is struggled with when
/// its ease factor is below 2.0, whatever its repetitions.
pub proof fn law_stats_panel_counts(topics: Seq<TopicView>, now: i64, week_ago: i64)
    ensures
        count_where(topics, due_by(now)) == topics.filter(
            |t: TopicView| t.reviewed_at + t.interval * 86400 <= now,
        ).len(),
        count_where(topics, reviewed_between(week_ago, now)) == topics.filter(
            |t: TopicView| week_ago <= t.reviewed_at && t.reviewed_at <= now,
        ).len(),
        count_where(topics, mastered_topic()) == topics.filter(
            |t: TopicView| t.repetitions >= 3 && t.ease_factor > 250,
        ).len(),
        count_where(topics, struggled_topic()) == topics.filter(|t: TopicView| t.ease_factor < 200).len(),
    decreases topics.len(),
{
    reveal(Seq::filter);
    if topics.len() > 0 {
        law_stats_panel_counts(topics.drop_last(), now, week_ago);
    }
}

} // verus!
