//! Topics of knowledge, their categories, and what the review schedule says of them.
use vstd::prelude::*;

use crate::sm2::{sm2, reviewed, ease_change};
use crate::text::{lowercase, lowercased};
use crate::trigram::{texts_are_similar, trigram_similarity};

verus! {

/// Seconds in a day.
pub const SECONDS_IN_A_DAY: i64 = 86400;

/// A category that a topic belongs to.
pub struct Category {
    pub name: String,
}

impl View for Category {
    type V = Seq<char>;

    open spec fn view(&self) -> Seq<char> {
        self.name@
    }
}

impl Clone for Category {
    fn clone(&self) -> (r: Self)
        ensures
            r@ == self@,
    {
        Category { name: self.name.clone() }
    }
}

/// The names of a sequence of categories.
pub open spec fn names_of(categories: Seq<Category>) -> Seq<Seq<char>> {
    categories.map_values(|c: Category| c@)
}

/// The categories of a topic.
pub struct TopicCategories(pub Vec<Category>);

impl View for TopicCategories {
    type V = Seq<Seq<char>>;

    open spec fn view(&self) -> Seq<Seq<char>> {
        names_of(self.0@)
    }
}

impl Clone for TopicCategories {
    fn clone(&self) -> (r: Self)
        ensures
            r@ == self@,
    {
        let mut out: Vec<Category> = Vec::new();
        let mut i: usize = 0;
        while i < self.0.len()
            invariant
                i <= self.0.len(),
                names_of(out@) == self@.take(i as int),
            decreases self.0.len() - i,
        {
            let c = self.0[i].clone();
            let ghost before = names_of(out@);
            out.push(c);
            assert(names_of(out@) =~= before.push(c@));
            assert(self@.take(i + 1) =~= self@.take(i as int).push(self@[i as int]));
            i = i + 1;
        }
        assert(self@.take(self.0.len() as int) =~= self@);
        TopicCategories(out)
    }
}

/// The names that merging the given category names yields: each name
/// lowercased, so that names that differ only in case are one category.
pub open spec fn merged_categories(names: Seq<Seq<char>>) -> Set<Seq<char>> {
    Set::new(|n: Seq<char>| exists|j: int| 0 <= j < names.len() && n == lowercased(names[j]))
}

fn contains_name(categories: &Vec<Category>, name: &String) -> (r: bool)
    ensures
        r == names_of(categories@).contains(name@),
{
    let ghost names = names_of(categories@);
    let mut i: usize = 0;
    while i < categories.len()
        invariant
            i <= categories.len(),
            names == names_of(categories@),
            forall|j: int| 0 <= j < i ==> names[j] != name@,
        decreases categories.len() - i,
    {
        if categories[i].name == *name {
            assert(names[i as int] == name@);
            return true;
        }
        i = i + 1;
    }
    false
}

impl TopicCategories {
    /// Merges category names case-insensitively: every name is lowercased and
    /// each lowercased name is kept once. The order of the result is not
    /// significant; here names keep the order in which they first occur.
    pub fn new(categories: Vec<String>) -> (r: TopicCategories)
        ensures
            r@.no_duplicates(),
            r@.to_set() == merged_categories(categories@.map_values(|s: String| s@)),
    {
        let ghost input = categories@.map_values(|s: String| s@);
        let mut out: Vec<Category> = Vec::new();
        let mut i: usize = 0;
        while i < categories.len()
            invariant
                i <= categories.len(),
                input == categories@.map_values(|s: String| s@),
                names_of(out@).no_duplicates(),
                forall|n: Seq<char>|
                    names_of(out@).contains(n) <==> exists|j: int|
                        0 <= j < i && n == lowercased(input[j]),
            decreases categories.len() - i,
        {
            let ghost before = names_of(out@);
            let lower = lowercase(categories[i].as_str());
            assert(lower@ == lowercased(input[i as int]));
            if !contains_name(&out, &lower) {
                out.push(Category { name: lower });
                assert(names_of(out@) =~= before.push(lower@));
            }
            assert forall|n: Seq<char>|
                #[trigger] names_of(out@).contains(n) <==> exists|j: int|
                    0 <= j < i + 1 && n == lowercased(input[j]) by {
                let now = names_of(out@);
                if now.contains(n) && n != lower@ {
                    assert(before.contains(n));
                }
                if exists|j: int| 0 <= j < i + 1 && n == lowercased(input[j]) {
                    let j = choose|j: int| 0 <= j < i + 1 && n == lowercased(input[j]);
                    if j < i {
                        assert(before.contains(n));
                        let k = before.index_of(n);
                        assert(now[k] == n);
                    } else {
                        assert(n == lower@);
                        if before.contains(n) {
                            let k = before.index_of(n);
                            assert(now[k] == n);
                        } else {
                            assert(now[now.len() - 1] == n);
                        }
                    }
                }
            }
            i = i + 1;
        }
        let r = TopicCategories(out);
        assert(r@.to_set() =~= merged_categories(input));
        r
    }
}

/// How deeply a mentor should question on a topic.
#[derive(PartialEq, Eq, Structural, Clone, Copy, Debug)]
pub enum QuestionDepth {
    Full,
    Light,
    Skip,
}

/// A topic and its review record. The ease factor is kept in hundredths:
/// `250` stands for an ease factor of 2.5.
pub struct Topic {
    pub name: String,
    /// Consecutive successful reviews with high quality.
    pub repetitions: u32,
    /// Days until the next review.
    pub interval: u32,
    /// Grows with higher quality, in hundredths.
    pub ease_factor: u32,
    /// When the topic was last reviewed, in seconds since the Unix epoch.
    pub reviewed_at: i64,
    pub categories: TopicCategories,
}

/// A topic as plain values.
pub struct TopicView {
    pub name: Seq<char>,
    pub repetitions: u32,
    pub interval: u32,
    pub ease_factor: u32,
    pub reviewed_at: i64,
    pub categories: Seq<Seq<char>>,
}

impl View for Topic {
    type V = TopicView;

    open spec fn view(&self) -> TopicView {
        TopicView {
            name: self.name@,
            repetitions: self.repetitions,
            interval: self.interval,
            ease_factor: self.ease_factor,
            reviewed_at: self.reviewed_at,
            categories: self.categories@,
        }
    }
}

impl Clone for Topic {
    fn clone(&self) -> (r: Self)
        ensures
            r@ == self@,
    {
        Topic {
            name: self.name.clone(),
            repetitions: self.repetitions,
            interval: self.interval,
            ease_factor: self.ease_factor,
            reviewed_at: self.reviewed_at,
            categories: self.categories.clone(),
        }
    }
}

/// The question depth for an ease factor (in hundredths) and a count of
/// repetitions: fewer than three repetitions or an ease factor below 2.0 call
/// for full questioning, an ease factor up to 2.5 for light questioning, and
/// anything above lets the topic be skipped.
pub open spec fn depth_for(ease_factor: u32, repetitions: u32) -> QuestionDepth {
    if repetitions < 3 {
        QuestionDepth::Full
    } else if ease_factor < 200 {
        QuestionDepth::Full
    } else if ease_factor <= 250 {
        QuestionDepth::Light
    } else {
        QuestionDepth::Skip
    }
}

/// A topic is mastered when its questioning can be skipped.
pub open spec fn is_mastered(t: TopicView) -> bool {
    depth_for(t.ease_factor, t.repetitions) == QuestionDepth::Skip
}

/// A topic is struggled with when it needs full questioning and its ease
/// factor is below 2.0.
pub open spec fn is_struggled(t: TopicView) -> bool {
    depth_for(t.ease_factor, t.repetitions) == QuestionDepth::Full && t.ease_factor < 200
}

/// A topic is being learnt when it is neither mastered nor struggled with.
pub open spec fn is_learning(t: TopicView) -> bool {
    !is_mastered(t) && !is_struggled(t)
}

/// The time of the next review: the last review plus the interval in days.
pub open spec fn next_review_time(t: TopicView) -> int {
    t.reviewed_at + t.interval * SECONDS_IN_A_DAY
}

/// Whether the next review time fits the range of `i64` seconds.
pub open spec fn schedule_fits(t: TopicView) -> bool {
    next_review_time(t) <= i64::MAX
}

/// Whole days from the last review to `now`, rounded toward zero (negative
/// when `now` comes before the last review).
pub open spec fn whole_days_between(from: i64, to: i64) -> int {
    let d = to - from;
    if d >= 0 {
        d / (SECONDS_IN_A_DAY as int)
    } else {
        -((-d) / (SECONDS_IN_A_DAY as int))
    }
}

impl Topic {
    /// The recommended question depth for this topic.
    pub fn question_depth(&self) -> (r: QuestionDepth)
        ensures
            r == depth_for(self.ease_factor, self.repetitions),
    {
        if self.repetitions < 3 {
            QuestionDepth::Full
        } else if self.ease_factor < 200 {
            QuestionDepth::Full
        } else if self.ease_factor <= 250 {
            QuestionDepth::Light
        } else {
            QuestionDepth::Skip
        }
    }

    /// Whether the topic is mastered.
    pub fn mastered(&self) -> (r: bool)
        ensures
            r == is_mastered(self@),
    {
        self.question_depth() == QuestionDepth::Skip
    }

    /// Whether the topic is struggled with.
    pub fn struggled(&self) -> (r: bool)
        ensures
            r == is_struggled(self@),
    {
        self.question_depth() == QuestionDepth::Full && self.ease_factor < 200
    }

    /// Whether the topic is still being learnt.
    pub fn learning(&self) -> (r: bool)
        ensures
            r == is_learning(self@),
    {
        !self.mastered() && !self.struggled()
    }

    /// Whether a search text is similar to this topic's name: at least a fifth
    /// of their distinct trigrams are shared.
    pub fn is_similar(&self, value: &str) -> (r: bool)
        ensures
            r == texts_are_similar(value@, self.name@),
    {
        let ratio = trigram_similarity(value, self.name.as_str());
        ratio.total > 0 && ratio.shared >= ratio.total / 5 + (if ratio.total % 5 == 0 { 0 } else { 1 })
    }

    /// Whether the topic is due for review at `now`.
    pub fn is_overdue(&self, now: i64) -> (r: bool)
        requires
            schedule_fits(self@),
        ensures
            r == (now >= next_review_time(self@)),
    {
        now >= self.next_review()
    }

    /// The interval in seconds.
    pub fn interval_in_seconds(&self) -> (r: u32)
        requires
            self.interval * 86400 <= u32::MAX,
        ensures
            r == self.interval * 86400,
    {
        let seconds_in_a_day: u32 = 86400;
        self.interval * seconds_in_a_day
    }

    /// When the topic is next due for review.
    pub fn next_review(&self) -> (r: i64)
        requires
            schedule_fits(self@),
        ensures
            r == next_review_time(self@),
    {
        self.reviewed_at + (self.interval as i64) * SECONDS_IN_A_DAY
    }

    /// When the topic is next due for review, or `None` where that moment is
    /// past the clock's range.
    pub fn next_review_checked(&self) -> (r: Option<i64>)
        ensures
            r is Some <==> schedule_fits(self@),
            r matches Some(t) ==> t == next_review_time(self@),
    {
        let seconds = (self.interval as i64) * SECONDS_IN_A_DAY;
        self.reviewed_at.checked_add(seconds)
    }

    /// Whether the last review lies between `start` and `end`, both included.
    pub fn is_between(&self, start: i64, end: i64) -> (r: bool)
        ensures
            r == (start <= self.reviewed_at && self.reviewed_at <= end),
    {
        self.reviewed_at >= start && self.reviewed_at <= end
    }

    /// Whether the topic has a category of the given name.
    pub fn has_category(&self, category: &Category) -> (r: bool)
        ensures
            r == self.categories@.contains(category@),
    {
        contains_name(&self.categories.0, &category.name)
    }

    /// Whole days since the last review.
    pub fn days_since_last_review(&self, now: i64) -> (r: i64)
        ensures
            r == whole_days_between(self.reviewed_at, now),
    {
        let d: i128 = now as i128 - self.reviewed_at as i128;
        let day: i128 = 86400;
        if d >= 0 {
            let q: i128 = d / day;
            assert(q <= 0x7fff_ffff_ffff_ffff) by (nonlinear_arith)
                requires
                    q == d / day,
                    0 <= d <= 0x1_0000_0000_0000_0000,
                    day == 86400,
            ;
            q as i64
        } else {
            let e: i128 = -d;
            let q: i128 = e / day;
            assert(q <= 0x7fff_ffff_ffff_ffff) by (nonlinear_arith)
                requires
                    q == e / day,
                    0 < e <= 0x1_0000_0000_0000_0000,
                    day == 86400,
            ;
            -(q as i64)
        }
    }

    /// The topic after a review of the given quality on `review_date`.
    pub fn update_quality(&self, quality: u32, review_date: i64) -> (r: Topic)
        requires
            quality < 3 || self.repetitions < u32::MAX,
            self.ease_factor + ease_change(quality) <= u32::MAX,
        ensures
            r@ == reviewed(self@, quality, review_date),
    {
        sm2(self, quality, review_date)
    }

    /// The topic with its categories replaced by the merged given names.
    pub fn update_categories(self, categories: Vec<String>) -> (r: Topic)
        ensures
            r.name@ == self.name@,
            r.repetitions == self.repetitions,
            r.interval == self.interval,
            r.ease_factor == self.ease_factor,
            r.reviewed_at == self.reviewed_at,
            r.categories@.no_duplicates(),
            r.categories@.to_set() == merged_categories(categories@.map_values(|s: String| s@)),
    {
        Topic {
            name: self.name,
            repetitions: self.repetitions,
            interval: self.interval,
            ease_factor: self.ease_factor,
            reviewed_at: self.reviewed_at,
            categories: TopicCategories::new(categories),
        }
    }

    /// A topic seen for the first time: no repetitions, a one-day interval, an
    /// ease factor of 2.5 and no categories.
    pub fn new(name: &str, reviewed_at: i64) -> (r: Topic)
        ensures
            r@ == (TopicView {
                name: name@,
                repetitions: 0,
                interval: 1,
                ease_factor: 250,
                reviewed_at,
                categories: Seq::empty(),
            }),
    {
        let r = Topic {
            name: name.to_owned(),
            repetitions: 0,
            interval: 1,
            ease_factor: 250,
            reviewed_at,
            categories: TopicCategories(Vec::new()),
        };
        assert(r.categories@ =~= Seq::<Seq<char>>::empty());
        r
    }
}

/// Every topic is exactly one of: mastered, struggled with, or being learnt.
pub proof fn law_topic_states_partition(t: TopicView)
    ensures
        is_mastered(t) || is_struggled(t) || is_learning(t),
        !(is_mastered(t) && is_struggled(t)),
        !(is_mastered(t) && is_learning(t)),
        !(is_struggled(t) && is_learning(t)),
{
}

/// A topic is mastered only after at least three successful reviews in a row
/// and with an ease factor above 2.5.
pub proof fn law_mastery_needs_repetitions(t: TopicView)
    ensures
        is_mastered(t) ==> t.repetitions >= 3 && t.ease_factor > 250,
        t.repetitions < 3 ==> depth_for(t.ease_factor, t.repetitions) == QuestionDepth::Full,
{
}

/// After a failed review (quality below 3) a topic is questioned in full
/// depth, and it is not mastered, whatever its record was before.
pub proof fn law_failed_review_asks_full_depth(t: TopicView, quality: u32, review_date: i64)
    requires
        quality < 3,
    ensures
        depth_for(reviewed(t, quality, review_date).ease_factor, reviewed(t, quality, review_date).repetitions)
            == QuestionDepth::Full,
        !is_mastered(reviewed(t, quality, review_date)),
{
}

/// How deeply a topic is questioned, from its record alone: in full while it
/// has fewer than three repetitions or an ease factor below 2.0 (whatever its
/// repetitions); lightly from three repetitions with an ease factor from 2.0
/// to 2.5; skipped from three repetitions with an ease factor above 2.5.
pub proof fn law_question_depth_rule(ease_factor: u32, repetitions: u32)
    ensures
        depth_for(ease_factor, repetitions) == QuestionDepth::Full <==> (repetitions < 3 || ease_factor
            < 200),
        depth_for(ease_factor, repetitions) == QuestionDepth::Light <==> (repetitions >= 3 && 200
            <= ease_factor && ease_factor <= 250),
        depth_for(ease_factor, repetitions) == QuestionDepth::Skip <==> (repetitions >= 3
            && ease_factor > 250),
        ease_factor < 200 ==> depth_for(ease_factor, repetitions) == QuestionDepth::Full,
{
}

/// Whole days between two moments count the full days of 86400 seconds
/// passed, rounded toward zero: from a moment to a later one, the days times
/// 86400 seconds reach no further than the later moment and one more day
/// would pass it; back to an earlier moment, the count is the same number of
/// days, negated.
pub proof fn law_whole_days_round_toward_zero(from: i64, to: i64)
    ensures
        from <= to ==> whole_days_between(from, to) >= 0 && whole_days_between(from, to) * 86400
            <= to - from < (whole_days_between(from, to) + 1) * 86400,
        to < from ==> whole_days_between(from, to) == -whole_days_between(to, from),
{
}

/// A topic falls due its interval in days after its last review, and it is
/// overdue from that moment on: the whole days from the last review to that
/// moment are the interval.
pub proof fn law_due_after_interval_days(t: TopicView, now: i64)
    ensures
        next_review_time(t) == t.reviewed_at + t.interval * 86400,
        next_review_time(t) <= i64::MAX ==> whole_days_between(
            t.reviewed_at,
            next_review_time(t) as i64,
        ) == t.interval,
{
    assert((t.interval * 86400) / 86400 == t.interval as int) by (nonlinear_arith);
}

} // verus!
