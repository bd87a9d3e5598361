//! The SM-2 spaced repetition rule.
use vstd::prelude::*;

use crate::topic::{Topic, TopicView};

verus! {

/// The lowest ease factor, 1.3, in hundredths.
pub const MIN_EASE_FACTOR: u32 = 130;

/// How the ease factor (in hundredths) changes after a review of the given
/// quality: `0.1 - (5 - q) * (0.08 + (5 - q) * 0.02)`, times one hundred.
pub open spec fn ease_change(quality: u32) -> int {
    let d = 5 - quality;
    10 - d * (8 + 2 * d)
}

/// The ease factor after a review: the change applied, never below 1.3.
pub open spec fn next_ease_factor(ease_factor: u32, quality: u32) -> int {
    let e = ease_factor + ease_change(quality);
    if e < MIN_EASE_FACTOR {
        MIN_EASE_FACTOR as int
    } else {
        e
    }
}

/// Repetitions after a review: reset by a quality below 3, else one more.
pub open spec fn next_repetitions(repetitions: u32, quality: u32) -> int {
    if quality < 3 {
        0
    } else {
        repetitions + 1
    }
}

/// The interval after a review, from the new repetition count and ease factor:
/// one day after a failure, six days after the first success, else the old
/// interval times the ease factor, rounded down and capped at `u32::MAX`.
pub open spec fn next_interval(repetitions: int, interval: u32, ease_factor: int) -> int {
    if repetitions == 0 {
        1
    } else if repetitions == 1 {
        6
    } else {
        let days = interval * ease_factor / 100;
        if days > u32::MAX {
            u32::MAX as int
        } else {
            days
        }
    }
}

/// The record of a topic after a review of the given quality on `review_date`.
pub open spec fn reviewed(t: TopicView, quality: u32, review_date: i64) -> TopicView {
    let repetitions = next_repetitions(t.repetitions, quality);
    let ease_factor = next_ease_factor(t.ease_factor, quality);
    TopicView {
        name: t.name,
        repetitions: repetitions as u32,
        interval: next_interval(repetitions, t.interval, ease_factor) as u32,
        ease_factor: ease_factor as u32,
        reviewed_at: review_date,
        categories: t.categories,
    }
}

pub(crate) fn ease_factor_change(quality: u32) -> (r: i128)
    ensures
        r == ease_change(quality),
{
    let d: i128 = 5 - quality as i128;
    let f: i128 = 8 + 2 * d;
    assert(-0x1000_0000_0000_0000_0000 < d * f < 0x1000_0000_0000_0000_0000) by (nonlinear_arith)
        requires
            -0x2_0000_0000 < d <= 5,
            -0x4_0000_0000 < f <= 18,
    ;
    10 - d * f
}

/// Applies the SM-2 rule to a topic after a review of the given quality.
///
/// - Quality 5: the ease factor increases.
/// - Quality 4: the ease factor stays the same.
/// - Quality 3: the ease factor decreases slightly.
/// - Quality below 3: the ease factor drops significantly, and repetitions and
///   interval start over.
pub fn sm2(topic: &Topic, quality: u32, review_date: i64) -> (r: Topic)
    requires
        quality < 3 || topic.repetitions < u32::MAX,
        topic.ease_factor + ease_change(quality) <= u32::MAX,
    ensures
        r@ == reviewed(topic@, quality, review_date),
{
    let updated_repetitions: u32 = if quality < 3 {
        0
    } else {
        topic.repetitions + 1
    };
    let sum: i128 = topic.ease_factor as i128 + ease_factor_change(quality);
    let updated_ease_factor: u32 = if sum < MIN_EASE_FACTOR as i128 {
        MIN_EASE_FACTOR
    } else {
        sum as u32
    };
    let updated_interval: u32 = if updated_repetitions == 0 {
        1
    } else if updated_repetitions == 1 {
        6
    } else {
        let a: u64 = topic.interval as u64;
        let b: u64 = updated_ease_factor as u64;
        assert(a * b <= 0xFFFF_FFFF * 0xFFFF_FFFF) by (nonlinear_arith)
            requires
                a <= 0xFFFF_FFFF,
                b <= 0xFFFF_FFFF,
        ;
        let product: u64 = a * b;
        let days: u64 = product / 100;
        if days > u32::MAX as u64 {
            u32::MAX
        } else {
            days as u32
        }
    };
    Topic {
        name: topic.name.clone(),
        repetitions: updated_repetitions,
        interval: updated_interval,
        ease_factor: updated_ease_factor,
        reviewed_at: review_date,
        categories: topic.categories.clone(),
    }
}

/// A review record is well formed when its ease factor is at least 1.3 and
/// its interval at least one day.
pub open spec fn well_formed_record(t: TopicView) -> bool {
    t.ease_factor >= MIN_EASE_FACTOR && t.interval >= 1
}

/// The ease factor after any review is at least 1.3.
pub proof fn law_ease_factor_never_below_minimum(t: TopicView, quality: u32, review_date: i64)
    requires
        t.ease_factor + ease_change(quality) <= u32::MAX,
    ensures
        reviewed(t, quality, review_date).ease_factor >= MIN_EASE_FACTOR,
{
}

/// For the qualities 0 to 5 and an ease factor of at least 1.3: quality 5
/// raises the ease factor by 0.1, quality 4 keeps it, quality 3 lowers it by
/// 0.14 and a lower quality by more (never below 1.3).
pub proof fn law_quality_moves_ease_factor(t: TopicView, quality: u32, review_date: i64)
    requires
        quality <= 5,
        t.ease_factor >= MIN_EASE_FACTOR,
        t.ease_factor + 10 <= u32::MAX,
    ensures
        quality == 5 ==> reviewed(t, quality, review_date).ease_factor == t.ease_factor + 10,
        quality == 4 ==> reviewed(t, quality, review_date).ease_factor == t.ease_factor,
        quality == 3 ==> reviewed(t, quality, review_date).ease_factor == (if t.ease_factor
            >= MIN_EASE_FACTOR + 14 {
            t.ease_factor - 14
        } else {
            MIN_EASE_FACTOR as int
        }),
        quality < 3 ==> reviewed(t, quality, review_date).ease_factor == (if t.ease_factor
            + ease_change(quality) >= MIN_EASE_FACTOR {
            t.ease_factor + ease_change(quality)
        } else {
            MIN_EASE_FACTOR as int
        }),
        quality < 3 ==> ease_change(quality) <= -32,
        quality <= 3 && t.ease_factor > MIN_EASE_FACTOR ==> reviewed(
            t,
            quality,
            review_date,
        ).ease_factor < t.ease_factor,
{
    assert(ease_change(5) == 10);
    assert(ease_change(4) == 0);
    assert(ease_change(3) == -14);
    assert(ease_change(2) == -32);
    assert(ease_change(1) == -54);
    assert(ease_change(0) == -80);
}

/// Among the qualities 0 to 5, a better review never leaves a lower ease
/// factor than a worse one.
pub proof fn law_ease_factor_monotone_in_quality(
    t: TopicView,
    worse: u32,
    better: u32,
    review_date: i64,
)
    requires
        worse <= better <= 5,
        t.ease_factor + 10 <= u32::MAX,
    ensures
        reviewed(t, worse, review_date).ease_factor <= reviewed(t, better, review_date).ease_factor,
{
    assert(ease_change(5) == 10);
    assert(ease_change(4) == 0);
    assert(ease_change(3) == -14);
    assert(ease_change(2) == -32);
    assert(ease_change(1) == -54);
    assert(ease_change(0) == -80);
}

/// A review of quality below 3 starts the schedule over: no repetitions and a
/// one-day interval. A review of quality 3 or more counts one more repetition,
/// and the first such review sets the interval to six days.
pub proof fn law_failure_resets_success_counts(t: TopicView, quality: u32, review_date: i64)
    requires
        quality < 3 || t.repetitions < u32::MAX,
    ensures
        quality < 3 ==> reviewed(t, quality, review_date).repetitions == 0 && reviewed(
            t,
            quality,
            review_date,
        ).interval == 1,
        quality >= 3 ==> reviewed(t, quality, review_date).repetitions == t.repetitions + 1,
        quality >= 3 && t.repetitions == 0 ==> reviewed(t, quality, review_date).interval == 6,
{
}

proof fn lemma_interval_grows(interval: u32, ease_factor: int)
    requires
        ease_factor >= MIN_EASE_FACTOR,
    ensures
        interval * ease_factor / 100 >= interval,
{
    assert(interval * ease_factor >= interval * 100) by (nonlinear_arith)
        requires
            ease_factor >= 130,
            interval >= 0,
    ;
    assert((interval * 100) / 100 == interval) by (nonlinear_arith);
    assert(interval * ease_factor / 100 >= (interval * 100) / 100) by (nonlinear_arith)
        requires
            interval * ease_factor >= interval * 100,
    ;
}

/// From the second successful review in a row on, a successful review never
/// shortens the interval.
pub proof fn law_success_never_shortens_interval(t: TopicView, quality: u32, review_date: i64)
    requires
        quality >= 3,
        t.repetitions >= 1,
        t.repetitions < u32::MAX,
        t.ease_factor + ease_change(quality) <= u32::MAX,
    ensures
        reviewed(t, quality, review_date).interval >= t.interval,
{
    lemma_interval_grows(t.interval, next_ease_factor(t.ease_factor, quality));
}

/// Reviews keep a record well formed: the ease factor stays at least 1.3 and
/// the interval at least one day, whatever the quality.
pub proof fn law_review_keeps_record_well_formed(t: TopicView, quality: u32, review_date: i64)
    requires
        well_formed_record(t),
        quality < 3 || t.repetitions < u32::MAX,
        t.ease_factor + ease_change(quality) <= u32::MAX,
    ensures
        well_formed_record(reviewed(t, quality, review_date)),
{
    lemma_interval_grows(t.interval, next_ease_factor(t.ease_factor, quality));
}

/// A review is recorded at its date, and keeps the topic's name and categories.
pub proof fn law_review_records_date(t: TopicView, quality: u32, review_date: i64)
    ensures
        reviewed(t, quality, review_date).reviewed_at == review_date,
        reviewed(t, quality, review_date).name == t.name,
        reviewed(t, quality, review_date).categories == t.categories,
{
}

/// The ease factor rules together, for every topic that `sm2` accepts at
/// quality 5 (its ease factor plus 0.1 fits the counter): a better review
/// never leaves a lower ease factor, quality 5 raises it, quality 4 keeps it,
/// quality 3 lowers it unless it is already 1.3, and no review of any
/// quality that `sm2` accepts leaves it below 1.3.
pub proof fn law_sm2_ease_factor(t: TopicView, worse: u32, better: u32, quality: u32, review_date: i64)
    requires
        t.ease_factor >= MIN_EASE_FACTOR,
        worse <= better <= 5,
        t.ease_factor + 10 <= u32::MAX,
        t.ease_factor + ease_change(quality) <= u32::MAX,
    ensures
        reviewed(t, worse, review_date).ease_factor <= reviewed(t, better, review_date).ease_factor,
        reviewed(t, 5, review_date).ease_factor > t.ease_factor,
        reviewed(t, 4, review_date).ease_factor == t.ease_factor,
        t.ease_factor > MIN_EASE_FACTOR ==> reviewed(t, 3, review_date).ease_factor < t.ease_factor,
        reviewed(t, quality, review_date).ease_factor >= MIN_EASE_FACTOR,
{
    law_ease_factor_monotone_in_quality(t, worse, better, review_date);
    law_quality_moves_ease_factor(t, 5, review_date);
    law_quality_moves_ease_factor(t, 4, review_date);
    law_quality_moves_ease_factor(t, 3, review_date);
    law_ease_factor_never_below_minimum(t, quality, review_date);
}

/// A count of days held to the range of `u32`.
pub open spec fn capped_days(days: int) -> int {
    if days > u32::MAX {
        u32::MAX as int
    } else {
        days
    }
}

/// After a successful review (quality 3 or more) of a topic already reviewed
/// successfully at least once, the repetitions grow by one and the new
/// interval is the old interval times the new ease factor (in hundredths),
/// rounded down and capped at `u32::MAX`, whatever the quality. For the
/// qualities 3, 4 and 5 the new ease factor is 0.14 less, the same, and 0.1
/// more, never below 1.3.
pub proof fn law_interval_grows_by_ease_factor(t: TopicView, quality: u32, review_date: i64)
    requires
        quality >= 3,
        t.repetitions >= 1,
        t.repetitions < u32::MAX,
        t.ease_factor + ease_change(quality) <= u32::MAX,
    ensures
        reviewed(t, quality, review_date).repetitions == t.repetitions + 1,
        reviewed(t, quality, review_date).interval == capped_days(
            t.interval * reviewed(t, quality, review_date).ease_factor / 100,
        ),
        quality == 3 ==> reviewed(t, quality, review_date).interval == capped_days(
            t.interval * (if t.ease_factor >= 144 {
                t.ease_factor - 14
            } else {
                130int
            }) / 100,
        ),
        quality == 4 ==> reviewed(t, quality, review_date).interval == capped_days(
            t.interval * (if t.ease_factor >= 130 {
                t.ease_factor as int
            } else {
                130int
            }) / 100,
        ),
        quality == 5 ==> reviewed(t, quality, review_date).interval == capped_days(
            t.interval * (if t.ease_factor + 10 >= 130 {
                t.ease_factor + 10
            } else {
                130int
            }) / 100,
        ),
{
    assert(ease_change(5) == 10);
    assert(ease_change(4) == 0);
    assert(ease_change(3) == -14);
}

} // verus!
