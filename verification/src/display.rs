//! The texts that the dashboard shows: numbers, moments, table rows and log
//! lines.
use vstd::prelude::*;
use vstd::string::StringExecFns;

use crate::params::{decimal_value, is_decimal};
use crate::session::{Session, SessionView};
use crate::text::push_char;
use crate::topic::{next_review_time, schedule_fits, Topic, TopicView};

verus! {

/// The decimal digit character of a value below ten.
pub open spec fn digit_char(d: nat) -> char {
    (('0' as int) + d) as char
}

/// The decimal digits of a number, most significant first, without leading
/// zeros (zero is the one digit `0`).
pub open spec fn decimal_digits(n: nat) -> Seq<char>
    decreases n,
{
    if n < 10 {
        seq![digit_char(n)]
    } else {
        decimal_digits(n / 10).push(digit_char(n % 10))
    }
}

pub(crate) fn digit(d: u64) -> (c: char)
    requires
        d < 10,
    ensures
        c == digit_char(d as nat),
{
    match d {
        0 => '0',
        1 => '1',
        2 => '2',
        3 => '3',
        4 => '4',
        5 => '5',
        6 => '6',
        7 => '7',
        8 => '8',
        _ => '9',
    }
}

fn push_decimal(n: u64, out: &mut String)
    ensures
        final(out)@ == old(out)@ + decimal_digits(n as nat),
    decreases n,
{
    if n >= 10 {
        push_decimal(n / 10, out);
    }
    push_char(out, digit(n % 10));
}

/// The decimal text of a number, as Rust's `to_string` writes it.
pub fn decimal_text(n: u64) -> (r: String)
    ensures
        r@ == decimal_digits(n as nat),
{
    let mut r = String::new();
    push_decimal(n, &mut r);
    assert(r@ =~= decimal_digits(n as nat));
    r
}

/// A number's decimal text reads back as the number: it is all digits, and
/// their value is the number.
pub proof fn law_decimal_text_reads_back(n: nat)
    ensures
        is_decimal(decimal_digits(n)),
        decimal_value(decimal_digits(n)) == n,
    decreases n,
{
    let d = n % 10;
    assert(digit_char(d) as int == '0' as int + d);
    if n >= 10 {
        law_decimal_text_reads_back(n / 10);
        let front = decimal_digits(n / 10);
        let all = decimal_digits(n);
        assert(all.drop_last() =~= front);
        assert(all.last() == digit_char(d));
        assert(decimal_value(all) == decimal_value(front) * 10 + d);
        assert((n / 10) * 10 + d == n);
    } else {
        let all = decimal_digits(n);
        assert(all.drop_last() =~= Seq::<char>::empty());
        assert(decimal_value(Seq::<char>::empty()) == 0);
        assert(all.last() == digit_char(d));
        assert(decimal_value(all) == decimal_value(all.drop_last()) * 10 + (all.last() as int
            - '0' as int));
        assert(d == n);
    }
}

/// The text of an ease factor given in hundredths, as Rust writes the
/// decimal number: the whole part, then, where there is a fraction, a point
/// and its digits without trailing zeros (250 is `2.5`, 236 is `2.36`, 200
/// is `2`).
pub open spec fn ease_factor_digits(hundredths: nat) -> Seq<char> {
    let whole = decimal_digits(hundredths / 100);
    let fraction = hundredths % 100;
    if fraction == 0 {
        whole
    } else if fraction % 10 == 0 {
        whole + seq!['.', digit_char(fraction / 10)]
    } else {
        whole + seq!['.', digit_char(fraction / 10), digit_char(fraction % 10)]
    }
}

/// The text of an ease factor given in hundredths.
pub fn ease_factor_text(hundredths: u32) -> (r: String)
    ensures
        r@ == ease_factor_digits(hundredths as nat),
{
    let h = hundredths as u64;
    let mut r = decimal_text(h / 100);
    let fraction = h % 100;
    if fraction != 0 {
        push_char(&mut r, '.');
        push_char(&mut r, digit(fraction / 10));
        if fraction % 10 != 0 {
            push_char(&mut r, digit(fraction % 10));
        }
    }
    assert(r@ =~= ease_factor_digits(hundredths as nat));
    r
}

/// What chrono writes for the UTC moment `secs` seconds after the Unix
/// epoch with a strftime pattern, or `None` where the moment is outside
/// chrono's range or the pattern holds an item that chrono cannot write.
pub uninterp spec fn utc_formatted(secs: i64, pattern: Seq<char>) -> Option<Seq<char>>;

/// Whether chrono holds the UTC moment `secs` seconds after the Unix epoch
/// (its range spans about 262 000 years either side of year 0).
pub uninterp spec fn utc_moment_exists(secs: i64) -> bool;

/// The strftime specifiers that this library uses: short month name, day
/// padded with a space, `HH:MM:SS`, year, day, month, hour, minute, second.
pub open spec fn is_plain_specifier(c: char) -> bool {
    c == 'b' || c == 'e' || c == 'T' || c == 'Y' || c == 'd' || c == 'm' || c == 'H' || c == 'M'
        || c == 'S'
}

/// A strftime pattern in which every `%` is followed by one of the plain
/// specifiers. Everything else in it is written as it stands.
pub open spec fn plain_pattern(p: Seq<char>) -> bool {
    forall|i: int|
        0 <= i < p.len() && #[trigger] p[i] == '%' ==> i + 1 < p.len() && is_plain_specifier(p[i + 1])
}

/// Calls `chrono::DateTime::<Utc>::from_timestamp(secs, 0)` and, for a moment
/// in range, writes `format(pattern)` into a string with
/// `DelayedFormat::write_to`, which reports an item it cannot write as an
/// error. The outcome is named `utc_formatted`. The crate's source shows
/// that there is no text for a moment out of range, and that the items of
/// the plain specifiers, and literal text, are always written for a moment
/// in range.
#[verifier::external_body]
fn format_utc(secs: i64, pattern: &str) -> (r: Option<String>)
    ensures
        r matches Some(t) ==> utc_formatted(secs, pattern@) == Some(t@),
        r is None ==> utc_formatted(secs, pattern@) is None,
        r is Some ==> utc_moment_exists(secs),
        utc_moment_exists(secs) && plain_pattern(pattern@) ==> r is Some,
{
    match chrono::DateTime::<chrono::Utc>::from_timestamp(secs, 0) {
        Some(moment) => {
            let mut out = String::new();
            match moment.format(pattern).write_to(&mut out) {
                Ok(()) => Some(out),
                Err(_) => None,
            }
        },
        None => None,
    }
}

/// Calls `chrono::DateTime::<Utc>::from_timestamp_secs` and tells whether it
/// returned a moment. The outcome is named `utc_moment_exists`.
#[verifier::external_body]
pub(crate) fn moment_exists(secs: i64) -> (r: bool)
    ensures
        r == utc_moment_exists(secs),
{
    chrono::DateTime::<chrono::Utc>::from_timestamp_secs(secs).is_some()
}

/// What chrono writes for a moment that it holds.
pub open spec fn moment_text(secs: i64, pattern: Seq<char>) -> Seq<char> {
    match utc_formatted(secs, pattern) {
        Some(t) => t,
        None => Seq::empty(),
    }
}

/// Whether a moment is one that chrono holds.
pub open spec fn holds_moment(secs: i64) -> bool {
    utc_moment_exists(secs)
}

/// What chrono writes for a moment, in a pattern.
pub open spec fn time_text(secs: i64, pattern: Seq<char>) -> Seq<char> {
    moment_text(secs, pattern)
}

/// The text of a moment that chrono holds, in a plain strftime pattern.
pub fn moment_string(secs: i64, pattern: &str) -> (r: String)
    requires
        utc_moment_exists(secs),
        plain_pattern(pattern@),
    ensures
        utc_formatted(secs, pattern@) == Some(r@),
        r@ == moment_text(secs, pattern@),
{
    match format_utc(secs, pattern) {
        Some(t) => t,
        None => String::new(),
    }
}

/// The text of a moment that chrono holds, in a plain strftime pattern.
pub fn time_string(secs: i64, pattern: &str) -> (r: String)
    requires
        holds_moment(secs),
        plain_pattern(pattern@),
    ensures
        r@ == time_text(secs, pattern@),
{
    moment_string(secs, pattern)
}

/// Whether chrono holds a moment.
pub fn moment_in_range(secs: i64) -> (r: bool)
    ensures
        r == holds_moment(secs),
{
    moment_exists(secs)
}

/// The pattern of the moments in the topics and sessions tables, such as
/// `Mar  5 14:03:09 2025`.
pub open spec fn table_pattern() -> Seq<char> {
    "%b %e %T %Y"@
}

/// The table pattern is plain.
pub proof fn lemma_table_pattern_plain()
    ensures
        plain_pattern(table_pattern()),
{
    reveal_strlit("%b %e %T %Y");
}

/// The cells of a row of the topics table.
pub struct TopicCells {
    pub name: String,
    pub ease_factor: String,
    pub repetitions: String,
    pub last_review: String,
    pub next_review: String,
}

/// The cells of a row of the topics table as plain values.
pub struct TopicCellsView {
    pub name: Seq<char>,
    pub ease_factor: Seq<char>,
    pub repetitions: Seq<char>,
    pub last_review: Seq<char>,
    pub next_review: Seq<char>,
}

impl View for TopicCells {
    type V = TopicCellsView;

    open spec fn view(&self) -> TopicCellsView {
        TopicCellsView {
            name: self.name@,
            ease_factor: self.ease_factor@,
            repetitions: self.repetitions@,
            last_review: self.last_review@,
            next_review: self.next_review@,
        }
    }
}

/// The row of a topic: its name, ease factor and repetitions, when it was
/// last reviewed, and when it is next due, marked `(overdue)` once `now`
/// has reached that moment.
pub open spec fn topic_cells(t: TopicView, now: i64) -> TopicCellsView {
    let next = time_text(next_review_time(t) as i64, table_pattern());
    TopicCellsView {
        name: t.name,
        ease_factor: ease_factor_digits(t.ease_factor as nat),
        repetitions: decimal_digits(t.repetitions as nat),
        last_review: time_text(t.reviewed_at, table_pattern()),
        next_review: if now >= next_review_time(t) {
            next + " (overdue)"@
        } else {
            next
        },
    }
}

/// Whether chrono holds the moments that a topic's row shows: its last
/// review and its next one.
pub open spec fn row_moments_held(t: TopicView) -> bool {
    schedule_fits(t) && holds_moment(t.reviewed_at) && holds_moment(next_review_time(t) as i64)
}

/// The row of a topic in the topics table.
pub fn topic_row(topic: &Topic, now: i64) -> (r: TopicCells)
    requires
        row_moments_held(topic@),
    ensures
        r@ == topic_cells(topic@, now),
{
    let pattern = "%b %e %T %Y";
    proof {
        lemma_table_pattern_plain();
    }
    let next = topic.next_review();
    let mut next_review = time_string(next, pattern);
    if topic.is_overdue(now) {
        next_review.append(" (overdue)");
    }
    TopicCells {
        name: topic.name.clone(),
        ease_factor: ease_factor_text(topic.ease_factor),
        repetitions: decimal_text(topic.repetitions as u64),
        last_review: time_string(topic.reviewed_at, pattern),
        next_review,
    }
}

/// The row of a topic, or `None` where chrono cannot hold its last or next
/// review (or the next review is past the clock's range).
pub fn topic_row_checked(topic: &Topic, now: i64) -> (r: Option<TopicCells>)
    ensures
        r is Some <==> row_moments_held(topic@),
        r matches Some(c) ==> c@ == topic_cells(topic@, now),
{
    match topic.next_review_checked() {
        Some(next) => {
            if moment_in_range(topic.reviewed_at) && moment_in_range(next) {
                Some(topic_row(topic, now))
            } else {
                None
            }
        },
        None => None,
    }
}

/// The row of a session in the sessions table: its name and when it was
/// created.
pub fn session_row(session: &Session) -> (r: (String, String))
    requires
        holds_moment(session@.created_at),
    ensures
        r.0@ == session@.name,
        r.1@ == time_text(session@.created_at, table_pattern()),
{
    proof {
        lemma_table_pattern_plain();
    }
    (session.name.clone(), time_string(session.created_at, "%b %e %T %Y"))
}

/// The row of a session, or `None` where chrono cannot hold its creation
/// time.
pub fn session_row_checked(session: &Session) -> (r: Option<(String, String)>)
    ensures
        r is Some <==> holds_moment(session@.created_at),
        r matches Some(row) ==> row.0@ == session@.name && row.1@ == time_text(
            session@.created_at,
            table_pattern(),
        ),
{
    if moment_in_range(session.created_at) {
        Some(session_row(session))
    } else {
        None
    }
}

/// What the notes pane shows of a session: its notes, or a notice that
/// there are none.
pub open spec fn session_notes(s: SessionView) -> Seq<char> {
    match s.content {
        Some(c) => c,
        None => "No content available"@,
    }
}

/// What the notes pane shows of a session.
pub fn session_notes_text(session: &Session) -> (r: String)
    ensures
        r@ == session_notes(session@),
{
    match &session.content {
        Some(c) => c.clone(),
        None => String::from_str("No content available"),
    }
}

} // verus!
