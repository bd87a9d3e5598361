//! What the storage keeps of topics and sessions, as column values, and the
//! errors it reports.
use vstd::prelude::*;
use vstd::string::StringExecFns;

use crate::display::{moment_exists, utc_moment_exists};
use crate::session::{
    clone_text, text_of, uuid_parse_outcome, uuid_text, Session, SessionId, SessionView,
};
use crate::text::{chars_of, push_char, string_of};
use crate::topic::{names_of, Category, Topic, TopicCategories, TopicView};

verus! {

/// The separator between category names in their stored text.
pub open spec fn is_separator(c: char) -> bool {
    c == ','
}

/// Category names joined by commas.
pub open spec fn joined(names: Seq<Seq<char>>) -> Seq<char>
    decreases names.len(),
{
    if names.len() == 0 {
        Seq::empty()
    } else if names.len() == 1 {
        names[0]
    } else {
        joined(names.drop_last()) + seq![','] + names.last()
    }
}

/// Reading text left to right: the complete names so far, and the name being read.
pub open spec fn split_state(s: Seq<char>) -> (Seq<Seq<char>>, Seq<char>)
    decreases s.len(),
{
    if s.len() == 0 {
        (Seq::empty(), Seq::empty())
    } else {
        let (done, current) = split_state(s.drop_last());
        if is_separator(s.last()) {
            (
                if current.len() > 0 {
                    done.push(current)
                } else {
                    done
                },
                Seq::empty(),
            )
        } else {
            (done, current.push(s.last()))
        }
    }
}

/// The category names held in stored text: the text split at commas, with
/// empty pieces dropped.
pub open spec fn category_fields(s: Seq<char>) -> Seq<Seq<char>> {
    let (done, current) = split_state(s);
    if current.len() > 0 {
        done.push(current)
    } else {
        done
    }
}

/// A category name that can be stored and read back: not empty, no comma.
pub open spec fn storable_name(name: Seq<char>) -> bool {
    name.len() > 0 && !name.contains(',')
}

/// Joins category names with commas, the form in which they are stored.
pub fn categories_to_string(categories: &TopicCategories) -> (r: String)
    ensures
        r@ == joined(categories@),
{
    let ghost names = categories@;
    let mut out = String::new();
    let mut i: usize = 0;
    while i < categories.0.len()
        invariant
            i <= categories.0.len(),
            names == categories@,
            names.len() == categories.0.len(),
            out@ == joined(names.take(i as int)),
        decreases categories.0.len() - i,
    {
        let ghost before = out@;
        if i > 0 {
            push_char(&mut out, ',');
        }
        out.append(categories.0[i].name.as_str());
        assert(names.take(i + 1).drop_last() =~= names.take(i as int));
        assert(names[i as int] == categories.0[i as int]@);
        if i == 0 {
            assert(out@ =~= names.take(1)[0]);
        } else {
            assert(out@ =~= before + seq![','] + names.take(i + 1).last());
        }
        i = i + 1;
    }
    assert(names.take(i as int) =~= names);
    out
}

/// Reads category names back from their stored text.
pub fn categories_from_string(raw: &str) -> (r: TopicCategories)
    ensures
        r@ == category_fields(raw@),
{
    let chars = chars_of(raw);
    let mut done: Vec<Category> = Vec::new();
    let mut current: Vec<char> = Vec::new();
    let mut i: usize = 0;
    while i < chars.len()
        invariant
            i <= chars.len(),
            chars@ == raw@,
            split_state(chars@.take(i as int)) == (names_of(done@), current@),
        decreases chars.len() - i,
    {
        let c = chars[i];
        let ghost before_done = names_of(done@);
        assert(chars@.take(i + 1).drop_last() =~= chars@.take(i as int));
        if c == ',' {
            if current.len() > 0 {
                let name = string_of(&current);
                done.push(Category { name });
                assert(names_of(done@) =~= before_done.push(current@));
            }
            current = Vec::new();
        } else {
            current.push(c);
        }
        i = i + 1;
    }
    assert(chars@.take(chars.len() as int) =~= chars@);
    if current.len() > 0 {
        let ghost before_done = names_of(done@);
        let name = string_of(&current);
        done.push(Category { name });
        assert(names_of(done@) =~= before_done.push(current@));
    }
    TopicCategories(done)
}

proof fn lemma_split_append_name(p: Seq<char>, w: Seq<char>)
    requires
        !w.contains(','),
    ensures
        split_state(p + w) == (split_state(p).0, split_state(p).1 + w),
    decreases w.len(),
{
    if w.len() == 0 {
        assert(p + w =~= p);
        assert(split_state(p).1 + w =~= split_state(p).1);
    } else {
        let v = w.drop_last();
        assert(!v.contains(',')) by {
            if v.contains(',') {
                let k = v.index_of(',');
                assert(w[k] == ',');
            }
        }
        lemma_split_append_name(p, v);
        assert((p + w).drop_last() =~= p + v);
        assert((p + w).last() == w.last());
        assert(w.last() != ',') by {
            if w.last() == ',' {
                assert(w.contains(','));
            }
        }
        assert(split_state(p).1 + v.push(w.last()) =~= split_state(p).1 + w);
        assert(v.push(w.last()) =~= w);
        assert((split_state(p).1 + v).push(w.last()) =~= split_state(p).1 + w);
    }
}

proof fn lemma_split_joined(names: Seq<Seq<char>>)
    requires
        names.len() > 0,
        forall|k: int| 0 <= k < names.len() ==> storable_name(#[trigger] names[k]),
    ensures
        split_state(joined(names)) == (names.drop_last(), names.last()),
    decreases names.len(),
{
    if names.len() == 1 {
        lemma_split_append_name(Seq::empty(), names[0]);
        assert(Seq::<char>::empty() + names[0] =~= names[0]);
        assert(names.drop_last() =~= Seq::<Seq<char>>::empty());
        assert(Seq::<char>::empty() + names[0] =~= names[0]);
    } else {
        let front = names.drop_last();
        assert forall|k: int| 0 <= k < front.len() implies storable_name(#[trigger] front[k]) by {
            assert(front[k] == names[k]);
        }
        lemma_split_joined(front);
        let with_comma = joined(front) + seq![','];
        assert(with_comma.drop_last() =~= joined(front));
        assert(with_comma.last() == ',');
        assert(storable_name(names.last()));
        assert(front.last() == names[names.len() - 2]);
        assert(storable_name(front.last()));
        assert(front.drop_last().push(front.last()) =~= front);
        lemma_split_append_name(with_comma, names.last());
        assert(split_state(with_comma).1 + names.last() =~= names.last());
    }
}

/// Stored category names read back as they were written, provided each is
/// not empty and holds no comma.
pub proof fn law_categories_text_round_trip(names: Seq<Seq<char>>)
    requires
        forall|k: int| 0 <= k < names.len() ==> storable_name(#[trigger] names[k]),
    ensures
        category_fields(joined(names)) == names,
{
    if names.len() == 0 {
        assert(category_fields(joined(names)) =~= names);
    } else {
        lemma_split_joined(names);
        assert(storable_name(names.last()));
        assert(names.drop_last().push(names.last()) =~= names);
    }
}

/// A topic as the columns of its stored row. The ease factor is in hundredths.
pub struct TopicRow {
    pub name: String,
    pub repetitions: i64,
    pub interval_days: i64,
    pub ease_factor: u32,
    pub reviewed_at: i64,
    pub categories: String,
}

/// A topic row as plain values.
pub struct TopicRowView {
    pub name: Seq<char>,
    pub repetitions: i64,
    pub interval_days: i64,
    pub ease_factor: u32,
    pub reviewed_at: i64,
    pub categories: Seq<char>,
}

impl View for TopicRow {
    type V = TopicRowView;

    open spec fn view(&self) -> TopicRowView {
        TopicRowView {
            name: self.name@,
            repetitions: self.repetitions,
            interval_days: self.interval_days,
            ease_factor: self.ease_factor,
            reviewed_at: self.reviewed_at,
            categories: self.categories@,
        }
    }
}

/// The row in which a topic is stored.
pub open spec fn row_of_topic(t: TopicView) -> TopicRowView {
    TopicRowView {
        name: t.name,
        repetitions: t.repetitions as i64,
        interval_days: t.interval as i64,
        ease_factor: t.ease_factor,
        reviewed_at: t.reviewed_at,
        categories: joined(t.categories),
    }
}

/// The topic a stored row stands for: counts and times are converted with
/// Rust's `as` casts, categories are read from their text.
pub open spec fn topic_of_row(r: TopicRowView) -> TopicView {
    TopicView {
        name: r.name,
        repetitions: r.repetitions as u32,
        interval: r.interval_days as u32,
        ease_factor: r.ease_factor,
        reviewed_at: r.reviewed_at,
        categories: category_fields(r.categories),
    }
}

/// The row in which a topic is stored.
pub fn topic_to_row(topic: &Topic) -> (r: TopicRow)
    ensures
        r@ == row_of_topic(topic@),
{
    TopicRow {
        name: topic.name.clone(),
        repetitions: topic.repetitions as i64,
        interval_days: topic.interval as i64,
        ease_factor: topic.ease_factor,
        reviewed_at: topic.reviewed_at,
        categories: categories_to_string(&topic.categories),
    }
}

/// Whether a stored time is a moment that chrono holds.
pub open spec fn storable_time(secs: i64) -> bool {
    utc_moment_exists(secs)
}

/// The topic that a stored row holds, or an error when its review time is
/// not a moment that chrono holds.
pub fn topic_from_row(row: TopicRow) -> (r: Result<Topic, StorageError>)
    ensures
        r is Ok <==> storable_time(row@.reviewed_at),
        r matches Ok(t) ==> t@ == topic_of_row(row@),
        r matches Err(e) ==> e.message@ == "Expecting valid epoc for reviewed_at"@,
{
    if !moment_exists(row.reviewed_at) {
        return Err(StorageError { message: String::from_str("Expecting valid epoc for reviewed_at") });
    }
    let categories = categories_from_string(row.categories.as_str());
    Ok(
        Topic {
            name: row.name,
            repetitions: row.repetitions as u32,
            interval: row.interval_days as u32,
            ease_factor: row.ease_factor,
            reviewed_at: row.reviewed_at,
            categories,
        },
    )
}

/// A stored topic reads back as it was written, provided its category names
/// are not empty and hold no comma; and its row is accepted when its review
/// time is a moment that chrono holds.
pub proof fn law_topic_row_round_trip(t: TopicView)
    requires
        forall|k: int| 0 <= k < t.categories.len() ==> storable_name(#[trigger] t.categories[k]),
    ensures
        topic_of_row(row_of_topic(t)) == t,
        utc_moment_exists(t.reviewed_at) ==> storable_time(
            row_of_topic(t).reviewed_at,
        ),
{
    law_categories_text_round_trip(t.categories);
}

/// A session as the columns of its stored row.
pub struct SessionRow {
    pub id: String,
    pub name: String,
    pub created_at: i64,
    pub modified_at: i64,
    pub content: Option<String>,
}

/// A session row as plain values.
pub struct SessionRowView {
    pub id: Seq<char>,
    pub name: Seq<char>,
    pub created_at: i64,
    pub modified_at: i64,
    pub content: Option<Seq<char>>,
}

impl View for SessionRow {
    type V = SessionRowView;

    open spec fn view(&self) -> SessionRowView {
        SessionRowView {
            id: self.id@,
            name: self.name@,
            created_at: self.created_at,
            modified_at: self.modified_at,
            content: text_of(self.content),
        }
    }
}

/// The row in which a session is stored.
pub open spec fn row_of_session(s: SessionView) -> SessionRowView {
    SessionRowView {
        id: uuid_text(s.id),
        name: s.name,
        created_at: s.created_at,
        modified_at: s.modified_at,
        content: s.content,
    }
}

/// The session a stored row holds, if its identifier parses.
pub open spec fn session_of_row(r: SessionRowView) -> Option<SessionView> {
    match uuid_parse_outcome(r.id) {
        Ok(v) => Some(
            SessionView {
                id: v,
                name: r.name,
                created_at: r.created_at,
                modified_at: r.modified_at,
                content: r.content,
            },
        ),
        Err(_) => None,
    }
}

/// An error of the storage, with a message.
pub struct StorageError {
    pub message: String,
}

impl StorageError {
    /// The error for a failed file-system operation.
    pub fn stdio() -> (r: StorageError)
        ensures
            r.message@ == "Stdio error"@,
    {
        StorageError { message: String::from_str("Stdio error") }
    }

    /// The error for a failed database operation.
    pub fn sqlite() -> (r: StorageError)
        ensures
            r.message@ == "Sqlite error"@,
    {
        StorageError { message: String::from_str("Sqlite error") }
    }

    /// The error for a stored session identifier that is not a UUID.
    pub fn uuid() -> (r: StorageError)
        ensures
            r.message@ == "uuid error"@,
    {
        StorageError { message: String::from_str("uuid error") }
    }
}

/// An error of the topic storage, with a message.
pub struct TopicStorageError {
    pub message: String,
}

impl TopicStorageError {
    /// The error for a failed file-system operation.
    pub fn stdio() -> (r: TopicStorageError)
        ensures
            r.message@ == "TopicStorageError stdio error"@,
    {
        TopicStorageError { message: String::from_str("TopicStorageError stdio error") }
    }

    /// The error for a failed database operation.
    pub fn sqlite() -> (r: TopicStorageError)
        ensures
            r.message@ == "TopicStorageError sqlite error"@,
    {
        TopicStorageError { message: String::from_str("TopicStorageError sqlite error") }
    }
}

/// The row in which a session is stored.
pub fn session_to_row(session: &Session) -> (r: SessionRow)
    ensures
        r@ == row_of_session(session@),
        session_of_row(r@) == Some(session@),
{
    proof {
        law_session_row_round_trip(session@);
    }
    SessionRow {
        id: session.id.to_text(),
        name: session.name.clone(),
        created_at: session.created_at,
        modified_at: session.modified_at,
        content: clone_text(&session.content),
    }
}

/// The error a stored session row gives, if any, in the order in which it
/// is checked: for an identifier that is not a UUID, the text of the error
/// that the uuid crate reports; then a creation time, then a modification
/// time that is not a moment the library holds.
pub open spec fn session_row_error(r: SessionRowView) -> Option<Seq<char>> {
    if uuid_parse_outcome(r.id) is Err {
        Some(uuid_parse_outcome(r.id)->Err_0)
    } else if !storable_time(r.created_at) {
        Some("Expecting valid epoc for created_at"@)
    } else if !storable_time(r.modified_at) {
        Some("Expecting valid epoc for modified_at"@)
    } else {
        None
    }
}

/// The session that a stored row holds, or the storage error that the row
/// gives.
pub fn session_from_row(row: SessionRow) -> (r: Result<Session, StorageError>)
    ensures
        r is Ok <==> session_row_error(row@) is None,
        r matches Ok(s) ==> session_of_row(row@) == Some(s@),
        r matches Err(e) ==> session_row_error(row@) == Some(e.message@),
{
    match SessionId::parse(row.id.as_str()) {
        Ok(id) => {
            if !moment_exists(row.created_at) {
                return Err(
                    StorageError { message: String::from_str("Expecting valid epoc for created_at") },
                );
            }
            if !moment_exists(row.modified_at) {
                return Err(
                    StorageError { message: String::from_str("Expecting valid epoc for modified_at") },
                );
            }
            Ok(
                Session {
                    id,
                    name: row.name,
                    created_at: row.created_at,
                    modified_at: row.modified_at,
                    content: row.content,
                },
            )
        },
        Err(e) => Err(StorageError { message: e }),
    }
}

/// A stored session reads back as it was written, given that the
/// identifier's text parses back to the identifier (which `uuid_to_text`
/// states of every identifier it writes).
pub proof fn law_session_row_round_trip(s: SessionView)
    ensures
        uuid_parse_outcome(uuid_text(s.id)) == Ok::<u128, Seq<char>>(s.id) ==> session_of_row(
            row_of_session(s),
        ) == Some(s),
        uuid_parse_outcome(uuid_text(s.id)) == Ok::<u128, Seq<char>>(s.id) && utc_moment_exists(
            s.created_at,
        ) && utc_moment_exists(s.modified_at) ==> session_row_error(row_of_session(s)) is None,
{
}

/// The version of the database schema that this library writes.
pub const SCHEMA_VERSION: u32 = 1;

/// Whether a database at the given schema version still needs the first
/// migration, which creates the sessions and topics tables.
pub fn needs_first_migration(version: u32) -> (r: bool)
    ensures
        r == (version < 1),
{
    version < 1
}

/// The connection details of a remote database replica.
pub struct TursoConfig {
    pub url: String,
    pub token: String,
}

/// The optional synchronisation settings.
pub struct SyncConfig {
    pub turso: TursoConfig,
}

} // verus!
