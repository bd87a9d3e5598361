//! Mentor sessions and their identifiers.
use vstd::prelude::*;

verus! {

/// Whether a 128-bit value is a version 4 (random) UUID with the RFC 4122
/// variant: version nibble 4, variant bits `10`.
pub open spec fn is_random_uuid(v: u128) -> bool {
    &&& (v >> 76u128) & 0xFu128 == 4u128
    &&& (v >> 62u128) & 0x3u128 == 2u128
}

/// The lowercase hexadecimal digit for a value below sixteen.
pub open spec fn hex_digit(v: int) -> char {
    if v < 10 {
        (('0' as int) + v) as char
    } else {
        (('a' as int) + v - 10) as char
    }
}

/// The position, among the 32 hexadecimal digits, of character `i` of the
/// hyphenated form (the hyphens stand at 8, 13, 18 and 23).
pub open spec fn digit_index(i: int) -> int {
    if i < 8 {
        i
    } else if i < 13 {
        i - 1
    } else if i < 18 {
        i - 2
    } else if i < 23 {
        i - 3
    } else {
        i - 4
    }
}

/// The hyphenated lowercase text of a UUID, `xxxxxxxx-xxxx-xxxx-xxxx-xxxxxxxxxxxx`,
/// with the most significant digit first.
pub open spec fn uuid_text(v: u128) -> Seq<char> {
    Seq::new(
        36,
        |i: int|
            if i == 8 || i == 13 || i == 18 || i == 23 {
                '-'
            } else {
                hex_digit(((v >> ((4 * (31 - digit_index(i))) as u128)) & 0xFu128) as int)
            },
    )
}

/// What `uuid::Uuid::parse_str` makes of a text: the UUID's 128-bit value, or
/// the text of the error it reports.
pub uninterp spec fn uuid_parse_outcome(text: Seq<char>) -> Result<u128, Seq<char>>;

/// Whether `uuid::Uuid::parse_str` reads the text as the UUID of value `v`.
pub open spec fn parses_to(text: Seq<char>, v: u128) -> bool {
    uuid_parse_outcome(text) == Ok::<u128, Seq<char>>(v)
}

/// Whether `uuid::Uuid::parse_str` rejects the text with the error text `message`.
pub open spec fn fails_with(text: Seq<char>, message: Seq<char>) -> bool {
    uuid_parse_outcome(text) == Err::<u128, Seq<char>>(message)
}

/// Calls `uuid::Uuid::new_v4` and returns the UUID's value (`Uuid::as_u128`).
/// The value is random; the crate's source sets the version nibble to 4 and
/// the variant bits to `10`, which is all that is stated of it.
#[verifier::external_body]
fn random_uuid() -> (r: u128)
    ensures
        is_random_uuid(r),
{
    uuid::Uuid::new_v4().as_u128()
}

/// Calls `uuid::Uuid::parse_str` and converts its result: the UUID's value
/// (`Uuid::as_u128`) or the error's text. The outcome is named
/// `uuid_parse_outcome`.
#[verifier::external_body]
pub(crate) fn parse_uuid(text: &str) -> (r: Result<u128, String>)
    ensures
        r matches Ok(v) ==> uuid_parse_outcome(text@) is Ok && uuid_parse_outcome(text@)->Ok_0 == v,
        r matches Err(e) ==> uuid_parse_outcome(text@) is Err && uuid_parse_outcome(text@)->Err_0
            == e@,
{
    match uuid::Uuid::parse_str(text) {
        Ok(u) => Ok(u.as_u128()),
        Err(e) => Err(e.to_string()),
    }
}

/// Calls `uuid::Uuid::from_u128(v).to_string()`. The crate's `Display` writes
/// the hyphenated lowercase form, and its documentation says that
/// `parse_str` reads every form it writes; both facts are stated.
#[verifier::external_body]
pub(crate) fn uuid_to_text(v: u128) -> (r: String)
    ensures
        r@ == uuid_text(v),
        uuid_parse_outcome(r@) is Ok && uuid_parse_outcome(r@)->Ok_0 == v,
{
    uuid::Uuid::from_u128(v).to_string()
}

/// The identifier of a session: a UUID, held as its 128-bit value.
#[derive(Clone, Copy, PartialEq, Eq, Structural, Debug)]
pub struct SessionId(pub u128);

impl SessionId {
    /// A fresh random identifier.
    pub fn new() -> (r: SessionId)
        ensures
            is_random_uuid(r.0),
    {
        SessionId(random_uuid())
    }

    /// The identifier's hyphenated lowercase text.
    pub fn to_text(&self) -> (r: String)
        ensures
            r@ == uuid_text(self.0),
            parses_to(r@, self.0),
    {
        uuid_to_text(self.0)
    }

    /// Reads an identifier from text, or gives the parser's error text.
    pub fn parse(text: &str) -> (r: Result<SessionId, String>)
        ensures
            r matches Ok(id) ==> parses_to(text@, id.0),
            r matches Err(e) ==> fails_with(text@, e@),
    {
        match parse_uuid(text) {
            Ok(v) => Ok(SessionId(v)),
            Err(e) => Err(e),
        }
    }
}

/// The view of optional text.
pub open spec fn text_of(content: Option<String>) -> Option<Seq<char>> {
    match content {
        Some(c) => Some(c@),
        None => None,
    }
}

pub(crate) fn clone_text(content: &Option<String>) -> (r: Option<String>)
    ensures
        text_of(r) == text_of(*content),
{
    match content {
        Some(c) => Some(c.clone()),
        None => None,
    }
}

/// A mentor session: its name, when it was created and last modified (in
/// seconds since the Unix epoch), and its content once written.
pub struct Session {
    pub id: SessionId,
    pub name: String,
    pub created_at: i64,
    pub modified_at: i64,
    pub content: Option<String>,
}

/// A session as plain values.
pub struct SessionView {
    pub id: u128,
    pub name: Seq<char>,
    pub created_at: i64,
    pub modified_at: i64,
    pub content: Option<Seq<char>>,
}

impl View for Session {
    type V = SessionView;

    open spec fn view(&self) -> SessionView {
        SessionView {
            id: self.id.0,
            name: self.name@,
            created_at: self.created_at,
            modified_at: self.modified_at,
            content: text_of(self.content),
        }
    }
}

impl Clone for Session {
    fn clone(&self) -> (r: Self)
        ensures
            r@ == self@,
    {
        Session {
            id: self.id,
            name: self.name.clone(),
            created_at: self.created_at,
            modified_at: self.modified_at,
            content: clone_text(&self.content),
        }
    }
}

impl Session {
    /// A new session with a fresh random identifier, created and modified at
    /// `created_at`, with no content yet.
    pub fn new(name: &str, created_at: i64) -> (r: Session)
        ensures
            is_random_uuid(r.id.0),
            r.name@ == name@,
            r.created_at == created_at,
            r.modified_at == created_at,
            r.content is None,
    {
        Session {
            id: SessionId::new(),
            name: name.to_owned(),
            created_at,
            modified_at: created_at,
            content: None,
        }
    }

    /// The session with new content, modified at `now`; its identifier, name
    /// and creation time are kept.
    pub fn update_content(self, content: &String, now: i64) -> (r: Session)
        ensures
            r@ == (SessionView {
                id: self.id.0,
                name: self.name@,
                created_at: self.created_at,
                modified_at: now,
                content: Some(content@),
            }),
    {
        Session {
            id: self.id,
            name: self.name,
            created_at: self.created_at,
            modified_at: now,
            content: Some(content.clone()),
        }
    }
}

} // verus!
