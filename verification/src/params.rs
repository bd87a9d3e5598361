//! The parameters that the mentor's tools accept, and how loosely typed
//! parameters are read.
use vstd::prelude::*;
use vstd::string::StringExecFns;

use crate::tools::string_views;

verus! {

/// Parameters of the session creation tool.
pub struct CreateSessionParams {
    pub name: String,
}

/// Parameters of the tool that lists sessions.
pub struct GetAllSessionsParams {
    pub limit: usize,
}

/// Parameters of the topic search tool.
pub struct GetTopicsParams {
    pub search: String,
}

/// Parameters of the tool that lists every topic.
pub struct ListAllTopicsParams {}

/// A topic listed with its categories.
pub struct TopicEntry {
    pub name: String,
    pub categories: Vec<String>,
}

/// Parameters of the tool that sets a topic's categories.
pub struct SetTopicCategoriesParams {
    pub topic: String,
    pub categories: Vec<String>,
}

/// A topic's categories after they were set.
pub struct SetTopicCategoriesResult {
    pub topic: String,
    pub categories: Vec<String>,
}

/// Parameters of the tool that lists topics due for review.
pub struct TopicCandidatesParams {
    pub limit: usize,
}

/// Parameters of the session update tool.
pub struct UpdateSessionParams {
    pub session_id: String,
    pub content: String,
}

/// Parameters of the tool that updates a topic's categories.
pub struct UpdateTopicCategoriesParams {
    pub topic: String,
    pub categories: Vec<String>,
}

/// Parameters of the review tool: the topic and the quality of the answer.
pub struct ReviewTopicParams {
    pub topic: String,
    pub quality: usize,
}

/// Parameters of the question depth tool.
pub struct TopicDepthParams {
    pub topic: String,
}

/// Parameters of the topic search tool of the first server.
pub struct TopicsParams {
    pub search: String,
}

/// A JSON value where a whole number is expected: a number (with its value
/// when it is a non-negative integer that fits 64 bits), a string, or any
/// other value, given by its JSON text.
pub enum JsonScalar {
    Number(Option<u64>),
    Text(String),
    Other(String),
}

/// What `str::parse::<usize>` makes of a text: the number, or the text of
/// the error.
pub uninterp spec fn usize_parse_outcome(text: Seq<char>) -> Result<usize, Seq<char>>;

/// Whether a text is one or more ASCII decimal digits.
pub open spec fn is_decimal(text: Seq<char>) -> bool {
    text.len() > 0 && forall|i: int| 0 <= i < text.len() ==> '0' <= #[trigger] text[i] <= '9'
}

/// The value of a text of decimal digits.
pub open spec fn decimal_value(text: Seq<char>) -> int
    decreases text.len(),
{
    if text.len() == 0 {
        0
    } else {
        decimal_value(text.drop_last()) * 10 + (text.last() as int - '0' as int)
    }
}

/// Whether a text is in the form that `usize::from_str` reads: an optional
/// `+` followed by one or more ASCII digits.
pub open spec fn usize_form(text: Seq<char>) -> bool {
    is_decimal(text) || (text.len() > 0 && text[0] == '+' && is_decimal(text.drop_first()))
}

/// The digits of a text in that form.
pub open spec fn usize_digits(text: Seq<char>) -> Seq<char> {
    if text.len() > 0 && text[0] == '+' {
        text.drop_first()
    } else {
        text
    }
}

/// Calls `str::parse::<usize>` and converts an error to its text. The outcome
/// is named `usize_parse_outcome`. The documentation of `from_str_radix`
/// (which `from_str` calls with radix 10) says that the text must be an
/// optional `+` followed by digits only, with any other character an error,
/// and an error is also reported for a value that does not fit; the digits'
/// value is the result. The error texts are not documented and are left to
/// the name.
#[verifier::external_body]
pub(crate) fn parse_usize(text: &str) -> (r: Result<usize, String>)
    ensures
        r matches Ok(v) ==> usize_parse_outcome(text@) is Ok && usize_parse_outcome(text@)->Ok_0 == v,
        r matches Err(e) ==> usize_parse_outcome(text@) is Err && usize_parse_outcome(text@)->Err_0
            == e@,
        r matches Ok(v) ==> usize_form(text@) && v == decimal_value(usize_digits(text@)),
        usize_form(text@) && decimal_value(usize_digits(text@)) <= usize::MAX ==> r is Ok,
{
    text.parse::<usize>().map_err(|e| e.to_string())
}

/// The answer for a whole number parameter: a non-negative integer is taken
/// (converted with `as usize`), a string is parsed, anything else is an error.
pub open spec fn usize_outcome(value: JsonScalar) -> Result<usize, Seq<char>> {
    match value {
        JsonScalar::Number(Some(n)) => Ok(n as usize),
        JsonScalar::Number(None) => Err("expected non-negative integer"@),
        JsonScalar::Text(s) => usize_parse_outcome(s@),
        JsonScalar::Other(text) => Err("expected integer, got "@ + text@),
    }
}

/// Reads a whole number parameter that may come as a number or as text.
pub fn deserialize_usize(value: JsonScalar) -> (r: Result<usize, String>)
    ensures
        match (r, usize_outcome(value)) {
            (Ok(n), Ok(m)) => n == m,
            (Err(e), Err(m)) => e@ == m,
            _ => false,
        },
        value matches JsonScalar::Text(s) ==> (r is Ok <==> usize_form(s@) && decimal_value(
            usize_digits(s@),
        ) <= usize::MAX),
        value matches JsonScalar::Text(s) ==> (r matches Ok(v) ==> v == decimal_value(
            usize_digits(s@),
        )),
{
    match value {
        JsonScalar::Number(Some(n)) => Ok(n as usize),
        JsonScalar::Number(None) => Err(String::from_str("expected non-negative integer")),
        JsonScalar::Text(s) => parse_usize(s.as_str()),
        JsonScalar::Other(text) => {
            let mut message = String::from_str("expected integer, got ");
            message.append(text.as_str());
            Err(message)
        },
    }
}

/// An element of a JSON array of texts: a string, or another value given by
/// its JSON text.
pub enum JsonItem {
    Text(String),
    Other(String),
}

/// A JSON value where a list of texts is expected.
pub enum JsonList {
    Array(Vec<JsonItem>),
    Text(String),
    Null,
    Other(String),
}

/// The view of an optional list of strings.
pub open spec fn optional_list_view(v: Option<Vec<String>>) -> Option<Seq<Seq<char>>> {
    match v {
        Some(l) => Some(string_views(l@)),
        None => None,
    }
}

/// What `serde_json::from_str::<Option<Vec<String>>>` makes of a text: the
/// list (or none, for `null`), or the text of the error.
pub uninterp spec fn json_list_outcome(text: Seq<char>) -> Result<Option<Seq<Seq<char>>>, Seq<char>>;

/// Calls `serde_json::from_str::<Option<Vec<String>>>` and converts an error
/// to its text. The outcome is named `json_list_outcome`.
#[verifier::external_body]
fn parse_json_list(text: &str) -> (r: Result<Option<Vec<String>>, String>)
    ensures
        r matches Ok(v) ==> json_list_outcome(text@) is Ok && json_list_outcome(text@)->Ok_0
            == optional_list_view(v),
        r matches Err(e) ==> json_list_outcome(text@) is Err && json_list_outcome(text@)->Err_0
            == e@,
{
    serde_json::from_str::<Option<Vec<String>>>(text).map_err(|e| e.to_string())
}

/// The first element of an array that is not a string, if any.
pub open spec fn first_non_text(items: Seq<JsonItem>) -> Option<Seq<char>>
    decreases items.len(),
{
    if items.len() == 0 {
        None
    } else {
        match items[0] {
            JsonItem::Other(text) => Some(text@),
            JsonItem::Text(_) => first_non_text(items.drop_first()),
        }
    }
}

/// The texts of an array whose elements are all strings.
pub open spec fn item_texts(items: Seq<JsonItem>) -> Seq<Seq<char>> {
    items.map_values(|i: JsonItem| match i {
        JsonItem::Text(s) => s@,
        JsonItem::Other(t) => t@,
    })
}

/// The answer for a list parameter: an array of strings is taken, a string
/// is read as JSON, `null` is no list, and anything else is an error.
pub open spec fn list_outcome(value: JsonList) -> Result<Option<Seq<Seq<char>>>, Seq<char>> {
    match value {
        JsonList::Array(items) => match first_non_text(items@) {
            Some(text) => Err("expected string, got "@ + text),
            None => Ok(Some(item_texts(items@))),
        },
        JsonList::Text(s) => json_list_outcome(s@),
        JsonList::Null => Ok(None),
        JsonList::Other(text) => Err("expected array, got "@ + text@),
    }
}

/// Reads a list parameter that may come as an array, as JSON text, or as null.
pub fn deserialize_string_vec(value: JsonList) -> (r: Result<Option<Vec<String>>, String>)
    ensures
        match (r, list_outcome(value)) {
            (Ok(v), Ok(w)) => optional_list_view(v) == w,
            (Err(e), Err(m)) => e@ == m,
            _ => false,
        },
{
    match value {
        JsonList::Array(items) => {
            let ghost all = items@;
            let mut out: Vec<String> = Vec::new();
            let mut i: usize = 0;
            assert(all.skip(0) =~= all);
            while i < items.len()
                invariant
                    i <= items.len(),
                    all == items@,
                    value == JsonList::Array(items),
                    string_views(out@) == item_texts(all.take(i as int)),
                    first_non_text(all) == first_non_text(all.skip(i as int)),
                decreases items.len() - i,
            {
                assert(all.skip(i as int).drop_first() =~= all.skip(i + 1));
                assert(all.skip(i as int)[0] == all[i as int]);
                match &items[i] {
                    JsonItem::Text(s) => {
                        let ghost before = string_views(out@);
                        out.push(s.clone());
                        assert(string_views(out@) =~= before.push(s@));
                        assert(item_texts(all.take(i + 1)) =~= item_texts(all.take(i as int)).push(s@));
                    },
                    JsonItem::Other(text) => {
                        assert(first_non_text(all.skip(i as int)) == Some(text@));
                        let mut message = String::from_str("expected string, got ");
                        message.append(text.as_str());
                        return Err(message);
                    },
                }
                i = i + 1;
            }
            assert(all.take(items.len() as int) =~= all);
            assert(all.skip(items.len() as int) =~= Seq::<JsonItem>::empty());
            Ok(Some(out))
        },
        JsonList::Text(s) => parse_json_list(s.as_str()),
        JsonList::Null => Ok(None),
        JsonList::Other(text) => {
            let mut message = String::from_str("expected array, got ");
            message.append(text.as_str());
            Err(message)
        },
    }
}

} // verus!
