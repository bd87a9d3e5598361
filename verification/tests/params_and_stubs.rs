use mentor::knowledge_tools::{
    get_review_candidates, knowledge_check, update_knowledge, KnowledgeCheckParams,
    KnowledgeUpdateParams, ReviewCandidatesParams,
};
use mentor::display::decimal_text;
use mentor::migration::session_file_name;
use mentor::params::{deserialize_string_vec, deserialize_usize, JsonItem, JsonList, JsonScalar};

#[test]
fn usize_from_number_or_text() {
    assert_eq!(deserialize_usize(JsonScalar::Number(Some(5))).ok(), Some(5));
    assert_eq!(deserialize_usize(JsonScalar::Text("42".to_string())).ok(), Some(42));
    assert_eq!(
        deserialize_usize(JsonScalar::Number(None)).err(),
        Some("expected non-negative integer".to_string())
    );
    assert_eq!(
        deserialize_usize(JsonScalar::Other("true".to_string())).err(),
        Some("expected integer, got true".to_string())
    );
    assert_eq!(
        deserialize_usize(JsonScalar::Text("x1".to_string())).err(),
        Some("invalid digit found in string".to_string())
    );
}

#[test]
fn string_lists_from_arrays_text_or_null() {
    let arr = JsonList::Array(vec![JsonItem::Text("a".to_string()), JsonItem::Text("b".to_string())]);
    assert_eq!(deserialize_string_vec(arr).ok(), Some(Some(vec!["a".to_string(), "b".to_string()])));
    let bad = JsonList::Array(vec![JsonItem::Text("a".to_string()), JsonItem::Other("3".to_string())]);
    assert_eq!(deserialize_string_vec(bad).err(), Some("expected string, got 3".to_string()));
    assert_eq!(
        deserialize_string_vec(JsonList::Text("[\"x\"]".to_string())).ok(),
        Some(Some(vec!["x".to_string()]))
    );
    assert!(deserialize_string_vec(JsonList::Text("[1".to_string())).is_err());
    assert_eq!(deserialize_string_vec(JsonList::Null).ok(), Some(None));
    assert_eq!(
        deserialize_string_vec(JsonList::Other("{}".to_string())).err(),
        Some("expected array, got {}".to_string())
    );
}

#[test]
fn knowledge_tools_answer_fixed_values() {
    let check = knowledge_check(&KnowledgeCheckParams { topics: None, topic: Some("t".to_string()) });
    assert_eq!(check.len(), 1);
    assert_eq!(check[0].question_depth, "low");
    assert_eq!(check[0].days_since_review, Some(10));
    let update = update_knowledge(&KnowledgeUpdateParams {
        topic: "t".to_string(),
        quality: 3,
        category: None,
    });
    assert_eq!((update.previous_confidence, update.new_confidence, update.next_review_in_days), (0, 1, 10));
    let candidate = get_review_candidates(&ReviewCandidatesParams { limit: 3 });
    assert_eq!(candidate.topic, "topic");
    assert_eq!(candidate.day_since_review, 1);
}

#[test]
fn session_file_names() {
    assert_eq!(session_file_name("my session name"), "my_session_name.md");
    assert_eq!(session_file_name(""), ".md");
}

#[test]
fn decimal_text_reads_back() {
    for n in [0u64, 7, 10, 1234, 18446744073709551615] {
        let text = decimal_text(n);
        assert_eq!(deserialize_usize(JsonScalar::Text(text)), Ok(n as usize));
    }
}

#[test]
fn usize_text_forms() {
    assert_eq!(deserialize_usize(JsonScalar::Text("+42".to_string())), Ok(42));
    assert!(deserialize_usize(JsonScalar::Text(" 42".to_string())).is_err());
    assert!(deserialize_usize(JsonScalar::Text("-1".to_string())).is_err());
    assert!(deserialize_usize(JsonScalar::Text("+".to_string())).is_err());
    assert!(deserialize_usize(JsonScalar::Text("".to_string())).is_err());
    assert!(deserialize_usize(JsonScalar::Text("99999999999999999999999".to_string())).is_err());
}
