//! The first mentor server's knowledge tools, whose answers are fixed.
use vstd::prelude::*;
use vstd::string::StringExecFns;

verus! {

/// Parameters of the knowledge check: one topic or several.
pub struct KnowledgeCheckParams {
    pub topics: Option<Vec<String>>,
    pub topic: Option<String>,
}

/// Parameters of the knowledge update: a topic, the quality of the answer,
/// and an optional category.
pub struct KnowledgeUpdateParams {
    pub topic: String,
    pub quality: usize,
    pub category: Option<String>,
}

/// Parameters of the review candidates tool.
pub struct ReviewCandidatesParams {
    pub limit: usize,
}

/// A topic's knowledge check.
pub struct KnowledgeCheckResult {
    pub topic: String,
    pub known: bool,
    pub confidence: usize,
    pub question_depth: String,
    pub days_since_review: Option<usize>,
    pub message: String,
}

/// A topic's knowledge update.
pub struct KnowledgeUpdateResult {
    pub topic: String,
    pub previous_confidence: usize,
    pub new_confidence: usize,
    pub next_review_in_days: usize,
    pub message: String,
}

/// A topic to review.
pub struct ReviewCandidate {
    pub topic: String,
    pub confidence: usize,
    pub day_since_review: usize,
    pub message: String,
}

/// The knowledge check's answer, which this server fixes whatever it is
/// asked: one result for the empty topic, known, confidence 2, depth `low`,
/// ten days since review.
pub fn knowledge_check(params: &KnowledgeCheckParams) -> (r: Vec<KnowledgeCheckResult>)
    ensures
        r.len() == 1,
        r@[0].topic@ == ""@,
        r@[0].known,
        r@[0].confidence == 2,
        r@[0].question_depth@ == "low"@,
        r@[0].days_since_review == Some(10usize),
        r@[0].message@ == "message"@,
{
    let result = KnowledgeCheckResult {
        topic: String::from_str(""),
        known: true,
        confidence: 2,
        question_depth: String::from_str("low"),
        days_since_review: Some(10),
        message: String::from_str("message"),
    };
    let mut results: Vec<KnowledgeCheckResult> = Vec::new();
    results.push(result);
    results
}

/// The knowledge update's answer, which this server fixes: the empty topic,
/// confidence from 0 to 1, next review in ten days.
pub fn update_knowledge(params: &KnowledgeUpdateParams) -> (r: KnowledgeUpdateResult)
    ensures
        r.topic@ == ""@,
        r.message@ == "message"@,
        r.previous_confidence == 0,
        r.new_confidence == 1,
        r.next_review_in_days == 10,
{
    KnowledgeUpdateResult {
        topic: String::from_str(""),
        message: String::from_str("message"),
        previous_confidence: 0,
        new_confidence: 1,
        next_review_in_days: 10,
    }
}

/// The review candidates' answer, which this server fixes: one topic named
/// `topic`, confidence 0, one day since review.
pub fn get_review_candidates(params: &ReviewCandidatesParams) -> (r: ReviewCandidate)
    ensures
        r.topic@ == "topic"@,
        r.confidence == 0,
        r.day_since_review == 1,
        r.message@ == "message"@,
{
    ReviewCandidate {
        topic: String::from_str("topic"),
        confidence: 0,
        day_since_review: 1,
        message: String::from_str("message"),
    }
}

} // verus!
