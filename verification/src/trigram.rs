//! Trigram similarity between a search text and a topic name.
use vstd::prelude::*;
use vstd::set_lib::lemma_set_intersect_union_lens;

use crate::text::{chars_of, lowercase, lowercased};

verus! {

broadcast use vstd::seq_lib::group_seq_properties;

/// Three consecutive characters.
pub type Trigram = (char, char, char);

/// The trigram that starts at position `i` of `s`.
pub open spec fn trigram_at(s: Seq<char>, i: int) -> Trigram {
    (s[i], s[i + 1], s[i + 2])
}

/// Every run of three consecutive characters of `s`.
pub open spec fn trigram_set(s: Seq<char>) -> Set<Trigram> {
    Set::new(|t: Trigram| exists|i: int| 0 <= i && i + 3 <= s.len() && t == trigram_at(s, i))
}

/// The trigrams of a text once lowercased.
pub open spec fn text_trigrams(text: Seq<char>) -> Set<Trigram> {
    trigram_set(lowercased(text))
}

/// The number of trigrams two texts share.
pub open spec fn shared_trigram_count(a: Seq<char>, b: Seq<char>) -> nat {
    text_trigrams(a).intersect(text_trigrams(b)).len()
}

/// The number of trigrams found in either of two texts.
pub open spec fn total_trigram_count(a: Seq<char>, b: Seq<char>) -> nat {
    text_trigrams(a).union(text_trigrams(b)).len()
}

/// The similarity `shared / total` is at least one fifth. Where the texts have
/// no trigram at all the ratio is undefined and the texts are not similar.
pub open spec fn texts_are_similar(search: Seq<char>, candidate: Seq<char>) -> bool {
    &&& total_trigram_count(search, candidate) > 0
    &&& 5 * shared_trigram_count(search, candidate) >= total_trigram_count(search, candidate)
}

/// The similarity of two texts as the ratio of shared trigrams to all trigrams.
pub struct TrigramRatio {
    pub shared: usize,
    pub total: usize,
}

fn has_trigram(v: &Vec<Trigram>, t: Trigram) -> (r: bool)
    ensures
        r == v@.contains(t),
{
    let mut i: usize = 0;
    while i < v.len()
        invariant
            i <= v.len(),
            forall|j: int| 0 <= j < i ==> v@[j] != t,
        decreases v.len() - i,
    {
        let u = v[i];
        if u.0 == t.0 && u.1 == t.1 && u.2 == t.2 {
            assert(v@[i as int] == t);
            return true;
        }
        i = i + 1;
    }
    false
}

/// The distinct trigrams of a text once lowercased, each once.
pub fn trigrams(value: &str) -> (r: Vec<Trigram>)
    ensures
        r@.no_duplicates(),
        r@.to_set() == text_trigrams(value@),
{
    let lower = lowercase(value);
    let chars = chars_of(lower.as_str());
    let ghost s = lowered_view(value@);
    let mut out: Vec<Trigram> = Vec::new();
    let mut i: usize = 0;
    while chars.len() >= 3 && i < chars.len() - 2
        invariant
            i <= chars.len(),
            s == chars@,
            s == lowercased(value@),
            out@.no_duplicates(),
            forall|t: Trigram|
                out@.contains(t) <==> exists|j: int| 0 <= j < i && j + 3 <= s.len() && t == trigram_at(s, j),
        decreases chars.len() - i,
    {
        let t = (chars[i], chars[i + 1], chars[i + 2]);
        assert(t == trigram_at(s, i as int));
        if !has_trigram(&out, t) {
            out.push(t);
        }
        assert forall|u: Trigram|
            out@.contains(u) <==> exists|j: int| 0 <= j < i + 1 && j + 3 <= s.len() && u == trigram_at(s, j) by {
            if out@.contains(u) && u != t {
                assert(exists|j: int| 0 <= j < i && j + 3 <= s.len() && u == trigram_at(s, j));
            }
            if exists|j: int| 0 <= j < i + 1 && j + 3 <= s.len() && u == trigram_at(s, j) {
                let j = choose|j: int| 0 <= j < i + 1 && j + 3 <= s.len() && u == trigram_at(s, j);
                if j < i {
                    assert(out@.contains(u));
                } else {
                    assert(u == t);
                }
            }
        }
        i = i + 1;
    }
    assert(out@.to_set() =~= trigram_set(s)) by {
        assert forall|t: Trigram| out@.to_set().contains(t) <==> trigram_set(s).contains(t) by {
            if trigram_set(s).contains(t) {
                let j = choose|j: int| 0 <= j && j + 3 <= s.len() && t == trigram_at(s, j);
                assert(j < i);
            }
        }
    }
    out
}

fn copy_trigrams(v: &Vec<Trigram>) -> (r: Vec<Trigram>)
    ensures
        r@ == v@,
{
    let mut out: Vec<Trigram> = Vec::new();
    let mut i: usize = 0;
    while i < v.len()
        invariant
            i <= v.len(),
            out@ == v@.take(i as int),
        decreases v.len() - i,
    {
        out.push(v[i]);
        i = i + 1;
        assert(out@ =~= v@.take(i as int));
    }
    assert(v@.take(v.len() as int) =~= v@);
    out
}

spec fn lowered_view(text: Seq<char>) -> Seq<char> {
    lowercased(text)
}

/// The trigram ratio between a search text and a candidate, both lowercased:
/// how many distinct trigrams they share and how many there are in all.
pub fn trigram_similarity(search: &str, candidate: &str) -> (r: TrigramRatio)
    ensures
        r.shared == shared_trigram_count(search@, candidate@),
        r.total == total_trigram_count(search@, candidate@),
{
    let value_trigrams = trigrams(candidate);
    let search_trigrams = trigrams(search);
    let ghost a = text_trigrams(candidate@);
    let ghost b = text_trigrams(search@);
    let mut common: Vec<Trigram> = Vec::new();
    let mut i: usize = 0;
    while i < search_trigrams.len()
        invariant
            i <= search_trigrams.len(),
            search_trigrams@.no_duplicates(),
            common@.no_duplicates(),
            forall|t: Trigram|
                common@.contains(t) <==> (exists|j: int| 0 <= j < i && search_trigrams@[j] == t)
                    && value_trigrams@.contains(t),
            common@.len() <= i,
        decreases search_trigrams.len() - i,
    {
        let t = search_trigrams[i];
        if has_trigram(&value_trigrams, t) {
            assert(!common@.contains(t)) by {
                if common@.contains(t) {
                    let j = choose|j: int| 0 <= j < i && search_trigrams@[j] == t;
                    assert(search_trigrams@[j] == search_trigrams@[i as int]);
                }
            }
            common.push(t);
        }
        assert forall|u: Trigram|
            common@.contains(u) <==> (exists|j: int| 0 <= j < i + 1 && search_trigrams@[j] == u)
                && value_trigrams@.contains(u) by {
            if exists|j: int| 0 <= j < i + 1 && search_trigrams@[j] == u {
                let j = choose|j: int| 0 <= j < i + 1 && search_trigrams@[j] == u;
                if j < i {
                    assert(exists|k: int| 0 <= k < i && search_trigrams@[k] == u);
                }
            }
        }
        i = i + 1;
    }
    let mut all: Vec<Trigram> = copy_trigrams(&search_trigrams);
    let mut k: usize = 0;
    while k < value_trigrams.len()
        invariant
            k <= value_trigrams.len(),
            value_trigrams@.no_duplicates(),
            search_trigrams@.no_duplicates(),
            all@.no_duplicates(),
            forall|t: Trigram|
                all@.contains(t) <==> search_trigrams@.contains(t) || exists|j: int|
                    0 <= j < k && value_trigrams@[j] == t,
        decreases value_trigrams.len() - k,
    {
        let t = value_trigrams[k];
        if !has_trigram(&search_trigrams, t) {
            assert(!all@.contains(t)) by {
                if all@.contains(t) {
                    let j = choose|j: int| 0 <= j < k && value_trigrams@[j] == t;
                    assert(value_trigrams@[j] == value_trigrams@[k as int]);
                }
            }
            all.push(t);
        }
        assert forall|u: Trigram|
            all@.contains(u) <==> search_trigrams@.contains(u) || exists|j: int|
                0 <= j < k + 1 && value_trigrams@[j] == u by {
            if exists|j: int| 0 <= j < k + 1 && value_trigrams@[j] == u {
                let j = choose|j: int| 0 <= j < k + 1 && value_trigrams@[j] == u;
                if j < k {
                    assert(exists|m: int| 0 <= m < k && value_trigrams@[m] == u);
                }
            }
        }
        k = k + 1;
    }
    proof {
        assert(common@.to_set() =~= a.intersect(b)) by {
            assert forall|t: Trigram| common@.to_set().contains(t) <==> a.intersect(b).contains(t) by {
                if b.contains(t) {
                    assert(search_trigrams@.to_set().contains(t));
                    let j = search_trigrams@.index_of(t);
                }
            }
        }
        assert(all@.to_set() =~= a.union(b)) by {
            assert forall|t: Trigram| all@.to_set().contains(t) <==> a.union(b).contains(t) by {
                if a.contains(t) {
                    assert(value_trigrams@.to_set().contains(t));
                    let j = value_trigrams@.index_of(t);
                }
            }
        }
        assert(a.intersect(b) =~= b.intersect(a));
        assert(a.union(b) =~= b.union(a));
        common@.unique_seq_to_set();
        all@.unique_seq_to_set();
    }
    TrigramRatio { shared: common.len(), total: all.len() }
}

/// Two texts are similar exactly when they have some trigram and the shared
/// trigrams make up at least a fifth (a ratio of 0.2) of all their distinct
/// trigrams; with no trigram at all they are not similar.
pub proof fn law_similarity_threshold(search: Seq<char>, candidate: Seq<char>)
    ensures
        texts_are_similar(search, candidate) <==> (total_trigram_count(search, candidate) > 0
            && shared_trigram_count(search, candidate) * 5 >= total_trigram_count(search, candidate)),
        total_trigram_count(search, candidate) == 0 ==> !texts_are_similar(search, candidate),
{
}

/// Similarity does not depend on which text is searched for: the shared and
/// total trigram counts are the same either way round.
pub proof fn law_similarity_symmetric(a: Seq<char>, b: Seq<char>)
    ensures
        shared_trigram_count(a, b) == shared_trigram_count(b, a),
        total_trigram_count(a, b) == total_trigram_count(b, a),
        texts_are_similar(a, b) == texts_are_similar(b, a),
{
    assert(text_trigrams(a).intersect(text_trigrams(b)) =~= text_trigrams(b).intersect(text_trigrams(a)));
    assert(text_trigrams(a).union(text_trigrams(b)) =~= text_trigrams(b).union(text_trigrams(a)));
}

/// A text shares all of its trigrams with itself, so a text with at least one
/// trigram is similar to itself (its ratio is one).
pub proof fn law_text_matches_itself(a: Seq<char>)
    ensures
        shared_trigram_count(a, a) == total_trigram_count(a, a),
        total_trigram_count(a, a) > 0 ==> texts_are_similar(a, a),
{
    assert(text_trigrams(a).intersect(text_trigrams(a)) =~= text_trigrams(a).union(text_trigrams(a)));
}

/// The trigrams of a text are finitely many: those at its positions.
pub proof fn lemma_trigram_set_finite(s: Seq<char>)
    ensures
        trigram_set(s).finite(),
{
    let n: int = if s.len() >= 3 { s.len() - 2 } else { 0 };
    let at = Seq::new(n as nat, |i: int| trigram_at(s, i));
    assert forall|t: Trigram| trigram_set(s).contains(t) <==> at.to_set().contains(t) by {
        if trigram_set(s).contains(t) {
            let i = choose|i: int| 0 <= i && i + 3 <= s.len() && t == trigram_at(s, i);
            assert(at[i] == t);
        }
        if at.to_set().contains(t) {
            let i = choose|i: int| 0 <= i < at.len() && at[i] == t;
            assert(t == trigram_at(s, i));
        }
    }
    assert(trigram_set(s) =~= at.to_set());
    vstd::seq_lib::seq_to_set_is_finite(at);
}

/// The similarity ratio lies between 0 and 1: two texts share no more
/// trigrams than they have in all. It is 1 (where there is any trigram)
/// exactly when the texts have the same trigrams, and 0 exactly when they
/// have none in common.
pub proof fn law_similarity_ratio_bounds(a: Seq<char>, b: Seq<char>)
    ensures
        shared_trigram_count(a, b) <= total_trigram_count(a, b),
        total_trigram_count(a, b) > 0 ==> (shared_trigram_count(a, b) == total_trigram_count(a, b)
            <==> text_trigrams(a) == text_trigrams(b)),
        shared_trigram_count(a, b) == 0 <==> text_trigrams(a).disjoint(text_trigrams(b)),
{
    let x = text_trigrams(a);
    let y = text_trigrams(b);
    lemma_trigram_set_finite(lowercased(a));
    lemma_trigram_set_finite(lowercased(b));
    let i = x.intersect(y);
    let u = x.union(y);
    vstd::set_lib::lemma_set_union_finite_iff(x, y);
    assert(i.subset_of(u));
    vstd::set_lib::lemma_len_subset(i, u);
    if i.len() == u.len() {
        vstd::set_lib::lemma_subset_equality(i, u);
        assert forall|t: Trigram| x.contains(t) <==> y.contains(t) by {
            assert(u.contains(t) ==> i.contains(t));
        }
        assert(x =~= y);
    }
    if x == y {
        assert(i =~= u);
    }
    vstd::set_lib::lemma_set_empty_equivalency_len(i);
    if x.disjoint(y) {
        assert(i =~= Set::<Trigram>::empty());
    }
    if i.len() == 0 {
        assert forall|t: Trigram| x.contains(t) implies !y.contains(t) by {
            if y.contains(t) {
                assert(i.contains(t));
            }
        }
    }
}

} // verus!
