//! The decisions of the mentor's tools: what each tool asks of the storage,
//! and what it answers from what the storage gave back.
use vstd::prelude::*;
use vstd::string::StringExecFns;

use crate::migration::{draft_path, draft_path_of};
use crate::session::{parses_to, Session, SessionView};
use crate::sm2::{ease_change, ease_factor_change, reviewed};
use crate::text::{char_is_whitespace, chars_of, is_white_space, string_of};
use crate::topic::{
    depth_for, names_of, whole_days_between, QuestionDepth, Topic, TopicView,
};
use crate::trigram::{shared_trigram_count, texts_are_similar, total_trigram_count, trigram_similarity};

verus! {

/// Normalising a text left to right: the text so far, and whether a space is
/// owed before the next word.
pub open spec fn normalise_state(s: Seq<char>) -> (Seq<char>, bool)
    decreases s.len(),
{
    if s.len() == 0 {
        (Seq::empty(), false)
    } else {
        let (out, pending) = normalise_state(s.drop_last());
        let c = s.last();
        if is_white_space(c) {
            (out, out.len() > 0)
        } else if pending {
            (out.push(' ').push(c), false)
        } else {
            (out.push(c), false)
        }
    }
}

/// A topic name with its words separated by single spaces, and no white
/// space before the first word or after the last.
pub open spec fn normalised(s: Seq<char>) -> Seq<char> {
    normalise_state(s).0
}

/// Trims a topic name and collapses every run of white space in it to one space.
pub fn normalise_topic(name: &str) -> (r: String)
    ensures
        r@ == normalised(name@),
        r@ == space_joined(words(name@)),
        words(r@) == words(name@),
        r@.len() > 0 ==> !is_white_space(r@[0]) && !is_white_space(r@.last()),
        forall|i: int|
            0 <= i < r@.len() && is_white_space(#[trigger] r@[i]) ==> r@[i] == ' ' && 0 < i < r@.len()
                - 1 && r@[i + 1] != ' ',
{
    proof {
        law_normalised_is_words_joined(name@);
        law_normalise_keeps_words(name@);
    }
    let chars = chars_of(name);
    let mut out: Vec<char> = Vec::new();
    let mut pending = false;
    let mut i: usize = 0;
    while i < chars.len()
        invariant
            i <= chars.len(),
            chars@ == name@,
            normalise_state(chars@.take(i as int)) == (out@, pending),
        decreases chars.len() - i,
    {
        let c = chars[i];
        assert(chars@.take(i + 1).drop_last() =~= chars@.take(i as int));
        if char_is_whitespace(c) {
            pending = out.len() > 0;
        } else {
            if pending {
                out.push(' ');
            }
            out.push(c);
            pending = false;
        }
        i = i + 1;
    }
    assert(chars@.take(chars.len() as int) =~= chars@);
    string_of(&out)
}

/// A text is clean when white space appears in it only as single spaces
/// between two other characters.
pub open spec fn is_clean(t: Seq<char>) -> bool {
    forall|i: int|
        0 <= i < t.len() && is_white_space(#[trigger] t[i]) ==> t[i] == ' ' && 0 < i < t.len()
            - 1 && !is_white_space(t[i - 1]) && !is_white_space(t[i + 1])
}

proof fn lemma_normalise_state_clean(s: Seq<char>)
    ensures
        is_clean(normalise_state(s).0),
        normalise_state(s).1 ==> normalise_state(s).0.len() > 0,
        normalise_state(s).0.len() > 0 ==> !is_white_space(normalise_state(s).0.last()),
    decreases s.len(),
{
    if s.len() > 0 {
        lemma_normalise_state_clean(s.drop_last());
        let (out, pending) = normalise_state(s.drop_last());
        let c = s.last();
        if !is_white_space(c) {
            if pending {
                let t = out.push(' ').push(c);
                assert forall|i: int|
                    0 <= i < t.len() && is_white_space(#[trigger] t[i]) implies t[i] == ' ' && 0 < i
                    < t.len() - 1 && !is_white_space(t[i - 1]) && !is_white_space(t[i + 1]) by {
                    if i < out.len() {
                        assert(t[i] == out[i]);
                        if i + 1 < out.len() {
                            assert(t[i + 1] == out[i + 1]);
                        } else {
                            assert(false);
                        }
                        assert(t[i - 1] == out[i - 1]);
                    } else if i == out.len() {
                        assert(t[i - 1] == out.last());
                    }
                }
            } else {
                let t = out.push(c);
                assert forall|i: int|
                    0 <= i < t.len() && is_white_space(#[trigger] t[i]) implies t[i] == ' ' && 0 < i
                    < t.len() - 1 && !is_white_space(t[i - 1]) && !is_white_space(t[i + 1]) by {
                    assert(i < out.len());
                    assert(t[i] == out[i]);
                    if i + 1 < out.len() {
                        assert(t[i + 1] == out[i + 1]);
                    } else {
                        assert(false);
                    }
                    assert(t[i - 1] == out[i - 1]);
                }
            }
        }
    }
}

proof fn lemma_normalise_clean_prefix(t: Seq<char>, k: int)
    requires
        is_clean(t),
        0 <= k <= t.len(),
    ensures
        normalise_state(t.take(k)) == (if k > 0 && t[k - 1] == ' ' {
            (t.take(k - 1), true)
        } else {
            (t.take(k), false)
        }),
    decreases k,
{
    if k > 0 {
        lemma_normalise_clean_prefix(t, k - 1);
        assert(t.take(k).drop_last() =~= t.take(k - 1));
        assert(t.take(k).last() == t[k - 1]);
        let c = t[k - 1];
        if is_white_space(c) {
            assert(0 < k - 1 && !is_white_space(t[k - 2]));
            assert(t[k - 2] != ' ');
        } else {
            if k >= 2 && t[k - 2] == ' ' {
                assert(t.take(k - 2).push(' ').push(c) =~= t.take(k));
            } else {
                assert(t.take(k - 1).push(c) =~= t.take(k));
            }
        }
    }
}

/// Normalising a topic name twice gives what normalising it once gives.
pub proof fn law_normalise_idempotent(s: Seq<char>)
    ensures
        normalised(normalised(s)) == normalised(s),
{
    lemma_normalise_state_clean(s);
    let t = normalised(s);
    lemma_normalise_clean_prefix(t, t.len() as int);
    assert(t.take(t.len() as int) =~= t);
    if t.len() > 0 {
        assert(t[t.len() - 1] != ' ');
    }
}

/// Splitting a text into its white-space-separated words left to right: the
/// words so far, and whether the last character read belongs to a word.
pub open spec fn word_state(s: Seq<char>) -> (Seq<Seq<char>>, bool)
    decreases s.len(),
{
    if s.len() == 0 {
        (Seq::empty(), false)
    } else {
        let (ws, in_word) = word_state(s.drop_last());
        let c = s.last();
        if is_white_space(c) {
            (ws, false)
        } else if in_word {
            (ws.update(ws.len() - 1, ws.last().push(c)), true)
        } else {
            (ws.push(seq![c]), true)
        }
    }
}

/// The white-space-separated words of a text, in order (what
/// `str::split_whitespace` yields).
pub open spec fn words(s: Seq<char>) -> Seq<Seq<char>> {
    word_state(s).0
}

/// Words joined by single spaces.
pub open spec fn space_joined(ws: Seq<Seq<char>>) -> Seq<char>
    decreases ws.len(),
{
    if ws.len() == 0 {
        Seq::empty()
    } else if ws.len() == 1 {
        ws[0]
    } else {
        space_joined(ws.drop_last()) + seq![' '] + ws.last()
    }
}

proof fn lemma_normalise_is_joined_words(s: Seq<char>)
    ensures
        normalise_state(s).0 == space_joined(words(s)),
        normalise_state(s).1 == (words(s).len() > 0 && !word_state(s).1),
        word_state(s).1 ==> words(s).len() > 0,
        normalise_state(s).0.len() > 0 <==> words(s).len() > 0,
        forall|k: int|
            0 <= k < words(s).len() ==> (#[trigger] words(s)[k]).len() > 0 && forall|j: int|
                0 <= j < words(s)[k].len() ==> !is_white_space(#[trigger] words(s)[k][j]),
    decreases s.len(),
{
    if s.len() > 0 {
        let p = s.drop_last();
        lemma_normalise_is_joined_words(p);
        let (ws, in_word) = word_state(p);
        let (out, pending) = normalise_state(p);
        let c = s.last();
        if !is_white_space(c) {
            if in_word {
                let w2 = ws.update(ws.len() - 1, ws.last().push(c));
                if ws.len() == 1 {
                    assert(space_joined(w2) == w2[0]);
                } else {
                    assert(w2.drop_last() =~= ws.drop_last());
                    assert(space_joined(w2) == space_joined(ws.drop_last()) + seq![' '] + ws.last().push(c));
                    assert(space_joined(ws) == space_joined(ws.drop_last()) + seq![' '] + ws.last());
                }
                assert(space_joined(w2) =~= out.push(c));
                assert forall|k: int| 0 <= k < w2.len() implies (#[trigger] w2[k]).len() > 0 && forall|j: int|
                    0 <= j < w2[k].len() ==> !is_white_space(#[trigger] w2[k][j]) by {
                    if k == ws.len() - 1 {
                        assert forall|j: int| 0 <= j < w2[k].len() implies !is_white_space(#[trigger] w2[k][j]) by {
                            if j < ws.last().len() {
                                assert(w2[k][j] == ws[k][j]);
                            }
                        }
                    } else {
                        assert(w2[k] == ws[k]);
                    }
                }
            } else {
                let w2 = ws.push(seq![c]);
                assert(w2.drop_last() =~= ws);
                if ws.len() == 0 {
                    assert(space_joined(w2) =~= out.push(c));
                } else {
                    assert(space_joined(w2) =~= out.push(' ').push(c));
                }
                assert forall|k: int| 0 <= k < w2.len() implies (#[trigger] w2[k]).len() > 0 && forall|j: int|
                    0 <= j < w2[k].len() ==> !is_white_space(#[trigger] w2[k][j]) by {
                    if k < ws.len() {
                        assert(w2[k] == ws[k]);
                    }
                }
            }
        }
    }
}

/// A normalised topic name is the name's white-space-separated words joined
/// by single spaces: it does not begin or end with white space, and it holds
/// no white space but single spaces between words.
pub proof fn law_normalised_is_words_joined(s: Seq<char>)
    ensures
        normalised(s) == space_joined(words(s)),
        normalised(s).len() > 0 ==> !is_white_space(normalised(s)[0]) && !is_white_space(
            normalised(s).last(),
        ),
        forall|i: int|
            0 <= i < normalised(s).len() && is_white_space(#[trigger] normalised(s)[i]) ==> normalised(s)[i]
                == ' ' && 0 < i < normalised(s).len() - 1 && normalised(s)[i + 1] != ' ',
        forall|k: int|
            0 <= k < words(s).len() ==> (#[trigger] words(s)[k]).len() > 0 && forall|j: int|
                0 <= j < words(s)[k].len() ==> !is_white_space(#[trigger] words(s)[k][j]),
{
    lemma_normalise_is_joined_words(s);
    lemma_normalise_state_clean(s);
    let t = normalised(s);
    if t.len() > 0 {
        if is_white_space(t[0]) {
            assert(0 < 0);
        }
    }
}

proof fn lemma_word_state_append_word(t: Seq<char>, w: Seq<char>)
    requires
        !word_state(t).1,
        w.len() > 0,
        forall|j: int| 0 <= j < w.len() ==> !is_white_space(#[trigger] w[j]),
    ensures
        word_state(t + w) == (word_state(t).0.push(w), true),
    decreases w.len(),
{
    let c = w.last();
    let front = w.drop_last();
    assert((t + w).drop_last() =~= t + front);
    assert((t + w).last() == c);
    assert(!is_white_space(w[w.len() - 1]));
    if front.len() == 0 {
        assert(t + front =~= t);
        assert(seq![c] =~= w);
    } else {
        assert forall|j: int| 0 <= j < front.len() implies !is_white_space(#[trigger] front[j]) by {
            assert(front[j] == w[j]);
        }
        lemma_word_state_append_word(t, front);
        let ws = word_state(t).0;
        assert(front.push(c) =~= w);
        assert(ws.push(front).update(ws.len() as int, front.push(c)) =~= ws.push(w));
    }
}

proof fn lemma_words_of_joined(ws: Seq<Seq<char>>)
    requires
        forall|k: int|
            0 <= k < ws.len() ==> (#[trigger] ws[k]).len() > 0 && forall|j: int|
                0 <= j < ws[k].len() ==> !is_white_space(#[trigger] ws[k][j]),
    ensures
        word_state(space_joined(ws)) == (ws, ws.len() > 0),
    decreases ws.len(),
{
    if ws.len() == 0 {
        assert(ws =~= Seq::<Seq<char>>::empty());
    } else if ws.len() == 1 {
        let w = ws[0];
        assert(forall|j: int| 0 <= j < w.len() ==> !is_white_space(#[trigger] w[j]));
        lemma_word_state_append_word(Seq::empty(), w);
        assert(Seq::<char>::empty() + w =~= w);
        assert(Seq::<Seq<char>>::empty().push(w) =~= ws);
    } else {
        let front = ws.drop_last();
        assert forall|k: int|
            0 <= k < front.len() implies (#[trigger] front[k]).len() > 0 && forall|j: int|
                0 <= j < front[k].len() ==> !is_white_space(#[trigger] front[k][j]) by {
            assert(front[k] == ws[k]);
        }
        lemma_words_of_joined(front);
        let t = space_joined(front);
        let spaced = t + seq![' '];
        assert(spaced.drop_last() =~= t);
        assert(spaced.last() == ' ');
        assert(is_white_space(' '));
        assert(word_state(spaced) == (front, false));
        let w = ws.last();
        assert(forall|j: int| 0 <= j < w.len() ==> !is_white_space(#[trigger] w[j]));
        lemma_word_state_append_word(spaced, w);
        assert(front.push(w) =~= ws);
    }
}

/// Normalising keeps the words: the normalised name has the same
/// white-space-separated words, in the same order, as the name.
pub proof fn law_normalise_keeps_words(s: Seq<char>)
    ensures
        words(normalised(s)) == words(s),
{
    law_normalised_is_words_joined(s);
    lemma_words_of_joined(words(s));
}

/// The names of the topics similar to a search text, in the storage's order.
pub open spec fn similar_names(topics: Seq<TopicView>, search: Seq<char>) -> Seq<Seq<char>>
    decreases topics.len(),
{
    if topics.len() == 0 {
        Seq::empty()
    } else {
        let front = similar_names(topics.drop_last(), search);
        if texts_are_similar(search, topics.last().name) {
            front.push(topics.last().name)
        } else {
            front
        }
    }
}

/// The views of a sequence of topics.
pub open spec fn topic_views(topics: Seq<Topic>) -> Seq<TopicView> {
    topics.map_values(|t: Topic| t@)
}

/// The views of a sequence of strings.
pub open spec fn string_views(v: Seq<String>) -> Seq<Seq<char>> {
    v.map_values(|s: String| s@)
}

/// Whether the candidate text `a` is more similar to the search text than
/// `b` is: its ratio of shared to total trigrams is strictly higher.
pub open spec fn ranks_above(search: Seq<char>, a: Seq<char>, b: Seq<char>) -> bool {
    shared_trigram_count(search, a) * total_trigram_count(search, b) > shared_trigram_count(
        search,
        b,
    ) * total_trigram_count(search, a)
}

/// A name put into a ranked sequence: after every name that it does not rank
/// above, so that names of equal similarity keep their order.
pub open spec fn insert_ranked(search: Seq<char>, s: Seq<Seq<char>>, x: Seq<char>) -> Seq<Seq<char>>
    decreases s.len(),
{
    if s.len() == 0 {
        seq![x]
    } else if ranks_above(search, x, s.last()) {
        insert_ranked(search, s.drop_last(), x).push(s.last())
    } else {
        s.push(x)
    }
}

/// Names ranked by similarity to the search text, most similar first; names
/// of equal similarity keep their order.
pub open spec fn ranked(search: Seq<char>, s: Seq<Seq<char>>) -> Seq<Seq<char>>
    decreases s.len(),
{
    if s.len() == 0 {
        Seq::empty()
    } else {
        insert_ranked(search, ranked(search, s.drop_last()), s.last())
    }
}

proof fn lemma_insert_ranked_at(search: Seq<char>, s: Seq<Seq<char>>, x: Seq<char>, j: int)
    requires
        0 <= j <= s.len(),
        forall|k: int| j <= k < s.len() ==> ranks_above(search, x, #[trigger] s[k]),
        j == 0 || !ranks_above(search, x, s[j - 1]),
    ensures
        insert_ranked(search, s, x) == s.take(j).push(x) + s.skip(j),
    decreases s.len(),
{
    if s.len() == 0 {
        assert(s.take(j).push(x) + s.skip(j) =~= seq![x]);
    } else if ranks_above(search, x, s.last()) {
        assert(j < s.len());
        let front = s.drop_last();
        assert forall|k: int| j <= k < front.len() implies ranks_above(search, x, #[trigger] front[k]) by {
            assert(front[k] == s[k]);
        }
        if j > 0 {
            assert(front[j - 1] == s[j - 1]);
        }
        lemma_insert_ranked_at(search, front, x, j);
        assert((front.take(j).push(x) + front.skip(j)).push(s.last()) =~= s.take(j).push(x) + s.skip(j));
    } else {
        if j < s.len() {
            assert(ranks_above(search, x, s[s.len() - 1]));
        }
        assert(s.take(j).push(x) + s.skip(j) =~= s.push(x));
    }
}

/// Every name has at least one trigram in common or apart from the search
/// text, so that its similarity ratio is defined.
pub open spec fn all_rated(search: Seq<char>, s: Seq<Seq<char>>) -> bool {
    forall|i: int| 0 <= i < s.len() ==> total_trigram_count(search, #[trigger] s[i]) > 0
}

/// No name is less similar to the search text than a name after it.
pub open spec fn ordered_by_similarity(search: Seq<char>, s: Seq<Seq<char>>) -> bool {
    forall|i: int, k: int|
        0 <= i < k < s.len() ==> shared_trigram_count(search, #[trigger] s[i]) * total_trigram_count(
            search,
            #[trigger] s[k],
        ) >= shared_trigram_count(search, s[k]) * total_trigram_count(search, s[i])
}

/// The texts whose similarity ratio to the search text equals that of `c`.
pub open spec fn equally_similar(search: Seq<char>, c: Seq<char>) -> spec_fn(Seq<char>) -> bool {
    |y: Seq<char>|
        shared_trigram_count(search, y) * total_trigram_count(search, c) == shared_trigram_count(
            search,
            c,
        ) * total_trigram_count(search, y)
}

proof fn lemma_ratio_order_transitive(sx: int, tx: int, sl: int, tl: int, sy: int, ty: int)
    by (nonlinear_arith)
    requires
        tl > 0,
        tx >= 0,
        ty >= 0,
        sx * tl <= sl * tx,
        sl * ty <= sy * tl,
    ensures
        sx * ty <= sy * tx,
{
    assert(sx * tl * ty <= sl * tx * ty);
    assert(sl * ty * tx <= sy * tl * tx);
    assert(sx * ty * tl <= sy * tx * tl);
}

proof fn lemma_ratio_equal_transitive(sx: int, tx: int, sl: int, tl: int, sc: int, tc: int)
    by (nonlinear_arith)
    requires
        tc > 0,
        sx * tc == sc * tx,
        sl * tc == sc * tl,
    ensures
        sx * tl == sl * tx,
{
    assert(sx * tc * tl == sc * tx * tl);
    assert(sl * tc * tx == sc * tl * tx);
    assert(sx * tl * tc == sl * tx * tc);
}

proof fn lemma_insert_ranked_elements(search: Seq<char>, s: Seq<Seq<char>>, x: Seq<char>)
    ensures
        insert_ranked(search, s, x).len() == s.len() + 1,
        forall|i: int|
            0 <= i < s.len() + 1 ==> #[trigger] insert_ranked(search, s, x)[i] == x || s.contains(
                insert_ranked(search, s, x)[i],
            ),
        insert_ranked(search, s, x).to_multiset() =~= s.to_multiset().insert(x),
    decreases s.len(),
{
    broadcast use vstd::seq_lib::group_to_multiset_ensures;

    if s.len() == 0 {
        assert(seq![x] =~= s.push(x));
    } else if ranks_above(search, x, s.last()) {
        let front = s.drop_last();
        lemma_insert_ranked_elements(search, front, x);
        let r = insert_ranked(search, front, x);
        assert(s =~= front.push(s.last()));
        assert forall|i: int| 0 <= i < s.len() + 1 implies #[trigger] r.push(s.last())[i] == x
            || s.contains(r.push(s.last())[i]) by {
            if i < r.len() {
                assert(r.push(s.last())[i] == r[i]);
                if r[i] != x {
                    assert(front.contains(r[i]));
                    let k = choose|k: int| 0 <= k < front.len() && front[k] == r[i];
                    assert(s[k] == r[i]);
                }
            } else {
                assert(r.push(s.last())[i] == s[s.len() - 1]);
            }
        }
    } else {
        assert forall|i: int| 0 <= i < s.len() + 1 implies #[trigger] s.push(x)[i] == x || s.contains(
            s.push(x)[i],
        ) by {
            if i < s.len() {
                assert(s.push(x)[i] == s[i]);
            }
        }
    }
}

proof fn lemma_insert_ranked_ordered(search: Seq<char>, s: Seq<Seq<char>>, x: Seq<char>)
    requires
        ordered_by_similarity(search, s),
        all_rated(search, s),
        total_trigram_count(search, x) > 0,
    ensures
        ordered_by_similarity(search, insert_ranked(search, s, x)),
        all_rated(search, insert_ranked(search, s, x)),
    decreases s.len(),
{
    let r = insert_ranked(search, s, x);
    lemma_insert_ranked_elements(search, s, x);
    assert forall|i: int| 0 <= i < r.len() implies total_trigram_count(search, #[trigger] r[i]) > 0 by {
        if r[i] != x {
            let k = choose|k: int| 0 <= k < s.len() && s[k] == r[i];
        }
    }
    if s.len() == 0 {
    } else if ranks_above(search, x, s.last()) {
        let front = s.drop_last();
        let l = s.last();
        lemma_insert_ranked_ordered(search, front, x);
        let f = insert_ranked(search, front, x);
        lemma_insert_ranked_elements(search, front, x);
        assert forall|i: int, k: int| 0 <= i < k < r.len() implies shared_trigram_count(
            search,
            #[trigger] r[i],
        ) * total_trigram_count(search, #[trigger] r[k]) >= shared_trigram_count(search, r[k])
            * total_trigram_count(search, r[i]) by {
            assert(r[i] == f[i]);
            if k < f.len() {
                assert(r[k] == f[k]);
            } else {
                assert(r[k] == l);
                if f[i] != x {
                    let m = choose|m: int| 0 <= m < front.len() && front[m] == f[i];
                    assert(s[m] == f[i]);
                    assert(s[s.len() - 1] == l);
                }
            }
        }
    } else {
        let l = s.last();
        assert forall|i: int, k: int| 0 <= i < k < r.len() implies shared_trigram_count(
            search,
            #[trigger] r[i],
        ) * total_trigram_count(search, #[trigger] r[k]) >= shared_trigram_count(search, r[k])
            * total_trigram_count(search, r[i]) by {
            assert(r[i] == s[i]);
            if k < s.len() {
                assert(r[k] == s[k]);
            } else {
                assert(r[k] == x);
                assert(s[s.len() - 1] == l);
                assert(total_trigram_count(search, s[s.len() - 1]) > 0);
                if i < s.len() - 1 {
                    assert(shared_trigram_count(search, s[i]) * total_trigram_count(search, s[s.len() - 1])
                        >= shared_trigram_count(search, s[s.len() - 1]) * total_trigram_count(search, s[i]));
                }
                lemma_ratio_order_transitive(
                    shared_trigram_count(search, x) as int,
                    total_trigram_count(search, x) as int,
                    shared_trigram_count(search, l) as int,
                    total_trigram_count(search, l) as int,
                    shared_trigram_count(search, s[i]) as int,
                    total_trigram_count(search, s[i]) as int,
                );
            }
        }
    }
}

proof fn lemma_insert_ranked_keeps_ties(search: Seq<char>, s: Seq<Seq<char>>, x: Seq<char>, c: Seq<char>)
    requires
        total_trigram_count(search, c) > 0,
    ensures
        insert_ranked(search, s, x).filter(equally_similar(search, c)) == (if equally_similar(
            search,
            c,
        )(x) {
            s.filter(equally_similar(search, c)).push(x)
        } else {
            s.filter(equally_similar(search, c))
        }),
    decreases s.len(),
{
    reveal(Seq::filter);
    let p = equally_similar(search, c);
    if s.len() == 0 {
        assert(seq![x].drop_last() =~= s);
    } else if ranks_above(search, x, s.last()) {
        let front = s.drop_last();
        let l = s.last();
        lemma_insert_ranked_keeps_ties(search, front, x, c);
        let f = insert_ranked(search, front, x);
        assert(f.push(l).drop_last() =~= f);
        if p(x) && p(l) {
            lemma_ratio_equal_transitive(
                shared_trigram_count(search, x) as int,
                total_trigram_count(search, x) as int,
                shared_trigram_count(search, l) as int,
                total_trigram_count(search, l) as int,
                shared_trigram_count(search, c) as int,
                total_trigram_count(search, c) as int,
            );
        }
    } else {
        assert(s.push(x).drop_last() =~= s);
    }
}

/// Ranking names by similarity keeps, for each similarity ratio, the names of
/// that ratio in their order, puts every name before the less similar ones,
/// and leaves out or adds no name.
pub proof fn law_ranking_is_stable_by_similarity(search: Seq<char>, s: Seq<Seq<char>>)
    requires
        all_rated(search, s),
    ensures
        forall|i: int, k: int|
            0 <= i < k < ranked(search, s).len() ==> shared_trigram_count(
                search,
                #[trigger] ranked(search, s)[i],
            ) * total_trigram_count(search, #[trigger] ranked(search, s)[k]) >= shared_trigram_count(
                search,
                ranked(search, s)[k],
            ) * total_trigram_count(search, ranked(search, s)[i]),
        ranked(search, s).to_multiset() == s.to_multiset(),
        forall|c: Seq<char>|
            total_trigram_count(search, c) > 0 ==> #[trigger] ranked(search, s).filter(
                equally_similar(search, c),
            ) == s.filter(equally_similar(search, c)),
    decreases s.len(),
{
    broadcast use vstd::seq_lib::group_to_multiset_ensures;

    if s.len() == 0 {
        assert(s.to_multiset() =~= ranked(search, s).to_multiset());
    } else {
        let front = s.drop_last();
        assert(all_rated(search, front)) by {
            assert forall|i: int| 0 <= i < front.len() implies total_trigram_count(
                search,
                #[trigger] front[i],
            ) > 0 by {
                assert(front[i] == s[i]);
            }
        }
        law_ranking_is_stable_by_similarity(search, front);
        let rf = ranked(search, front);
        lemma_ranked_is_rated(search, front);
        assert(total_trigram_count(search, s[s.len() - 1]) > 0);
        lemma_insert_ranked_ordered(search, rf, s.last());
        lemma_insert_ranked_elements(search, rf, s.last());
        assert(s =~= front.push(s.last()));
        assert forall|c: Seq<char>| total_trigram_count(search, c) > 0 implies #[trigger] ranked(
            search,
            s,
        ).filter(equally_similar(search, c)) == s.filter(equally_similar(search, c)) by {
            reveal(Seq::filter);
            lemma_insert_ranked_keeps_ties(search, rf, s.last(), c);
        }
    }
}

proof fn lemma_ranked_is_rated(search: Seq<char>, s: Seq<Seq<char>>)
    requires
        all_rated(search, s),
    ensures
        all_rated(search, ranked(search, s)),
        ordered_by_similarity(search, ranked(search, s)),
    decreases s.len(),
{
    if s.len() > 0 {
        let front = s.drop_last();
        assert forall|i: int| 0 <= i < front.len() implies total_trigram_count(
            search,
            #[trigger] front[i],
        ) > 0 by {
            assert(front[i] == s[i]);
        }
        lemma_ranked_is_rated(search, front);
        assert(total_trigram_count(search, s[s.len() - 1]) > 0);
        lemma_insert_ranked_ordered(search, ranked(search, front), s.last());
    }
}

/// The names of topics similar to a search text all have a defined
/// similarity ratio.
proof fn lemma_similar_names_rated(topics: Seq<TopicView>, search: Seq<char>)
    ensures
        all_rated(search, similar_names(topics, search)),
    decreases topics.len(),
{
    if topics.len() > 0 {
        lemma_similar_names_rated(topics.drop_last(), search);
        let front = similar_names(topics.drop_last(), search);
        assert forall|i: int| 0 <= i < front.len() + 1 && i < similar_names(topics, search).len()
            implies total_trigram_count(search, #[trigger] similar_names(topics, search)[i]) > 0 by {
            if i < front.len() {
                assert(similar_names(topics, search)[i] == front[i]);
            }
        }
    }
}

fn higher_ratio(a: (usize, usize), b: (usize, usize)) -> (r: bool)
    ensures
        r == (a.0 * b.1 > b.0 * a.1),
{
    let (p, q, u, v) = (a.0 as u128, b.1 as u128, b.0 as u128, a.1 as u128);
    assert(p * q <= 0xffff_ffff_ffff_ffff * 0xffff_ffff_ffff_ffff) by (nonlinear_arith)
        requires
            p <= 0xffff_ffff_ffff_ffff,
            q <= 0xffff_ffff_ffff_ffff,
    ;
    assert(u * v <= 0xffff_ffff_ffff_ffff * 0xffff_ffff_ffff_ffff) by (nonlinear_arith)
        requires
            u <= 0xffff_ffff_ffff_ffff,
            v <= 0xffff_ffff_ffff_ffff,
    ;
    let x: u128 = p * q;
    let y: u128 = u * v;
    x > y
}

/// The names of the topics similar to a search text, ranked by similarity,
/// most similar first; names of equal similarity keep the storage's order.
/// The similarity of a name is its ratio of shared to total trigrams with
/// the search text.
pub fn similar_topic_names(topics: &Vec<Topic>, search: &str) -> (r: Vec<String>)
    ensures
        string_views(r@) == ranked(search@, similar_names(topic_views(topics@), search@)),
        forall|i: int, k: int|
            0 <= i < k < r.len() ==> shared_trigram_count(search@, #[trigger] r@[i]@)
                * total_trigram_count(search@, #[trigger] r@[k]@) >= shared_trigram_count(
                search@,
                r@[k]@,
            ) * total_trigram_count(search@, r@[i]@),
        string_views(r@).to_multiset() == similar_names(topic_views(topics@), search@).to_multiset(),
        forall|c: Seq<char>|
            total_trigram_count(search@, c) > 0 ==> #[trigger] string_views(r@).filter(
                equally_similar(search@, c),
            ) == similar_names(topic_views(topics@), search@).filter(equally_similar(search@, c)),
{
    let ghost all = topic_views(topics@);
    let mut out: Vec<String> = Vec::new();
    let mut ratios: Vec<(usize, usize)> = Vec::new();
    let mut i: usize = 0;
    while i < topics.len()
        invariant
            i <= topics.len(),
            all == topic_views(topics@),
            string_views(out@) == ranked(search@, similar_names(all.take(i as int), search@)),
            ratios.len() == out.len(),
            forall|k: int|
                0 <= k < out.len() ==> (#[trigger] ratios@[k]).0 == shared_trigram_count(
                    search@,
                    out@[k]@,
                ) && ratios@[k].1 == total_trigram_count(search@, out@[k]@),
        decreases topics.len() - i,
    {
        let ghost before = string_views(out@);
        assert(all.take(i + 1).drop_last() =~= all.take(i as int));
        assert(all.take(i + 1).last() == topics@[i as int]@);
        if topics[i].is_similar(search) {
            let name = &topics[i].name;
            let ratio = trigram_similarity(search, name.as_str());
            let mine = (ratio.shared, ratio.total);
            let mut j: usize = out.len();
            while j > 0 && higher_ratio(mine, ratios[j - 1])
                invariant
                    j <= out.len(),
                    ratios.len() == out.len(),
                    string_views(out@) == before,
                    mine.0 == shared_trigram_count(search@, name@),
                    mine.1 == total_trigram_count(search@, name@),
                    forall|k: int|
                        0 <= k < out.len() ==> (#[trigger] ratios@[k]).0 == shared_trigram_count(
                            search@,
                            out@[k]@,
                        ) && ratios@[k].1 == total_trigram_count(search@, out@[k]@),
                    forall|k: int| j <= k < before.len() ==> ranks_above(search@, name@, #[trigger] before[k]),
                decreases j,
            {
                assert(before[j - 1] == out@[j - 1]@);
                j = j - 1;
            }
            if j > 0 {
                assert(before[j - 1] == out@[j - 1]@);
            }
            proof {
                lemma_insert_ranked_at(search@, before, name@, j as int);
            }
            out.insert(j, name.clone());
            ratios.insert(j, mine);
            assert(string_views(out@) =~= before.take(j as int).push(name@) + before.skip(j as int));
            proof {
                let prev = similar_names(all.take(i as int), search@);
                assert(prev.push(name@).drop_last() =~= prev);
            }
            assert forall|k: int|
                0 <= k < out.len() implies (#[trigger] ratios@[k]).0 == shared_trigram_count(
                    search@,
                    out@[k]@,
                ) && ratios@[k].1 == total_trigram_count(search@, out@[k]@) by {
                if k < j {
                    assert(out@[k]@ == before[k]);
                } else if k > j {
                    assert(out@[k]@ == before[k - 1]);
                }
            }
        }
        i = i + 1;
    }
    assert(all.take(topics.len() as int) =~= all);
    proof {
        let similar = similar_names(all, search@);
        lemma_similar_names_rated(all, search@);
        law_ranking_is_stable_by_similarity(search@, similar);
        let names = string_views(out@);
        assert forall|i: int, k: int| 0 <= i < k < out.len() implies shared_trigram_count(
            search@,
            #[trigger] out@[i]@,
        ) * total_trigram_count(search@, #[trigger] out@[k]@) >= shared_trigram_count(
            search@,
            out@[k]@,
        ) * total_trigram_count(search@, out@[i]@) by {
            assert(names[i] == out@[i]@);
            assert(names[k] == out@[k]@);
        }
    }
    out
}

/// A topic's name and category names.
pub struct TopicResult {
    pub name: String,
    pub categories: Vec<String>,
}

fn category_name_list(topic: &Topic) -> (r: Vec<String>)
    ensures
        string_views(r@) == topic.categories@,
{
    let mut out: Vec<String> = Vec::new();
    let mut i: usize = 0;
    while i < topic.categories.0.len()
        invariant
            i <= topic.categories.0.len(),
            string_views(out@) == topic.categories@.take(i as int),
        decreases topic.categories.0.len() - i,
    {
        let ghost before = string_views(out@);
        out.push(topic.categories.0[i].name.clone());
        assert(string_views(out@) =~= before.push(topic.categories@[i as int]));
        assert(topic.categories@.take(i + 1) =~= topic.categories@.take(i as int).push(
            topic.categories@[i as int],
        ));
        i = i + 1;
    }
    assert(topic.categories@.take(topic.categories.0.len() as int) =~= topic.categories@);
    out
}

/// Every topic with its name and category names, in the storage's order.
pub fn topic_results(topics: &Vec<Topic>) -> (r: Vec<TopicResult>)
    ensures
        r.len() == topics.len(),
        forall|i: int|
            0 <= i < r.len() ==> (#[trigger] r@[i]).name@ == topics@[i].name@ && string_views(
                r@[i].categories@,
            ) == topics@[i].categories@,
{
    let mut out: Vec<TopicResult> = Vec::new();
    let mut i: usize = 0;
    while i < topics.len()
        invariant
            i <= topics.len(),
            out.len() == i,
            forall|k: int|
                0 <= k < i ==> (#[trigger] out@[k]).name@ == topics@[k].name@ && string_views(
                    out@[k].categories@,
                ) == topics@[k].categories@,
        decreases topics.len() - i,
    {
        let result = TopicResult {
            name: topics[i].name.clone(),
            categories: category_name_list(&topics[i]),
        };
        out.push(result);
        i = i + 1;
    }
    out
}

/// The question depth of a topic, under its stored name.
pub struct TopicDepthResult {
    pub name: String,
    pub question_depth: QuestionDepth,
}

/// The depth answer for a topic: the stored topic's name and depth when
/// found, else the asked name with full questioning.
pub fn topic_depth_result(topic_name: String, found: Option<Topic>) -> (r: TopicDepthResult)
    ensures
        match found {
            Some(t) => r.name@ == t.name@ && r.question_depth == depth_for(
                t.ease_factor,
                t.repetitions,
            ),
            None => r.name@ == topic_name@ && r.question_depth == QuestionDepth::Full,
        },
{
    match found {
        Some(t) => {
            let question_depth = t.question_depth();
            TopicDepthResult { name: t.name, question_depth }
        },
        None => TopicDepthResult { name: topic_name, question_depth: QuestionDepth::Full },
    }
}

/// The quality of a review as the tool passes it on: the requested number
/// converted with Rust's `as u32`.
pub open spec fn review_quality(quality: usize) -> u32 {
    quality as u32
}

/// The record that a review starts from: the stored topic, or a new topic
/// reviewed now.
pub open spec fn review_base(topic_name: Seq<char>, now: i64, found: Option<TopicView>) -> TopicView {
    match found {
        Some(t) => t,
        None => TopicView {
            name: topic_name,
            repetitions: 0,
            interval: 1,
            ease_factor: 250,
            reviewed_at: now,
            categories: Seq::empty(),
        },
    }
}

/// The view of an optional topic.
pub open spec fn topic_option_view(found: Option<Topic>) -> Option<TopicView> {
    match found {
        Some(t) => Some(t@),
        None => None,
    }
}

/// Whether a review of the given quality can be applied to a stored record
/// without exceeding the counters' ranges.
pub open spec fn reviewable(t: TopicView, quality: u32) -> bool {
    &&& quality < 3 || t.repetitions < u32::MAX
    &&& t.ease_factor + ease_change(quality) <= u32::MAX
}

/// Whether a review of the given quality can be applied to the stored record
/// of the topic, or to a new one when there is none.
pub fn review_allowed(topic_name: &str, quality: usize, now: i64, found: &Option<Topic>) -> (r: bool)
    ensures
        r == reviewable(review_base(topic_name@, now, topic_option_view(*found)), review_quality(quality)),
{
    let q = quality as u32;
    let change = ease_factor_change(q);
    assert(-0x1_0000_0000_0000_0000_0000 < change <= 18) by (nonlinear_arith)
        requires
            change == 10 - (5 - q) * (8 + 2 * (5 - q)),
            0 <= q <= u32::MAX,
    ;
    let (repetitions, ease_factor) = match found {
        Some(t) => (t.repetitions, t.ease_factor),
        None => (0u32, 250u32),
    };
    (q < 3 || repetitions < u32::MAX) && ease_factor as i128 + change <= 0xffff_ffffi128
}

/// The topic to store after a review: the stored record, or a new one when
/// the topic was never seen, updated with the review's quality at `now`.
pub fn reviewed_topic(topic_name: &str, quality: usize, now: i64, found: Option<Topic>) -> (r: Topic)
    requires
        reviewable(review_base(topic_name@, now, topic_option_view(found)), review_quality(quality)),
    ensures
        r@ == reviewed(
            review_base(topic_name@, now, topic_option_view(found)),
            review_quality(quality),
            now,
        ),
{
    let q = quality as u32;
    let topic = match found {
        Some(t) => t,
        None => Topic::new(topic_name, now),
    };
    topic.update_quality(q, now)
}

/// The answer to a review: the topic's name and the days until it is due.
pub struct ReviewTopicResult {
    pub topic: String,
    pub next_review_in_days: u32,
}

/// The answer to a review of the given topic.
pub fn review_topic_result(topic: Topic) -> (r: ReviewTopicResult)
    ensures
        r.topic@ == topic.name@,
        r.next_review_in_days == topic.interval,
{
    ReviewTopicResult { topic: topic.name, next_review_in_days: topic.interval }
}

/// The topic with its categories replaced, or the error for a topic that is
/// not stored.
pub fn categorised_topic(found: Option<Topic>, categories: Vec<String>) -> (r: Result<Topic, String>)
    ensures
        match found {
            Some(t) => r matches Ok(u) && u.name@ == t.name@ && u.repetitions == t.repetitions
                && u.interval == t.interval && u.ease_factor == t.ease_factor && u.reviewed_at
                == t.reviewed_at && u.categories@.no_duplicates() && u.categories@.to_set()
                == crate::topic::merged_categories(string_views(categories@)),
            None => r matches Err(e) && e@ == "Topic not found"@,
        },
{
    match found {
        Some(t) => Ok(t.update_categories(categories)),
        None => Err(String::from_str("Topic not found")),
    }
}

/// A topic's new categories.
pub struct UpdateTopicCategoriesResult {
    pub topic: String,
    pub categories: Vec<String>,
}

/// The answer to a categories update.
pub fn update_topic_categories_result(topic: &Topic) -> (r: UpdateTopicCategoriesResult)
    ensures
        r.topic@ == topic.name@,
        string_views(r.categories@) == topic.categories@,
{
    UpdateTopicCategoriesResult { topic: topic.name.clone(), categories: category_name_list(topic) }
}

/// A topic due for review, and the whole days since its last review.
pub struct TopicCandidate {
    pub name: String,
    pub days_since_last_review: i64,
}

/// The first `limit` overdue topics, with the days since their last review.
pub fn topic_candidates(overdue: &Vec<Topic>, limit: usize, now: i64) -> (r: Vec<TopicCandidate>)
    ensures
        r.len() == if limit < overdue.len() {
            limit as int
        } else {
            overdue.len() as int
        },
        forall|i: int|
            0 <= i < r.len() ==> (#[trigger] r@[i]).name@ == overdue@[i].name@
                && r@[i].days_since_last_review == whole_days_between(overdue@[i].reviewed_at, now),
{
    let n = if limit < overdue.len() {
        limit
    } else {
        overdue.len()
    };
    let mut out: Vec<TopicCandidate> = Vec::new();
    let mut i: usize = 0;
    while i < n
        invariant
            i <= n,
            n <= overdue.len(),
            out.len() == i,
            forall|k: int|
                0 <= k < i ==> (#[trigger] out@[k]).name@ == overdue@[k].name@
                    && out@[k].days_since_last_review == whole_days_between(
                    overdue@[k].reviewed_at,
                    now,
                ),
        decreases n - i,
    {
        let t = &overdue[i];
        out.push(
            TopicCandidate { name: t.name.clone(), days_since_last_review: t.days_since_last_review(now) },
        );
        i = i + 1;
    }
    out
}

/// A created session: its identifier's text and the path of the file in
/// which its notes are drafted.
pub struct CreateSessionResult {
    pub session_id: String,
    pub session_file_path: String,
}

/// The answer to a session's creation: its identifier, and where its draft
/// goes in the storage folder `folder`.
pub fn create_session_result(session: &Session, folder: &str) -> (r: CreateSessionResult)
    ensures
        r.session_id@ == crate::session::uuid_text(session.id.0),
        parses_to(r.session_id@, session.id.0),
        r.session_file_path@ == draft_path_of(folder@, session.name@),
{
    CreateSessionResult {
        session_id: session.id.to_text(),
        session_file_path: draft_path(folder, session.name.as_str()),
    }
}

/// The session with new content at `now`, or the error for a session that is
/// not stored.
pub fn session_update(found: Option<Session>, content: &String, now: i64) -> (r: Result<Session, String>)
    ensures
        match found {
            Some(s) => r matches Ok(u) && u@ == (SessionView {
                id: s.id.0,
                name: s.name@,
                created_at: s.created_at,
                modified_at: now,
                content: Some(content@),
            }),
            None => r matches Err(e) && e@ == "Topic not found"@,
        },
{
    match found {
        Some(s) => Ok(s.update_content(content, now)),
        None => Err(String::from_str("Topic not found")),
    }
}

/// An updated session's name.
pub struct UpdateSessionResult {
    pub session_name: String,
}

/// The answer to a session update.
pub fn update_session_result(session: &Session) -> (r: UpdateSessionResult)
    ensures
        r.session_name@ == session.name@,
{
    UpdateSessionResult { session_name: session.name.clone() }
}

/// A session's name and identifier text.
pub struct SessionResult {
    pub name: String,
    pub id: String,
}

/// The first `limit` sessions, with their names and identifiers.
pub fn session_results(sessions: &Vec<Session>, limit: usize) -> (r: Vec<SessionResult>)
    ensures
        r.len() == if limit < sessions.len() {
            limit as int
        } else {
            sessions.len() as int
        },
        forall|i: int|
            0 <= i < r.len() ==> (#[trigger] r@[i]).name@ == sessions@[i].name@ && r@[i].id@
                == crate::session::uuid_text(sessions@[i].id.0),
{
    let n = if limit < sessions.len() {
        limit
    } else {
        sessions.len()
    };
    let mut out: Vec<SessionResult> = Vec::new();
    let mut i: usize = 0;
    while i < n
        invariant
            i <= n,
            n <= sessions.len(),
            out.len() == i,
            forall|k: int|
                0 <= k < i ==> (#[trigger] out@[k]).name@ == sessions@[k].name@ && out@[k].id@
                    == crate::session::uuid_text(sessions@[k].id.0),
        decreases n - i,
    {
        let s = &sessions[i];
        out.push(SessionResult { name: s.name.clone(), id: s.id.to_text() });
        i = i + 1;
    }
    out
}

} // verus!
