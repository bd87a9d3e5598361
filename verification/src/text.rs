//! Text helpers shared by the topic, tool and dashboard logic.
use vstd::prelude::*;
use vstd::string::StrSliceExecFns;

verus! {

/// What `str::to_lowercase` makes of a text: the full Unicode lowercase
/// mapping, applied to the whole text.
pub uninterp spec fn lowercased(text: Seq<char>) -> Seq<char>;

/// The Unicode `White_Space` property, which `char::is_whitespace` tests.
pub open spec fn is_white_space(c: char) -> bool {
    let v = c as u32;
    ||| 0x9 <= v <= 0xD
    ||| v == 0x20
    ||| v == 0x85
    ||| v == 0xA0
    ||| v == 0x1680
    ||| 0x2000 <= v <= 0x200A
    ||| v == 0x2028
    ||| v == 0x2029
    ||| v == 0x202F
    ||| v == 0x205F
    ||| v == 0x3000
}

/// Calls `str::to_lowercase`. Its documentation says it returns the lowercase
/// equivalent of the text per the Unicode derived property `Lowercase`; the
/// result depends on the text alone, and is named `lowercased`.
#[verifier::external_body]
pub(crate) fn lowercase(text: &str) -> (r: String)
    ensures
        r@ == lowercased(text@),
{
    text.to_lowercase()
}

/// Whether a character has the Unicode `White_Space` property, as
/// `char::is_whitespace` tests it.
pub(crate) fn char_is_whitespace(c: char) -> (r: bool)
    ensures
        r == is_white_space(c),
{
    let v = c as u32;
    (0x9 <= v && v <= 0xD) || v == 0x20 || v == 0x85 || v == 0xA0 || v == 0x1680 || (0x2000 <= v
        && v <= 0x200A) || v == 0x2028 || v == 0x2029 || v == 0x202F || v == 0x205F || v == 0x3000
}

/// Calls `String::push`, which appends one character.
#[verifier::external_body]
pub(crate) fn push_char(s: &mut String, c: char)
    ensures
        final(s)@ == old(s)@.push(c),
{
    s.push(c)
}

/// The characters of a text, in order.
pub fn chars_of(text: &str) -> (r: Vec<char>)
    ensures
        r@ == text@,
{
    let n = text.unicode_len();
    let mut out: Vec<char> = Vec::new();
    let mut i: usize = 0;
    while i < n
        invariant
            n == text@.len(),
            i <= n,
            out@ == text@.take(i as int),
        decreases n - i,
    {
        let c = text.get_char(i);
        out.push(c);
        i = i + 1;
        assert(out@ =~= text@.take(i as int));
    }
    assert(out@ =~= text@);
    out
}

/// A `String` holding the given characters.
pub fn string_of(chars: &Vec<char>) -> (r: String)
    ensures
        r@ == chars@,
{
    let mut s = String::new();
    let mut i: usize = 0;
    while i < chars.len()
        invariant
            i <= chars.len(),
            s@ == chars@.take(i as int),
        decreases chars.len() - i,
    {
        push_char(&mut s, chars[i]);
        i = i + 1;
        assert(s@ =~= chars@.take(i as int));
    }
    assert(chars@.take(chars.len() as int) =~= chars@);
    s
}

/// Lexicographic order on texts, character by character by code point. This
/// is the order of Rust's `Ord` on `String`, which compares UTF-8 bytes: UTF-8
/// keeps the order of code points.
pub open spec fn text_less(a: Seq<char>, b: Seq<char>) -> bool
    decreases a.len(),
{
    if a.len() == 0 {
        b.len() > 0
    } else if b.len() == 0 {
        false
    } else if a[0] != b[0] {
        (a[0] as u32) < (b[0] as u32)
    } else {
        text_less(a.drop_first(), b.drop_first())
    }
}

/// No text comes before itself.
pub proof fn lemma_text_less_irreflexive(a: Seq<char>)
    ensures
        !text_less(a, a),
    decreases a.len(),
{
    if a.len() > 0 {
        lemma_text_less_irreflexive(a.drop_first());
    }
}

/// The order is transitive.
pub proof fn lemma_text_less_transitive(a: Seq<char>, b: Seq<char>, c: Seq<char>)
    requires
        text_less(a, b),
        text_less(b, c),
    ensures
        text_less(a, c),
    decreases a.len(),
{
    if a.len() > 0 && b.len() > 0 && c.len() > 0 {
        if a[0] == b[0] && b[0] == c[0] {
            lemma_text_less_transitive(a.drop_first(), b.drop_first(), c.drop_first());
        }
    }
}

proof fn lemma_char_as_u32_injective(x: char, y: char)
    requires
        x as u32 == y as u32,
    ensures
        x == y,
{
}

/// Of two different texts, one comes before the other.
pub proof fn lemma_text_less_total(a: Seq<char>, b: Seq<char>)
    requires
        a != b,
    ensures
        text_less(a, b) || text_less(b, a),
    decreases a.len(),
{
    if a.len() == 0 {
        assert(b.len() > 0) by {
            if b.len() == 0 {
                assert(a =~= b);
            }
        }
    } else if b.len() == 0 {
    } else if a[0] != b[0] {
        if (a[0] as u32) == (b[0] as u32) {
            lemma_char_as_u32_injective(a[0], b[0]);
        }
    } else {
        assert(a.drop_first() != b.drop_first()) by {
            if a.drop_first() == b.drop_first() {
                assert(a =~= seq![a[0]] + a.drop_first());
                assert(b =~= seq![b[0]] + b.drop_first());
            }
        }
        lemma_text_less_total(a.drop_first(), b.drop_first());
    }
}

/// Whether `a` comes before `b` in the order of `text_less`.
pub fn chars_less(a: &Vec<char>, b: &Vec<char>) -> (r: bool)
    ensures
        r == text_less(a@, b@),
{
    let mut i: usize = 0;
    assert(a@.skip(0) =~= a@);
    assert(b@.skip(0) =~= b@);
    while i < a.len() && i < b.len() && a[i] == b[i]
        invariant
            i <= a.len(),
            i <= b.len(),
            text_less(a@, b@) == text_less(a@.skip(i as int), b@.skip(i as int)),
        decreases a.len() - i,
    {
        assert(a@.skip(i as int).drop_first() =~= a@.skip(i + 1));
        assert(b@.skip(i as int).drop_first() =~= b@.skip(i + 1));
        i = i + 1;
    }
    if i == a.len() {
        i < b.len()
    } else if i == b.len() {
        false
    } else {
        assert(a@.skip(i as int)[0] == a@[i as int]);
        assert(b@.skip(i as int)[0] == b@[i as int]);
        let x: u32 = a[i] as u32;
        let y: u32 = b[i] as u32;
        x < y
    }
}

/// Every non-overlapping occurrence of `pattern` in `s`, found from left to
/// right, replaced by `replacement` (as `str::replace` does).
pub open spec fn replaced(s: Seq<char>, pattern: Seq<char>, replacement: Seq<char>) -> Seq<char>
    decreases s.len(),
{
    if pattern.len() == 0 || s.len() < pattern.len() {
        s
    } else if s.take(pattern.len() as int) == pattern {
        replacement + replaced(s.skip(pattern.len() as int), pattern, replacement)
    } else {
        seq![s[0]] + replaced(s.drop_first(), pattern, replacement)
    }
}

fn occurs_at(s: &Vec<char>, i: usize, pattern: &Vec<char>) -> (r: bool)
    requires
        i + pattern.len() <= s.len(),
    ensures
        r == (s@.skip(i as int).take(pattern.len() as int) == pattern@),
{
    let mut k: usize = 0;
    while k < pattern.len()
        invariant
            i + pattern.len() <= s.len(),
            k <= pattern.len(),
            forall|j: int| 0 <= j < k ==> s@[i + j] == pattern@[j],
        decreases pattern.len() - k,
    {
        if s[i + k] != pattern[k] {
            assert(s@.skip(i as int).take(pattern.len() as int)[k as int] != pattern@[k as int]);
            return false;
        }
        k = k + 1;
    }
    assert(s@.skip(i as int).take(pattern.len() as int) =~= pattern@);
    true
}

/// Replaces every non-overlapping occurrence of a non-empty pattern, from
/// left to right.
pub fn replace_all(s: &str, pattern: &str, replacement: &str) -> (r: String)
    requires
        pattern@.len() > 0,
    ensures
        r@ == replaced(s@, pattern@, replacement@),
{
    let chars = chars_of(s);
    let pat = chars_of(pattern);
    let rep = chars_of(replacement);
    let ghost whole = replaced(s@, pattern@, replacement@);
    let mut out: Vec<char> = Vec::new();
    let mut i: usize = 0;
    assert(chars@.skip(0) =~= chars@);
    while i < chars.len()
        invariant
            i <= chars.len(),
            chars@ == s@,
            pat@ == pattern@,
            rep@ == replacement@,
            pat@.len() > 0,
            out@ + replaced(chars@.skip(i as int), pat@, rep@) == whole,
        decreases chars.len() - i,
    {
        let ghost rest = chars@.skip(i as int);
        if chars.len() - i >= pat.len() && occurs_at(&chars, i, &pat) {
            let ghost before = out@;
            let mut k: usize = 0;
            while k < rep.len()
                invariant
                    k <= rep.len(),
                    out@ == before + rep@.take(k as int),
                decreases rep.len() - k,
            {
                out.push(rep[k]);
                k = k + 1;
                assert(out@ =~= before + rep@.take(k as int));
            }
            assert(rep@.take(rep.len() as int) =~= rep@);
            assert(rest.skip(pat.len() as int) =~= chars@.skip(i + pat.len()));
            assert(out@ + replaced(chars@.skip(i + pat.len()), pat@, rep@) =~= before + (rep@
                + replaced(rest.skip(pat.len() as int), pat@, rep@)));
            i = i + pat.len();
        } else {
            let ghost before = out@;
            out.push(chars[i]);
            assert(rest.drop_first() =~= chars@.skip(i + 1));
            assert(rest[0] == chars@[i as int]);
            proof {
                if rest.len() < pat@.len() {
                    assert(rest.drop_first().len() < pat@.len());
                    assert(rest =~= seq![rest[0]] + rest.drop_first());
                }
            }
            assert(out@ + replaced(chars@.skip(i + 1), pat@, rep@) =~= before + (seq![rest[0]]
                + replaced(rest.drop_first(), pat@, rep@)));
            i = i + 1;
        }
    }
    assert(chars@.skip(i as int) =~= Seq::<char>::empty());
    assert(out@ + Seq::<char>::empty() =~= out@);
    string_of(&out)
}

} // verus!
