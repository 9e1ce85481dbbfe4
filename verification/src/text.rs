//! Substring search, removal and whitespace trimming on character sequences.
//!
//! The spec functions speak of `Seq<char>`, the view of a `str`. The executable
//! functions take `&str` and are proved against them.

use vstd::prelude::*;
use vstd::string::*;

verus! {

/// `pattern` stands in `text` at index `at`.
pub open spec fn occurs_at(text: Seq<char>, pattern: Seq<char>, at: int) -> bool {
    &&& 0 <= at
    &&& at + pattern.len() <= text.len()
    &&& text.subrange(at, at + pattern.len()) == pattern
}

/// `pattern` stands somewhere in `text`. The empty pattern stands in every text.
pub open spec fn occurs_in(text: Seq<char>, pattern: Seq<char>) -> bool {
    exists|at: int| occurs_at(text, pattern, at)
}

/// `text` begins with `prefix`.
pub open spec fn has_prefix(text: Seq<char>, prefix: Seq<char>) -> bool {
    occurs_at(text, prefix, 0)
}

/// `text` ends with `suffix`.
pub open spec fn has_suffix(text: Seq<char>, suffix: Seq<char>) -> bool {
    occurs_at(text, suffix, text.len() - suffix.len())
}

/// `text` with every occurrence of `pattern` taken out, scanning from the left:
/// an occurrence is dropped whole and the scan goes on behind it, so occurrences
/// that overlap an earlier one are not seen. The empty pattern removes nothing.
pub open spec fn without(text: Seq<char>, pattern: Seq<char>) -> Seq<char>
    decreases text.len(),
{
    if pattern.len() == 0 || text.len() < pattern.len() {
        text
    } else if occurs_at(text, pattern, 0) {
        without(text.skip(pattern.len() as int), pattern)
    } else {
        seq![text[0]] + without(text.skip(1), pattern)
    }
}

/// The characters with the Unicode property `White_Space`.
pub open spec fn is_whitespace(c: char) -> bool {
    let n = c as u32;
    ||| 0x09 <= n <= 0x0D
    ||| n == 0x20
    ||| n == 0x85
    ||| n == 0xA0
    ||| n == 0x1680
    ||| 0x2000 <= n <= 0x200A
    ||| n == 0x2028
    ||| n == 0x2029
    ||| n == 0x202F
    ||| n == 0x205F
    ||| n == 0x3000
}

/// How many whitespace characters `text` begins with.
pub open spec fn leading_whitespace(text: Seq<char>) -> nat
    decreases text.len(),
{
    if text.len() > 0 && is_whitespace(text[0]) {
        1 + leading_whitespace(text.skip(1))
    } else {
        0
    }
}

/// How many whitespace characters `text` ends with.
pub open spec fn trailing_whitespace(text: Seq<char>) -> nat
    decreases text.len(),
{
    if text.len() > 0 && is_whitespace(text.last()) {
        1 + trailing_whitespace(text.drop_last())
    } else {
        0
    }
}

/// `text` without its leading and trailing whitespace. What lies between the
/// first and the last character that is not whitespace stays as it is.
pub open spec fn trimmed(text: Seq<char>) -> Seq<char> {
    let from = leading_whitespace(text) as int;
    let to = text.len() - trailing_whitespace(text);
    if from <= to {
        text.subrange(from, to)
    } else {
        Seq::empty()
    }
}

/// The leading whitespace of `text` is a run of whitespace that ends at the
/// first other character, or at the end of `text`.
pub proof fn lemma_leading_whitespace(text: Seq<char>)
    ensures
        leading_whitespace(text) <= text.len(),
        forall|i: int| 0 <= i < leading_whitespace(text) ==> is_whitespace(#[trigger] text[i]),
        leading_whitespace(text) < text.len() ==> !is_whitespace(
            text[leading_whitespace(text) as int],
        ),
    decreases text.len(),
{
    if text.len() > 0 && is_whitespace(text[0]) {
        let rest = text.skip(1);
        lemma_leading_whitespace(rest);
        assert forall|i: int| 0 <= i < leading_whitespace(text) implies is_whitespace(
            #[trigger] text[i],
        ) by {
            if i > 0 {
                assert(text[i] == rest[i - 1]);
            }
        }
        if leading_whitespace(text) < text.len() {
            assert(text[leading_whitespace(text) as int] == rest[leading_whitespace(rest) as int]);
        }
    }
}

/// The trailing whitespace of `text` is a run of whitespace that begins behind
/// the last other character, or at the start of `text`.
pub proof fn lemma_trailing_whitespace(text: Seq<char>)
    ensures
        trailing_whitespace(text) <= text.len(),
        forall|i: int|
            text.len() - trailing_whitespace(text) <= i < text.len() ==> is_whitespace(
                #[trigger] text[i],
            ),
        trailing_whitespace(text) < text.len() ==> !is_whitespace(
            text[text.len() - trailing_whitespace(text) - 1],
        ),
    decreases text.len(),
{
    if text.len() > 0 && is_whitespace(text.last()) {
        let rest = text.drop_last();
        lemma_trailing_whitespace(rest);
        assert forall|i: int|
            text.len() - trailing_whitespace(text) <= i < text.len() implies is_whitespace(
            #[trigger] text[i],
        ) by {
            if i < text.len() - 1 {
                assert(text[i] == rest[i]);
            }
        }
        if trailing_whitespace(text) < text.len() {
            assert(text[text.len() - trailing_whitespace(text) - 1] == rest[rest.len()
                - trailing_whitespace(rest) - 1]);
        }
    }
}

/// Trimming takes whitespace from the two ends only. A text of whitespace alone
/// becomes empty. Any other text keeps the stretch from its first to its last
/// character that is not whitespace, with all that lies between them.
pub proof fn lemma_trimmed_is_the_core(text: Seq<char>)
    ensures
        ({
            let from = leading_whitespace(text) as int;
            let to = text.len() - trailing_whitespace(text);
            if from == text.len() {
                &&& trimmed(text) == Seq::<char>::empty()
                &&& forall|i: int| 0 <= i < text.len() ==> is_whitespace(#[trigger] text[i])
            } else {
                &&& 0 <= from < to <= text.len()
                &&& trimmed(text) == text.subrange(from, to)
                &&& !is_whitespace(text[from])
                &&& !is_whitespace(text[to - 1])
                &&& forall|i: int| 0 <= i < from ==> is_whitespace(#[trigger] text[i])
                &&& forall|i: int| to <= i < text.len() ==> is_whitespace(#[trigger] text[i])
            }
        }),
{
    lemma_leading_whitespace(text);
    lemma_trailing_whitespace(text);
    let from = leading_whitespace(text) as int;
    let to = text.len() - trailing_whitespace(text);
    if from == text.len() {
        if from <= to {
            assert(text.subrange(from, to) =~= Seq::<char>::empty());
        }
    } else {
        if to <= from {
            assert(is_whitespace(text[from]));
        }
    }
}

/// Taking a pattern out never makes a text longer.
pub proof fn lemma_without_is_no_longer(text: Seq<char>, pattern: Seq<char>)
    ensures
        without(text, pattern).len() <= text.len(),
    decreases text.len(),
{
    if pattern.len() == 0 || text.len() < pattern.len() {
    } else if occurs_at(text, pattern, 0) {
        lemma_without_is_no_longer(text.skip(pattern.len() as int), pattern);
    } else {
        lemma_without_is_no_longer(text.skip(1), pattern);
    }
}

/// A text changes exactly when a pattern that is not empty occurs in it:
/// where the pattern does not occur the text stays as it is, and where it
/// occurs the text gets shorter.
pub proof fn lemma_without_changes_iff_present(text: Seq<char>, pattern: Seq<char>)
    ensures
        !occurs_in(text, pattern) ==> without(text, pattern) == text,
        pattern.len() == 0 ==> without(text, pattern) == text,
        pattern.len() > 0 && occurs_in(text, pattern) ==> without(text, pattern).len()
            < text.len(),
    decreases text.len(),
{
    if pattern.len() == 0 {
    } else if text.len() < pattern.len() {
        assert forall|at: int| !occurs_at(text, pattern, at) by {}
    } else if occurs_at(text, pattern, 0) {
        lemma_without_is_no_longer(text.skip(pattern.len() as int), pattern);
    } else {
        let rest = text.skip(1);
        lemma_without_changes_iff_present(rest, pattern);
        if occurs_in(text, pattern) {
            let at = choose|at: int| occurs_at(text, pattern, at);
            assert(rest.subrange(at - 1, at - 1 + pattern.len()) =~= text.subrange(
                at,
                at + pattern.len(),
            ));
            assert(occurs_at(rest, pattern, at - 1));
        } else {
            assert forall|at: int| !occurs_at(rest, pattern, at) by {
                if occurs_at(rest, pattern, at) {
                    assert(text.subrange(at + 1, at + 1 + pattern.len()) =~= rest.subrange(
                        at,
                        at + pattern.len(),
                    ));
                    assert(occurs_at(text, pattern, at + 1));
                }
            }
            assert(seq![text[0]] + rest =~= text);
        }
    }
}

/// The characters of `s`, in order.
fn chars_of(s: &str) -> (out: Vec<char>)
    ensures
        out@ == s@,
{
    let mut out: Vec<char> = Vec::new();
    for c in it: s.chars()
        invariant
            out@ == it.seq().take(it.index()),
    {
        out.push(c);
    }
    out
}

/// Whether `c` is whitespace.
pub fn is_whitespace_char(c: char) -> (b: bool)
    ensures
        b == is_whitespace(c),
{
    let n: u32 = c as u32;
    (0x09 <= n && n <= 0x0D) || n == 0x20 || n == 0x85 || n == 0xA0 || n == 0x1680 || (0x2000 <= n
        && n <= 0x200A) || n == 0x2028 || n == 0x2029 || n == 0x202F || n == 0x205F || n == 0x3000
}

/// Whether `pattern` stands in `text` at index `at`.
fn matches_at(text: &Vec<char>, pattern: &Vec<char>, at: usize) -> (b: bool)
    requires
        at + pattern.len() <= text.len(),
    ensures
        b == occurs_at(text@, pattern@, at as int),
{
    let mut k: usize = 0;
    while k < pattern.len()
        invariant
            at + pattern.len() <= text.len(),
            k <= pattern.len(),
            forall|j: int| 0 <= j < k ==> text@[at + j] == pattern@[j],
        decreases pattern.len() - k,
    {
        if text[at + k] != pattern[k] {
            assert(text@.subrange(at as int, at + pattern@.len())[k as int] == text@[at + k]);
            return false;
        }
        k += 1;
    }
    assert(text@.subrange(at as int, at + pattern@.len()) =~= pattern@);
    true
}

/// Whether `pattern` stands somewhere in `text`.
pub fn contains(text: &str, pattern: &str) -> (b: bool)
    ensures
        b == occurs_in(text@, pattern@),
{
    let t = chars_of(text);
    let p = chars_of(pattern);
    if p.len() > t.len() {
        return false;
    }
    let last: usize = t.len() - p.len();
    let mut at: usize = 0;
    loop
        invariant
            last == t.len() - p.len(),
            at <= last,
            t@ == text@,
            p@ == pattern@,
            forall|j: int| 0 <= j < at ==> !occurs_at(t@, p@, j),
        decreases last - at,
    {
        if matches_at(&t, &p, at) {
            return true;
        }
        if at == last {
            return false;
        }
        at += 1;
    }
}

/// Whether `text` begins with `prefix`.
pub fn starts_with(text: &str, prefix: &str) -> (b: bool)
    ensures
        b == has_prefix(text@, prefix@),
{
    let t = chars_of(text);
    let p = chars_of(prefix);
    p.len() <= t.len() && matches_at(&t, &p, 0)
}

/// Whether `text` ends with `suffix`.
pub fn ends_with(text: &str, suffix: &str) -> (b: bool)
    ensures
        b == has_suffix(text@, suffix@),
{
    let t = chars_of(text);
    let p = chars_of(suffix);
    p.len() <= t.len() && matches_at(&t, &p, t.len() - p.len())
}

/// `text` with every occurrence of `pattern` taken out.
pub fn remove_all(text: &str, pattern: &str) -> (out: String)
    ensures
        out@ == without(text@, pattern@),
{
    let t = chars_of(text);
    let p = chars_of(pattern);
    if p.len() == 0 || t.len() < p.len() {
        return String::from_str(text);
    }
    let last: usize = t.len() - p.len();
    let mut out = String::new();
    let mut kept_from: usize = 0;
    let mut at: usize = 0;
    assert(t@.skip(0) =~= t@);
    assert(out@ + t@.subrange(0, 0) + without(t@, p@) =~= without(t@, p@));
    while at <= last
        invariant
            t@ == text@,
            p@ == pattern@,
            0 < p.len() <= t.len(),
            last == t.len() - p.len(),
            kept_from <= at <= t.len(),
            without(t@, p@) == out@ + t@.subrange(kept_from as int, at as int) + without(
                t@.skip(at as int),
                p@,
            ),
        decreases t.len() - at,
    {
        let ghost tail = t@.skip(at as int);
        assert(tail.len() >= p@.len());
        assert(tail.subrange(0, p@.len() as int) =~= t@.subrange(at as int, at + p@.len()));
        if matches_at(&t, &p, at) {
            out.append(text.substring_char(kept_from, at));
            assert(tail.skip(p@.len() as int) =~= t@.skip(at + p@.len()));
            at += p.len();
            kept_from = at;
            assert(t@.subrange(kept_from as int, at as int) =~= Seq::<char>::empty());
        } else {
            assert(tail.skip(1) =~= t@.skip(at + 1));
            assert(t@.subrange(kept_from as int, at as int) + seq![tail[0]] =~= t@.subrange(
                kept_from as int,
                at + 1,
            ));
            at += 1;
        }
    }
    assert(t@.subrange(kept_from as int, at as int) + t@.skip(at as int) =~= t@.subrange(
        kept_from as int,
        t@.len() as int,
    ));
    out.append(text.substring_char(kept_from, t.len()));
    out
}

/// `text` without its leading and trailing whitespace.
pub fn trim(text: &str) -> (out: String)
    ensures
        out@ == trimmed(text@),
{
    let t = chars_of(text);
    let mut from: usize = 0;
    assert(t@.skip(0) =~= t@);
    while from < t.len() && is_whitespace_char(t[from])
        invariant
            from <= t.len(),
            leading_whitespace(t@) == from + leading_whitespace(t@.skip(from as int)),
        decreases t.len() - from,
    {
        assert(t@.skip(from as int).skip(1) =~= t@.skip(from + 1));
        from += 1;
    }
    let mut to: usize = t.len();
    assert(t@.take(t@.len() as int) =~= t@);
    while to > 0 && is_whitespace_char(t[to - 1])
        invariant
            to <= t.len(),
            trailing_whitespace(t@) == (t.len() - to) + trailing_whitespace(t@.take(to as int)),
        decreases to,
    {
        assert(t@.take(to as int).drop_last() =~= t@.take(to - 1));
        to -= 1;
    }
    if from <= to {
        String::from_str(text.substring_char(from, to))
    } else {
        String::new()
    }
}

} // verus!
