//! Text building blocks with exact character-level contracts.

use vstd::prelude::*;

verus! {

/// Whether two strings hold the same characters, by `str`'s `==`.
///
/// Trusted: `str::eq` returns true exactly when both strings hold the same
/// sequence of characters.
#[verifier::external_body]
pub(crate) fn same_text(a: &str, b: &str) -> (same: bool)
    ensures
        same == (a@ == b@),
{
    a == b
}

/// The character for one decimal digit.
pub open spec fn digit_char(d: nat) -> char {
    if d == 0 { '0' } else if d == 1 { '1' } else if d == 2 { '2' } else if d == 3 { '3' }
    else if d == 4 { '4' } else if d == 5 { '5' } else if d == 6 { '6' } else if d == 7 { '7' }
    else if d == 8 { '8' } else { '9' }
}

/// The decimal notation of a natural number, without leading zeros.
pub open spec fn decimal_text(n: nat) -> Seq<char>
    decreases n,
{
    if n < 10 {
        seq![digit_char(n)]
    } else {
        decimal_text(n / 10).push(digit_char(n % 10))
    }
}

fn digit_str(d: u64) -> (text: &'static str)
    requires
        d < 10,
    ensures
        text@ == seq![digit_char(d as nat)],
{
    proof {
        reveal_strlit("0"); reveal_strlit("1"); reveal_strlit("2"); reveal_strlit("3");
        reveal_strlit("4"); reveal_strlit("5"); reveal_strlit("6"); reveal_strlit("7");
        reveal_strlit("8"); reveal_strlit("9");
    }
    if d == 0 { "0" } else if d == 1 { "1" } else if d == 2 { "2" } else if d == 3 { "3" }
    else if d == 4 { "4" } else if d == 5 { "5" } else if d == 6 { "6" } else if d == 7 { "7" }
    else if d == 8 { "8" } else { "9" }
}

/// Renders `n` in decimal.
pub fn decimal(n: u64) -> (text: String)
    ensures
        text@ == decimal_text(n as nat),
    decreases n,
{
    if n < 10 {
        digit_str(n).to_owned()
    } else {
        let mut text = decimal(n / 10);
        text.append(digit_str(n % 10));
        text
    }
}

pub fn concat2(a: &str, b: &str) -> (text: String)
    ensures
        text@ == a@ + b@,
{
    let mut text = a.to_owned();
    text.append(b);
    text
}

pub fn concat3(a: &str, b: &str, c: &str) -> (text: String)
    ensures
        text@ == a@ + b@ + c@,
{
    let mut text = concat2(a, b);
    text.append(c);
    text
}

pub fn concat4(a: &str, b: &str, c: &str, d: &str) -> (text: String)
    ensures
        text@ == a@ + b@ + c@ + d@,
{
    let mut text = concat3(a, b, c);
    text.append(d);
    text
}

pub fn concat5(a: &str, b: &str, c: &str, d: &str, e: &str) -> (text: String)
    ensures
        text@ == a@ + b@ + c@ + d@ + e@,
{
    let mut text = concat4(a, b, c, d);
    text.append(e);
    text
}

pub fn concat6(a: &str, b: &str, c: &str, d: &str, e: &str, f: &str) -> (text: String)
    ensures
        text@ == a@ + b@ + c@ + d@ + e@ + f@,
{
    let mut text = concat5(a, b, c, d, e);
    text.append(f);
    text
}

pub fn concat7(a: &str, b: &str, c: &str, d: &str, e: &str, f: &str, g: &str) -> (text: String)
    ensures
        text@ == a@ + b@ + c@ + d@ + e@ + f@ + g@,
{
    let mut text = concat6(a, b, c, d, e, f);
    text.append(g);
    text
}

/// The characters of each string.
pub open spec fn texts_view(texts: Seq<String>) -> Seq<Seq<char>> {
    Seq::new(texts.len(), |i: int| texts[i]@)
}

pub fn clone_texts(texts: &Vec<String>) -> (copy: Vec<String>)
    ensures
        texts_view(copy@) == texts_view(texts@),
{
    let mut copy: Vec<String> = Vec::new();
    let mut i: usize = 0;
    while i < texts.len()
        invariant
            i <= texts.len(),
            copy.len() == i,
            forall|j: int| 0 <= j < i ==> (#[trigger] copy[j])@ == texts[j]@,
        decreases texts.len() - i,
    {
        copy.push(texts[i].clone());
        i += 1;
    }
    assert(texts_view(copy@) =~= texts_view(texts@));
    copy
}

pub fn same_texts(a: &Vec<String>, b: &Vec<String>) -> (same: bool)
    ensures
        same == (texts_view(a@) == texts_view(b@)),
{
    if a.len() != b.len() {
        assert(texts_view(a@).len() != texts_view(b@).len());
        return false;
    }
    let mut i: usize = 0;
    while i < a.len()
        invariant
            i <= a.len(),
            a.len() == b.len(),
            forall|j: int| 0 <= j < i ==> (#[trigger] a[j])@ == b[j]@,
        decreases a.len() - i,
    {
        if !same_text(a[i].as_str(), b[i].as_str()) {
            assert(texts_view(a@)[i as int] != texts_view(b@)[i as int]);
            return false;
        }
        i += 1;
    }
    assert(texts_view(a@) =~= texts_view(b@));
    true
}

/// The texts from position `i` on, after `text`, with the separator between
/// any two texts.
pub open spec fn join_from(
    text: Seq<char>,
    texts: Seq<Seq<char>>,
    separator: Seq<char>,
    i: int,
) -> Seq<char>
    decreases texts.len() - i,
{
    if i < 0 || i >= texts.len() {
        text
    } else {
        let separated = if i == 0 {
            text
        } else {
            text + separator
        };
        join_from(separated + texts[i], texts, separator, i + 1)
    }
}

/// The texts with the separator between any two of them.
pub open spec fn joined(texts: Seq<Seq<char>>, separator: Seq<char>) -> Seq<char> {
    join_from(""@, texts, separator, 0)
}

pub fn join(texts: &Vec<String>, separator: &str) -> (text: String)
    ensures
        text@ == joined(texts_view(texts@), separator@),
{
    let ghost views = texts_view(texts@);
    let mut text = "".to_owned();
    let mut i: usize = 0;
    while i < texts.len()
        invariant
            i <= texts.len(),
            views == texts_view(texts@),
            join_from(text@, views, separator@, i as int) == joined(views, separator@),
        decreases texts.len() - i,
    {
        assert(views[i as int] == texts[i as int]@);
        if i > 0 {
            text.append(separator);
        }
        text.append(texts[i].as_str());
        i += 1;
    }
    text
}

/// Whether `pattern` stands at position `i` of `text`.
pub open spec fn occurs_at(text: Seq<char>, pattern: Seq<char>, i: int) -> bool {
    0 <= i && i + pattern.len() <= text.len() && text.subrange(i, i + pattern.len()) == pattern
}

pub open spec fn begins_with(text: Seq<char>, prefix: Seq<char>) -> bool {
    occurs_at(text, prefix, 0)
}

pub open spec fn finishes_with(text: Seq<char>, suffix: Seq<char>) -> bool {
    occurs_at(text, suffix, text.len() - suffix.len())
}

/// The text without repetitions of `suffix` at its end.
pub open spec fn without_suffixes(text: Seq<char>, suffix: Seq<char>) -> Seq<char>
    decreases text.len(),
{
    if suffix.len() > 0 && finishes_with(text, suffix) {
        without_suffixes(text.subrange(0, text.len() - suffix.len()), suffix)
    } else {
        text
    }
}

/// What follows the last separator that starts at or before position `i`; the
/// whole text if there is none.
pub open spec fn leaf_before(text: Seq<char>, separator: Seq<char>, i: int) -> Seq<char>
    decreases i + 1,
{
    if i < 0 {
        text
    } else if occurs_at(text, separator, i) {
        text.subrange(i + separator.len(), text.len() as int)
    } else {
        leaf_before(text, separator, i - 1)
    }
}

/// What follows the last separator.
pub open spec fn leaf(text: Seq<char>, separator: Seq<char>) -> Seq<char> {
    leaf_before(text, separator, text.len() as int)
}

/// The text from position `i` on, with each occurrence of `pattern` replaced
/// from left to right.
pub open spec fn replaced_from(
    text: Seq<char>,
    pattern: Seq<char>,
    replacement: Seq<char>,
    i: int,
) -> Seq<char>
    decreases text.len() - i,
{
    if i < 0 || i >= text.len() {
        Seq::empty()
    } else if pattern.len() > 0 && occurs_at(text, pattern, i) {
        replacement + replaced_from(text, pattern, replacement, i + pattern.len())
    } else {
        seq![text[i]] + replaced_from(text, pattern, replacement, i + 1)
    }
}

/// The text with each occurrence of `pattern` replaced.
pub open spec fn replaced(text: Seq<char>, pattern: Seq<char>, replacement: Seq<char>) -> Seq<char> {
    replaced_from(text, pattern, replacement, 0)
}

fn stands_at(text: &str, pattern: &str, i: usize) -> (found: bool)
    ensures
        found == occurs_at(text@, pattern@, i as int),
{
    let size: usize = pattern.unicode_len();
    let len: usize = text.unicode_len();
    if i > len || size > len - i {
        return false;
    }
    same_text(text.substring_char(i, i + size), pattern)
}

pub fn starts_with(text: &str, prefix: &str) -> (found: bool)
    ensures
        found == begins_with(text@, prefix@),
{
    stands_at(text, prefix, 0)
}

pub fn ends_with(text: &str, suffix: &str) -> (found: bool)
    ensures
        found == finishes_with(text@, suffix@),
{
    let size: usize = suffix.unicode_len();
    let len: usize = text.unicode_len();
    if size > len {
        return false;
    }
    stands_at(text, suffix, len - size)
}

pub fn trim_end_matches<'t>(text: &'t str, suffix: &str) -> (trimmed: &'t str)
    ensures
        trimmed@ == without_suffixes(text@, suffix@),
{
    let size: usize = suffix.unicode_len();
    let mut rest = text;
    if size == 0 {
        return rest;
    }
    while ends_with(rest, suffix)
        invariant
            size == suffix@.len(),
            size > 0,
            without_suffixes(rest@, suffix@) == without_suffixes(text@, suffix@),
        decreases rest@.len(),
    {
        let len: usize = rest.unicode_len();
        rest = rest.substring_char(0, len - size);
    }
    rest
}

/// The part of `text` after the last `separator`.
pub fn last_part<'t>(text: &'t str, separator: &str) -> (part: &'t str)
    ensures
        part@ == leaf(text@, separator@),
{
    let len: usize = text.unicode_len();
    let size: usize = separator.unicode_len();
    let mut i: usize = len;
    loop
        invariant
            len == text@.len(),
            size == separator@.len(),
            i <= len,
            leaf_before(text@, separator@, i as int) == leaf(text@, separator@),
        decreases i,
    {
        if stands_at(text, separator, i) {
            return text.substring_char(i + size, len);
        }
        if i == 0 {
            assert(leaf_before(text@, separator@, -1) == text@);
            return text;
        }
        i -= 1;
    }
}

/// The text with each occurrence of `pattern` replaced.
pub fn replace(text: &str, pattern: &str, replacement: &str) -> (result: String)
    ensures
        result@ == replaced(text@, pattern@, replacement@),
{
    let len: usize = text.unicode_len();
    let size: usize = pattern.unicode_len();
    let mut result = String::new();
    let mut i: usize = 0;
    while i < len
        invariant
            len == text@.len(),
            size == pattern@.len(),
            i <= len,
            result@ + replaced_from(text@, pattern@, replacement@, i as int) == replaced(
                text@,
                pattern@,
                replacement@,
            ),
        decreases len - i,
    {
        let ghost before = result@;
        let ghost here = i as int;
        if size > 0 && stands_at(text, pattern, i) {
            result.append(replacement);
            i += size;
        } else {
            result.append(text.substring_char(i, i + 1));
            assert(text@.subrange(here, here + 1) =~= seq![text@[here]]);
            i += 1;
        }
        assert(result@ + replaced_from(text@, pattern@, replacement@, i as int) =~= before
            + replaced_from(text@, pattern@, replacement@, here));
    }
    assert(result@ =~= replaced(text@, pattern@, replacement@));
    result
}

} // verus!
