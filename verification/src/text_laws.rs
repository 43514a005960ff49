//! What numbers, lists and paths look like as text, and where named things are found.

use vstd::prelude::*;

use crate::ast::TypeExpr;
use crate::resolver::{field_position, resolved_from};
use crate::text::{
    decimal_text, digit_char, finishes_with, join_from, joined, leaf, leaf_before, occurs_at,
    without_suffixes,
};
use crate::types::Type;

verus! {

/// The digit that a character stands for.
pub open spec fn digit_of(c: char) -> int {
    c as int - '0' as int
}

/// The number that a sequence of digits stands for.
pub open spec fn number_of(text: Seq<char>) -> int
    decreases text.len(),
{
    if text.len() == 0 {
        0
    } else {
        number_of(text.drop_last()) * 10 + digit_of(text.last())
    }
}

proof fn digits_read_back(d: nat)
    requires
        d < 10,
    ensures
        digit_of(digit_char(d)) == d,
{
}

/// A number is written in digits that read back as the number, without a zero in
/// front of others.
pub proof fn numbers_read_back(n: nat)
    ensures
        number_of(decimal_text(n)) == n,
        decimal_text(n).len() > 0,
        n > 0 ==> decimal_text(n)[0] != '0',
        forall|i: int|
            0 <= i < decimal_text(n).len() ==> 0 <= digit_of(#[trigger] decimal_text(n)[i]) < 10,
    decreases n,
{
    digits_read_back(n % 10);
    let text = decimal_text(n);
    if n >= 10 {
        numbers_read_back(n / 10);
        let front = decimal_text(n / 10);
        assert(text.drop_last() =~= front);
        assert(text.last() == digit_char(n % 10));
        assert(text[0] == front[0]);
        assert forall|i: int| 0 <= i < text.len() implies 0 <= digit_of(#[trigger] text[i])
            < 10 by {
            if i < front.len() {
                assert(text[i] == front[i]);
            }
        }
    } else {
        assert(text.drop_last() =~= Seq::empty());
        reveal_with_fuel(number_of, 3);
    }
}

/// Different numbers are written differently.
pub proof fn numbers_are_told_apart(n: nat, m: nat)
    ensures
        decimal_text(n) == decimal_text(m) <==> n == m,
{
    numbers_read_back(n);
    numbers_read_back(m);
}

/// A text without repetitions of a suffix at its end does not end with it, and is the
/// beginning of the text.
pub proof fn suffixes_are_cut_off(text: Seq<char>, suffix: Seq<char>)
    requires
        suffix.len() > 0,
    ensures
        !finishes_with(without_suffixes(text, suffix), suffix),
        without_suffixes(text, suffix).is_prefix_of(text),
        !finishes_with(text, suffix) ==> without_suffixes(text, suffix) == text,
    decreases text.len(),
{
    if finishes_with(text, suffix) {
        let shorter = text.subrange(0, text.len() - suffix.len());
        suffixes_are_cut_off(shorter, suffix);
        let rest = without_suffixes(text, suffix);
        assert(rest =~= text.subrange(0, rest.len() as int));
    } else {
        assert(text =~= text.subrange(0, text.len() as int));
    }
}

/// The type of a field is found under its name: the first one of that name counts,
/// and a name that no field has is not found.
pub proof fn fields_are_found_by_name(fields: Seq<(String, Type)>, name: Seq<char>, i: int)
    requires
        0 <= i,
    ensures
        match field_position(fields, name, i) {
            Some(p) => i <= p < fields.len() && fields[p].0@ == name && forall|j: int|
                i <= j < p ==> (#[trigger] fields[j]).0@ != name,
            None => forall|j: int| i <= j < fields.len() ==> (#[trigger] fields[j]).0@ != name,
        },
    decreases fields.len() - i,
{
    if i < fields.len() && fields[i].0@ != name {
        fields_are_found_by_name(fields, name, i + 1);
    }
}

/// A type expression denotes what was found for it first.
pub proof fn type_expressions_denote_what_was_found(
    entries: Seq<(TypeExpr, Type)>,
    ty: TypeExpr,
    i: int,
)
    requires
        0 <= i,
    ensures
        match resolved_from(entries, ty@, i) {
            Some(found) => exists|p: int|
                i <= p < entries.len() && (#[trigger] entries[p]).0@ == ty@ && entries[p].1@
                    == found && forall|j: int| i <= j < p ==> (#[trigger] entries[j]).0@ != ty@,
            None => forall|j: int| i <= j < entries.len() ==> (#[trigger] entries[j]).0@ != ty@,
        },
    decreases entries.len() - i,
{
    if i < entries.len() {
        if entries[i].0@ == ty@ {
            assert(entries[i].1@ == resolved_from(entries, ty@, i)->0);
        } else {
            type_expressions_denote_what_was_found(entries, ty, i + 1);
            if resolved_from(entries, ty@, i) is Some {
                let found = resolved_from(entries, ty@, i)->0;
                let p = choose|p: int|
                    i + 1 <= p < entries.len() && (#[trigger] entries[p]).0@ == ty@
                        && entries[p].1@ == found && forall|j: int|
                        i + 1 <= j < p ==> (#[trigger] entries[j]).0@ != ty@;
                assert(entries[p].0@ == ty@);
            }
        }
    }
}

proof fn one_more_text_is_joined(
    text: Seq<char>,
    texts: Seq<Seq<char>>,
    last: Seq<char>,
    separator: Seq<char>,
    i: int,
)
    requires
        0 <= i <= texts.len(),
    ensures
        join_from(text, texts.push(last), separator, i) == join_from(text, texts, separator, i) + (
        if texts.len() > 0 {
            separator
        } else {
            Seq::empty()
        }) + last,
    decreases texts.len() - i,
{
    let more = texts.push(last);
    let separated = if i == 0 {
        text
    } else {
        text + separator
    };
    if i < texts.len() {
        assert(more[i] == texts[i]);
        one_more_text_is_joined(separated + texts[i], texts, last, separator, i + 1);
    } else {
        assert(more[i] == last);
        reveal_with_fuel(join_from, 2);
        assert(separated + last =~= join_from(text, texts, separator, i) + (if texts.len() > 0 {
            separator
        } else {
            Seq::empty()
        }) + last);
    }
}

/// Texts are joined in their order, with the separator between any two of them and
/// nowhere else.
pub proof fn texts_are_joined_in_order(
    texts: Seq<Seq<char>>,
    last: Seq<char>,
    separator: Seq<char>,
)
    ensures
        joined(seq![last], separator) == last,
        texts.len() > 0 ==> joined(texts.push(last), separator) == joined(texts, separator)
            + separator + last,
        joined(Seq::empty(), separator).len() == 0,
{
    reveal_strlit("");
    one_more_text_is_joined(""@, texts, last, separator, 0);
    one_more_text_is_joined(""@, Seq::empty(), last, separator, 0);
    assert(Seq::<Seq<char>>::empty().push(last) =~= seq![last]);
    assert(joined(Seq::empty(), separator) =~= ""@);
    assert(""@ + Seq::empty() + last =~= last);
}

proof fn leaves_follow_the_last_separator(
    text: Seq<char>,
    separator: Seq<char>,
    p: int,
    i: int,
)
    requires
        p <= i,
        p >= 0 ==> occurs_at(text, separator, p),
        forall|j: int| 0 <= j && p < j <= i ==> !#[trigger] occurs_at(text, separator, j),
        p >= -1,
    ensures
        leaf_before(text, separator, i) == (if p < 0 {
            text
        } else {
            text.subrange(p + separator.len(), text.len() as int)
        }),
    decreases i - p,
{
    if i > p {
        assert(!occurs_at(text, separator, i));
        leaves_follow_the_last_separator(text, separator, p, i - 1);
    }
}

/// The leaf of a path is what follows its last separator, and the whole path if it
/// has none.
pub proof fn leaves_are_the_last_part(path: Seq<char>, separator: Seq<char>, last: Seq<char>)
    ensures
        (forall|j: int| !#[trigger] occurs_at(last, separator, j)) ==> leaf(last, separator) == last,
        (forall|j: int|
            j > path.len() ==> !#[trigger] occurs_at(path + separator + last, separator, j))
            ==> leaf(path + separator + last, separator) == last,
{
    if forall|j: int| !#[trigger] occurs_at(last, separator, j) {
        leaves_follow_the_last_separator(last, separator, -1, last.len() as int);
    }
    let text = path + separator + last;
    if forall|j: int| j > path.len() ==> !#[trigger] occurs_at(text, separator, j) {
        let p = path.len() as int;
        assert(text.subrange(p, p + separator.len()) =~= separator);
        leaves_follow_the_last_separator(text, separator, p, text.len() as int);
        assert(text.subrange(p + separator.len(), text.len() as int) =~= last);
    }
}

} // verus!
