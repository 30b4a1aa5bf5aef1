//! How the interpreter reads the text of a guard before it hands it to the
//! expression evaluator.
//!
//! A guard is a boolean expression over the variables and the `last_frame()`
//! predicate. Two things are read off its text. A guard that calls one of the
//! shift functions `shl` and `shr` is not evaluated, because a shift can
//! overflow; it counts as a guard that fails. And a guard is exact where it
//! uses neither the power operator `^` nor a name written with `:`, such as
//! the math functions: what an exact guard evaluates to depends on its text
//! and on the variables alone. What stands inside a string literal is neither
//! a call nor an operator.

use vstd::prelude::*;

verus! {

/// Whether `c` is white space: a character with the Unicode property
/// White_Space.
pub open spec fn is_space(c: char) -> bool {
    ('\u{9}' <= c && c <= '\u{d}') || c == ' ' || c == '\u{85}' || c == '\u{a0}' || c == '\u{1680}'
        || ('\u{2000}' <= c && c <= '\u{200a}') || c == '\u{2028}' || c == '\u{2029}' || c
        == '\u{202f}' || c == '\u{205f}' || c == '\u{3000}'
}

/// Whether `c` is one of the characters that operators, brackets and
/// separators are written with.
pub open spec fn is_delimiter(c: char) -> bool {
    c == '+' || c == '-' || c == '*' || c == '/' || c == '%' || c == '^' || c == '(' || c == ')'
        || c == ',' || c == ';' || c == '=' || c == '!' || c == '>' || c == '<' || c == '&' || c
        == '|'
}

/// Whether `c` can stand in a name or a number: it is no quote, no delimiter
/// and no white space.
pub open spec fn is_literal_char(c: char) -> bool {
    c != '"' && !is_delimiter(c) && !is_space(c)
}

/// Whether a value can begin with `c`: an opening bracket, a quote, or the
/// first character of a name or a number.
pub open spec fn begins_value(c: char) -> bool {
    c == '(' || c == '"' || is_literal_char(c)
}

/// Where a reader of an expression stands: in the expression itself, inside
/// a string literal, or behind a backslash inside a string literal.
#[derive(PartialEq, Eq, Structural, Clone, Copy, Debug)]
pub enum Mode {
    Code,
    Text,
    Escape,
}

/// The mode after a character.
pub open spec fn step(mode: Mode, c: char) -> Mode {
    match mode {
        Mode::Code => if c == '"' {
            Mode::Text
        } else {
            Mode::Code
        },
        Mode::Text => if c == '"' {
            Mode::Code
        } else if c == '\\' {
            Mode::Escape
        } else {
            Mode::Text
        },
        Mode::Escape => Mode::Text,
    }
}

/// The mode in which the character at position `n` is read.
pub open spec fn mode_at(text: Seq<char>, n: int) -> Mode
    decreases n,
{
    if n <= 0 {
        Mode::Code
    } else {
        step(mode_at(text, n - 1), text[n - 1])
    }
}

/// Whether `from..to` is a name or a number of the expression: a run of
/// literal characters outside any string literal that cannot be extended on
/// either side.
pub open spec fn is_name(text: Seq<char>, from: int, to: int) -> bool {
    &&& 0 <= from < to <= text.len()
    &&& mode_at(text, from) == Mode::Code
    &&& forall|k: int| from <= k < to ==> is_literal_char(#[trigger] text[k])
    &&& (from == 0 || !is_literal_char(text[from - 1]))
    &&& (to == text.len() || !is_literal_char(text[to]))
}

/// Whether a value follows at position `at`, after white space or at once.
/// A name that a value follows is called as a function.
pub open spec fn value_follows(text: Seq<char>, at: int) -> bool
    decreases text.len() - at,
{
    if at < 0 || at >= text.len() {
        false
    } else if is_space(text[at]) {
        value_follows(text, at + 1)
    } else {
        begins_value(text[at])
    }
}

/// Whether `word` names a shift function.
pub open spec fn is_shift_name(word: Seq<char>) -> bool {
    word.len() == 3 && word[0] == 's' && word[1] == 'h' && (word[2] == 'l' || word[2] == 'r')
}

/// Whether `from..to` is a call of a shift function.
pub open spec fn is_shift_call(text: Seq<char>, from: int, to: int) -> bool {
    is_name(text, from, to) && is_shift_name(text.subrange(from, to)) && value_follows(text, to)
}

/// Whether the expression calls a shift function.
pub open spec fn calls_shift(text: Seq<char>) -> bool {
    exists|from: int, to: int| #[trigger] is_shift_call(text, from, to)
}

/// Whether the expression is exact: outside its string literals it holds
/// neither `^` nor `:`.
pub open spec fn exact_guard(text: Seq<char>) -> bool {
    forall|k: int|
        0 <= k < text.len() && mode_at(text, k) == Mode::Code ==> (#[trigger] text[k]) != '^'
            && text[k] != ':'
}

/// Tells whether a character is white space.
pub fn space(c: char) -> (white: bool)
    ensures
        white == is_space(c),
{
    ('\u{9}' <= c && c <= '\u{d}') || c == ' ' || c == '\u{85}' || c == '\u{a0}' || c == '\u{1680}'
        || ('\u{2000}' <= c && c <= '\u{200a}') || c == '\u{2028}' || c == '\u{2029}' || c
        == '\u{202f}' || c == '\u{205f}' || c == '\u{3000}'
}

fn delimiter(c: char) -> (delimits: bool)
    ensures
        delimits == is_delimiter(c),
{
    c == '+' || c == '-' || c == '*' || c == '/' || c == '%' || c == '^' || c == '(' || c == ')'
        || c == ',' || c == ';' || c == '=' || c == '!' || c == '>' || c == '<' || c == '&' || c
        == '|'
}

fn literal_char(c: char) -> (literal: bool)
    ensures
        literal == is_literal_char(c),
{
    c != '"' && !delimiter(c) && !space(c)
}

fn next_mode(mode: Mode, c: char) -> (next: Mode)
    ensures
        next == step(mode, c),
{
    match mode {
        Mode::Code => if c == '"' {
            Mode::Text
        } else {
            Mode::Code
        },
        Mode::Text => if c == '"' {
            Mode::Code
        } else if c == '\\' {
            Mode::Escape
        } else {
            Mode::Text
        },
        Mode::Escape => Mode::Text,
    }
}

fn shift_name_at(text: &str, from: usize, to: usize) -> (shift: bool)
    requires
        from <= to <= text@.len(),
    ensures
        shift == is_shift_name(text@.subrange(from as int, to as int)),
{
    if to - from != 3 {
        return false;
    }
    let first = text.get_char(from);
    let second = text.get_char(from + 1);
    let third = text.get_char(from + 2);
    first == 's' && second == 'h' && (third == 'l' || third == 'r')
}

fn value_follows_at(text: &str, at: usize) -> (follows: bool)
    requires
        at <= text@.len(),
    ensures
        follows == value_follows(text@, at as int),
{
    let length: usize = text.unicode_len();
    let mut j: usize = at;
    while j < length
        invariant
            at <= j <= length,
            length == text@.len(),
            value_follows(text@, at as int) == value_follows(text@, j as int),
        decreases length - j,
    {
        let c = text.get_char(j);
        if !space(c) {
            return c == '(' || c == '"' || literal_char(c);
        }
        j = j + 1;
    }
    false
}

/// Every character of a name is read in the expression itself, and so is the
/// character behind it.
pub proof fn lemma_name_in_code(text: Seq<char>, from: int, to: int, k: int)
    requires
        is_name(text, from, to),
        from <= k <= to,
    ensures
        mode_at(text, k) == Mode::Code,
    decreases k - from,
{
    if k > from {
        lemma_name_in_code(text, from, to, k - 1);
        assert(is_literal_char(text[k - 1]));
    }
}

/// A name that overlaps a run of literal characters which cannot be extended
/// is that run.
proof fn lemma_name_is_run(text: Seq<char>, start: int, end: int, from: int, to: int)
    requires
        0 <= start <= end <= text.len(),
        forall|k: int| start <= k < end ==> is_literal_char(#[trigger] text[k]),
        start == 0 || !is_literal_char(text[start - 1]),
        end == text.len() || !is_literal_char(text[end]),
        is_name(text, from, to),
        start < to <= end || (start <= from < end),
    ensures
        from == start,
        to == end,
{
    if from < start {
        assert(is_literal_char(text[start - 1]));
    }
    if from > start {
        assert(is_literal_char(text[from - 1]));
    }
    if to < end {
        assert(is_literal_char(text[to]));
    }
    if to > end {
        assert(is_literal_char(text[end]));
    }
}

/// Tells whether an expression calls a shift function.
pub fn calls_shift_function(text: &str) -> (calls: bool)
    ensures
        calls == calls_shift(text@),
{
    let length: usize = text.unicode_len();
    let mut mode = Mode::Code;
    let mut start: usize = 0;
    let mut i: usize = 0;
    while i < length
        invariant
            0 <= start <= i <= length,
            length == text@.len(),
            mode == mode_at(text@, i as int),
            mode == Mode::Code ==> mode_at(text@, start as int) == Mode::Code,
            mode == Mode::Code ==> forall|k: int|
                start <= k < i ==> is_literal_char(#[trigger] text@[k]),
            mode == Mode::Code ==> start == 0 || !is_literal_char(text@[start - 1]),
            mode != Mode::Code ==> start == i,
            forall|from: int, to: int| #[trigger]
                is_shift_call(text@, from, to) ==> to > start,
        decreases length - i,
    {
        let c = text.get_char(i);
        let after = next_mode(mode, c);
        if mode == Mode::Code {
            if !literal_char(c) {
                if start < i {
                    if shift_name_at(text, start, i) && value_follows_at(text, i) {
                        assert(is_shift_call(text@, start as int, i as int));
                        return true;
                    }
                }
                assert forall|from: int, to: int| #[trigger]
                    is_shift_call(text@, from, to) implies to > i + 1 by {
                    if to <= i + 1 {
                        if to == i + 1 {
                            assert(is_literal_char(text@[i as int]));
                        }
                        lemma_name_is_run(text@, start as int, i as int, from, to);
                    }
                }
                start = i + 1;
            }
        } else {
            assert forall|from: int, to: int| #[trigger]
                is_shift_call(text@, from, to) implies to > i + 1 by {
                if to == i + 1 {
                    lemma_name_in_code(text@, from, to, i as int);
                }
            }
            start = i + 1;
        }
        mode = after;
        i = i + 1;
    }
    assert forall|from: int, to: int| #[trigger] is_shift_call(text@, from, to) implies false by {
        if mode == Mode::Code {
            if to < length {
                lemma_name_is_run(text@, start as int, length as int, from, to);
            }
        }
    }
    false
}

/// Tells whether an expression is exact.
pub fn is_exact_guard(text: &str) -> (exact: bool)
    ensures
        exact == exact_guard(text@),
{
    let length: usize = text.unicode_len();
    let mut mode = Mode::Code;
    let mut i: usize = 0;
    while i < length
        invariant
            i <= length,
            length == text@.len(),
            mode == mode_at(text@, i as int),
            forall|k: int|
                0 <= k < i && mode_at(text@, k) == Mode::Code ==> (#[trigger] text@[k]) != '^'
                    && text@[k] != ':',
        decreases length - i,
    {
        let c = text.get_char(i);
        if mode == Mode::Code && (c == '^' || c == ':') {
            return false;
        }
        mode = next_mode(mode, c);
        i = i + 1;
    }
    true
}

} // verus!
