//! Transition targets: the compact text `[flag]sub_name[.play_name][.index]`
//! and the command that it stands for.

use vstd::prelude::*;

verus! {

/// What a transition does to the state stack.
#[derive(Debug, Clone, Copy, PartialEq, Eq)]
pub enum Operation {
    /// `>`: enter a child substate.
    Enter,
    /// `<`: leave to the parent substate.
    Exit,
    /// `-`: replace the current state.
    Replace,
    /// `.`: restart the current clip.
    Restart,
    /// No flag: update the current state in place.
    Update,
    /// A flag that is none of the above: the stack stays as it is.
    Skip,
}

/// A parsed transition target.
#[derive(Debug, Clone, PartialEq)]
pub struct Command {
    pub operation: Operation,
    pub sub_name: String,
    pub play_name: String,
    pub index: u32,
}

/// The mathematical value of a [`Command`].
pub struct CommandView {
    pub operation: Operation,
    pub sub_name: Seq<char>,
    pub play_name: Seq<char>,
    pub index: u32,
}

impl View for Command {
    type V = CommandView;

    open spec fn view(&self) -> CommandView {
        CommandView {
            operation: self.operation,
            sub_name: self.sub_name@,
            play_name: self.play_name@,
            index: self.index,
        }
    }
}

/// The pattern that a transition target is matched against: an optional flag,
/// the substate name, and after a dot each the play name and the index.
pub open spec fn target_pattern() -> Seq<char> {
    r"([.><-]?)(\w*)\.?(\w*)\.?(\d*)"@
}

/// The capture groups of the leftmost match of `pattern` in `text`, group 0
/// first; a group that took no part in the match is `None`. `None` where the
/// pattern is not a valid regular expression or matches nowhere.
pub uninterp spec fn regex_captures(pattern: Seq<char>, text: Seq<char>) -> Option<Seq<Option<Seq<char>>>>;

/// `regex::Regex::new` and, on the compiled expression,
/// `regex::Regex::captures_iter(..).next()`: the capture groups of the first
/// match, each as an owned string. Matching depends on the pattern and the
/// text alone, so the result is named by [`regex_captures`].
#[verifier::external_body]
fn first_captures(pattern: &str, text: &str) -> (groups: Option<Vec<Option<String>>>)
    ensures
        groups.deep_view() == regex_captures(pattern@, text@),
{
    let expression = regex::Regex::new(pattern).ok()?;
    let found = expression.captures_iter(text).next()?;
    Some(found.iter().map(|group| group.map(|m| m.as_str().to_string())).collect())
}

/// The operation that a flag stands for.
pub open spec fn operation_of(flag: Seq<char>) -> Operation {
    if flag.len() == 0 {
        Operation::Update
    } else if flag.len() > 1 {
        Operation::Skip
    } else if flag[0] == '>' {
        Operation::Enter
    } else if flag[0] == '<' {
        Operation::Exit
    } else if flag[0] == '-' {
        Operation::Replace
    } else if flag[0] == '.' {
        Operation::Restart
    } else {
        Operation::Skip
    }
}

/// Decodes the flag of a transition target.
pub fn decode_flag(flag: &str) -> (operation: Operation)
    ensures
        operation == operation_of(flag@),
{
    let length: usize = flag.unicode_len();
    if length == 0 {
        Operation::Update
    } else if length > 1 {
        Operation::Skip
    } else {
        let c = flag.get_char(0);
        if c == '>' {
            Operation::Enter
        } else if c == '<' {
            Operation::Exit
        } else if c == '-' {
            Operation::Replace
        } else if c == '.' {
            Operation::Restart
        } else {
            Operation::Skip
        }
    }
}

/// Whether `c` is one of the digits `0` to `9`.
pub open spec fn is_decimal_digit(c: char) -> bool {
    '0' <= c && c <= '9'
}

/// The number that a run of decimal digits writes, `None` where one of the
/// characters is no decimal digit. The empty run writes 0.
pub open spec fn digits_value(digits: Seq<char>) -> Option<int>
    decreases digits.len(),
{
    if digits.len() == 0 {
        Some(0)
    } else {
        match digits_value(digits.drop_last()) {
            Some(front) if is_decimal_digit(digits.last()) => Some(
                front * 10 + (digits.last() as int - '0' as int),
            ),
            _ => None,
        }
    }
}

/// The digits of an index text: the text without a leading `+` that something
/// follows.
pub open spec fn index_digits(text: Seq<char>) -> Seq<char> {
    if text.len() > 1 && text[0] == '+' {
        text.drop_first()
    } else {
        text
    }
}

/// The index that a text stands for: its decimal value where it is a
/// non-empty run of decimal digits (a `+` may lead) that fits in `u32`, and 0
/// otherwise.
pub open spec fn index_of(text: Seq<char>) -> u32 {
    let digits = index_digits(text);
    match digits_value(digits) {
        Some(value) if digits.len() > 0 && value <= u32::MAX => value as u32,
        _ => 0,
    }
}

/// The value of a prefix of a run of digits is defined wherever the value of
/// the whole run is, and is no larger.
pub proof fn lemma_digits_prefix(digits: Seq<char>, n: int)
    requires
        0 <= n <= digits.len(),
    ensures
        digits_value(digits.take(n)) is None ==> digits_value(digits) is None,
        digits_value(digits) matches Some(whole) ==> digits_value(digits.take(n)) matches Some(
            part,
        ) && 0 <= part <= whole,
    decreases digits.len(),
{
    if n == digits.len() {
        assert(digits.take(n) == digits);
        lemma_digits_nonnegative(digits);
    } else {
        let front = digits.drop_last();
        assert(front.take(n) == digits.take(n));
        lemma_digits_prefix(front, n);
        lemma_digits_nonnegative(front);
    }
}

/// The value of a run of digits is not negative.
pub proof fn lemma_digits_nonnegative(digits: Seq<char>)
    ensures
        digits_value(digits) matches Some(value) ==> value >= 0,
    decreases digits.len(),
{
    if digits.len() > 0 {
        lemma_digits_nonnegative(digits.drop_last());
    }
}

/// Reads the index of a transition target.
pub fn parse_index(text: &str) -> (index: u32)
    ensures
        index == index_of(text@),
{
    let length: usize = text.unicode_len();
    let start: usize = if length > 1 && text.get_char(0) == '+' {
        1
    } else {
        0
    };
    let ghost digits = index_digits(text@);
    let mut value: u32 = 0;
    let mut i: usize = start;
    proof {
        assert(digits.take(0) == Seq::<char>::empty());
    }
    while i < length
        invariant
            start <= i <= length,
            length == text@.len(),
            digits == index_digits(text@),
            digits.len() == length - start,
            forall|k: int| 0 <= k < digits.len() ==> digits[k] == text@[k + start],
            digits_value(digits.take(i - start)) == Some(value as int),
        decreases length - i,
    {
        let c = text.get_char(i);
        let ghost seen = digits.take(i - start + 1);
        proof {
            assert(seen.drop_last() == digits.take(i - start));
            assert(seen.last() == c);
            lemma_digits_prefix(digits, i - start + 1);
        }
        if c < '0' || c > '9' {
            return 0;
        }
        let digit: u32 = c as u32 - '0' as u32;
        if value > (u32::MAX - digit) / 10 {
            return 0;
        }
        value = value * 10 + digit;
        i = i + 1;
    }
    proof {
        assert(digits.take(digits.len() as int) == digits);
    }
    value
}

/// The text of capture group `i`: empty where the match has no such group or
/// the group took no part in it.
pub open spec fn group_of(groups: Seq<Option<Seq<char>>>, i: int) -> Seq<char> {
    if 0 <= i < groups.len() {
        match groups[i] {
            Some(text) => text,
            None => Seq::empty(),
        }
    } else {
        Seq::empty()
    }
}

/// The command that the capture groups of a matched target stand for. No
/// match gives the command that does nothing: no flag and empty names.
pub open spec fn command_of(captures: Option<Seq<Option<Seq<char>>>>) -> CommandView {
    match captures {
        Some(groups) => CommandView {
            operation: operation_of(group_of(groups, 1)),
            sub_name: group_of(groups, 2),
            play_name: group_of(groups, 3),
            index: index_of(group_of(groups, 4)),
        },
        None => CommandView {
            operation: Operation::Update,
            sub_name: Seq::empty(),
            play_name: Seq::empty(),
            index: 0,
        },
    }
}

/// The command that a transition target stands for.
pub open spec fn parse(target: Seq<char>) -> CommandView {
    command_of(regex_captures(target_pattern(), target))
}

fn group_text(groups: &Vec<Option<String>>, i: usize) -> (text: String)
    ensures
        text@ == group_of(groups.deep_view(), i as int),
{
    if i < groups.len() {
        match &groups[i] {
            Some(text) => text.clone(),
            None => String::new(),
        }
    } else {
        String::new()
    }
}

/// Builds the command from the capture groups of a matched target: the flag
/// from group 1, the names from groups 2 and 3, the index from group 4.
pub fn command_from_captures(captures: Option<Vec<Option<String>>>) -> (command: Command)
    ensures
        command@ == command_of(captures.deep_view()),
{
    match captures {
        Some(groups) => {
            let flag = group_text(&groups, 1);
            let digits = group_text(&groups, 4);
            Command {
                operation: decode_flag(flag.as_str()),
                sub_name: group_text(&groups, 2),
                play_name: group_text(&groups, 3),
                index: parse_index(digits.as_str()),
            }
        },
        None => Command {
            operation: Operation::Update,
            sub_name: String::new(),
            play_name: String::new(),
            index: 0,
        },
    }
}

/// Parses a transition target. A text that the pattern does not match gives
/// the command that does nothing.
pub fn parse_target(target: &str) -> (command: Command)
    ensures
        command@ == parse(target@),
{
    command_from_captures(first_captures(r"([.><-]?)(\w*)\.?(\w*)\.?(\d*)", target))
}

} // verus!
