//! The command line of the control tool: flags, each alone or followed by a
//! decimal or hexadecimal number.

use vstd::prelude::*;
use crate::error::Error;

verus! {

/// What a flag takes behind it.
#[derive(Debug, Clone, Copy, PartialEq, Eq)]
pub enum Rule<T: Clone + Copy> {
    /// Nothing.
    Flag(T),
    /// A decimal number.
    Integer(T),
    /// A hexadecimal number.
    Hex(T),
}

/// One flag with its number, as read from the command line.
#[derive(Debug, PartialEq, Eq)]
pub enum Argument<T: std::fmt::Debug> {
    Flag { kind: T },
    Integer { kind: T, value: u32 },
    Hex { kind: T, value: u32 },
}

/// What a character counts as a digit: `0` to `9` count zero to nine, the
/// letters `a` to `z` and `A` to `Z` count ten to thirty-five.
pub open spec fn digit_value(c: char) -> Option<int> {
    let code = c as int;
    if 0x30 <= code <= 0x39 {
        Some(code - 0x30)
    } else if 0x61 <= code <= 0x7a {
        Some(code - 0x61 + 10)
    } else if 0x41 <= code <= 0x5a {
        Some(code - 0x41 + 10)
    } else {
        None
    }
}

/// Whether the character is a digit of the radix.
pub open spec fn is_digit(c: char, radix: int) -> bool {
    digit_value(c) matches Some(value) && value < radix
}

/// The number that a row of digits writes in the radix.
pub open spec fn digits_value(digits: Seq<char>, radix: int) -> int
    decreases digits.len(),
{
    if digits.len() == 0 {
        0
    } else {
        digits_value(digits.drop_last(), radix) * radix + match digit_value(digits.last()) {
            Some(value) => value,
            None => 0,
        }
    }
}

/// What `text` is as a `u32` written in the radix: an optional `+`, then at
/// least one digit and nothing but digits of the radix, and a number that
/// fits. Any other text is no number.
pub open spec fn number(text: Seq<char>, radix: int) -> Option<u32> {
    let digits = if text.len() > 0 && text[0] == '+' {
        text.skip(1)
    } else {
        text
    };
    if digits.len() > 0 && (forall|i: int| 0 <= i < digits.len() ==> is_digit(#[trigger] digits[i], radix))
        && digits_value(digits, radix) <= u32::MAX {
        Some(digits_value(digits, radix) as u32)
    } else {
        None
    }
}

/// Calls `str::parse::<u32>`, which reads a number in base ten. The contract
/// claims what std documents of it: an optional `+` and then decimal digits
/// only give the number they write; empty text, any other character and a
/// number beyond `u32` give an error, here nothing.
#[verifier::external_body]
fn parse_decimal(text: &str) -> (value: Option<u32>)
    ensures
        value == number(text@, 10),
{
    text.parse::<u32>().ok()
}

/// Calls `u32::from_str_radix` with radix 16. The contract claims what std
/// documents of it: an optional `+` and then digits `0` to `9`, `a` to `f`
/// and `A` to `F` only give the number they write; empty text, any other
/// character and a number beyond `u32` give an error, here nothing.
#[verifier::external_body]
fn parse_hex(text: &str) -> (value: Option<u32>)
    ensures
        value == number(text@, 16),
{
    u32::from_str_radix(text, 16).ok()
}

/// The outcome of reading one argument: the argument, or what went wrong.
pub enum Outcome<T> {
    Flag(T),
    Integer(T, u32),
    Hex(T, u32),
    Expected,
    ArgsEmpty,
    Unknown(Seq<char>),
    Invalid(Seq<char>),
}

/// The rule for `key`: that of the last entry with this key.
pub open spec fn rule_of<T: Clone + Copy>(rules: Seq<(Seq<char>, Rule<T>)>, key: Seq<char>) -> Option<
    Rule<T>,
>
    decreases rules.len(),
{
    if rules.len() == 0 {
        None
    } else if rules.last().0 == key {
        Some(rules.last().1)
    } else {
        rule_of(rules.drop_last(), key)
    }
}

/// The argument that a rule makes of the word `text` behind its flag, given
/// what the word is as a number of the rule's kind.
pub open spec fn numbered<T: Clone + Copy>(rule: Rule<T>, text: Seq<char>, value: Option<u32>) -> Outcome<
    T,
> {
    match rule {
        Rule::Flag(kind) => Outcome::Flag(kind),
        Rule::Integer(kind) => match value {
            Some(value) => Outcome::Integer(kind, value),
            None => Outcome::Invalid(text),
        },
        Rule::Hex(kind) => match value {
            Some(value) => Outcome::Hex(kind, value),
            None => Outcome::Invalid(text),
        },
    }
}

/// The word `text` as a number of the rule's kind.
pub open spec fn value_of<T: Clone + Copy>(rule: Rule<T>, text: Seq<char>) -> Option<u32> {
    match rule {
        Rule::Flag(_) => None,
        Rule::Integer(_) => number(text, 10),
        Rule::Hex(_) => number(text, 16),
    }
}

/// The number that a rule reads from `text`.
pub open spec fn number_of<T: Clone + Copy>(rule: Rule<T>, text: Seq<char>) -> Outcome<T> {
    numbered(rule, text, value_of(rule, text))
}

/// What reading one argument gives: the first word must be a known flag; a
/// flag that takes a number needs a second word, which must be a number of
/// its kind.
pub open spec fn outcome_of<T: Clone + Copy>(
    rules: Seq<(Seq<char>, Rule<T>)>,
    words: Seq<Seq<char>>,
) -> Outcome<T> {
    if words.len() == 0 {
        Outcome::ArgsEmpty
    } else {
        match rule_of(rules, words[0]) {
            None => Outcome::Unknown(words[0]),
            Some(Rule::Flag(kind)) => Outcome::Flag(kind),
            Some(rule) => if words.len() == 1 {
                Outcome::ArgsEmpty
            } else {
                number_of(rule, words[1])
            },
        }
    }
}

/// How many words reading one argument takes: the flag, where there is one,
/// and the number behind it, where the flag takes one and there is one.
pub open spec fn taken<T: Clone + Copy>(
    rules: Seq<(Seq<char>, Rule<T>)>,
    words: Seq<Seq<char>>,
) -> int {
    if words.len() == 0 {
        0
    } else {
        match rule_of(rules, words[0]) {
            None | Some(Rule::Flag(_)) => 1,
            Some(_) => if words.len() == 1 {
                1
            } else {
                2
            },
        }
    }
}

/// The outcome that a result stands for.
pub open spec fn outcome<T: Clone + Copy + std::fmt::Debug>(
    result: Result<Argument<T>, Error>,
) -> Outcome<T> {
    match result {
        Ok(Argument::Flag { kind }) => Outcome::Flag(kind),
        Ok(Argument::Integer { kind, value }) => Outcome::Integer(kind, value),
        Ok(Argument::Hex { kind, value }) => Outcome::Hex(kind, value),
        Err(Error::Unknown { arg }) => Outcome::Unknown(arg@),
        Err(Error::Invalid { arg }) => Outcome::Invalid(arg@),
        Err(Error::Expected) => Outcome::Expected,
        Err(Error::ArgsEmpty) => Outcome::ArgsEmpty,
    }
}

/// The argument that a rule makes of the word `text` behind its flag, given
/// what the word is as a number of the rule's kind: the number where it is
/// one, else the word is refused.
pub fn argument<T: Clone + Copy + std::fmt::Debug>(
    rule: Rule<T>,
    text: String,
    value: Option<u32>,
) -> (result: Result<Argument<T>, Error>)
    ensures
        outcome(result) == numbered(rule, text@, value),
{
    match rule {
        Rule::Flag(kind) => Ok(Argument::Flag { kind }),
        Rule::Integer(kind) => match value {
            Some(value) => Ok(Argument::Integer { kind, value }),
            None => Err(Error::Invalid { arg: text }),
        },
        Rule::Hex(kind) => match value {
            Some(value) => Ok(Argument::Hex { kind, value }),
            None => Err(Error::Invalid { arg: text }),
        },
    }
}

/// The mathematical model of the reader: its rules and the words that are
/// still to be read.
pub struct ArgsView<T: Clone + Copy> {
    pub rules: Seq<(Seq<char>, Rule<T>)>,
    pub words: Seq<Seq<char>>,
}

/// A reader of command-line words.
pub struct Args<T: Clone + Copy + std::fmt::Debug> {
    rules: Vec<(String, Rule<T>)>,
    args: Vec<String>,
    next: usize,
}

impl<T> View for Args<T> where T: Clone + Copy + std::fmt::Debug {
    type V = ArgsView<T>;

    closed spec fn view(&self) -> ArgsView<T> {
        ArgsView {
            rules: Seq::new(self.rules@.len(), |i: int| (self.rules@[i].0@, self.rules@[i].1)),
            words: Seq::new(
                (self.args@.len() - self.next) as nat,
                |i: int| self.args@[self.next + i]@,
            ),
        }
    }
}

impl<T> Args<T> where T: Clone + Copy + std::fmt::Debug {
    /// Whether the reader's own numbers fit together.
    pub closed spec fn wf(&self) -> bool {
        self.next <= self.args@.len()
    }

    /// A reader of `words` that knows no rule yet.
    pub fn new(words: Vec<String>) -> (args: Args<T>)
        ensures
            args.wf(),
            args@.rules == Seq::<(Seq<char>, Rule<T>)>::empty(),
            args@.words == Seq::new(words@.len(), |i: int| words@[i]@),
    {
        let args = Args { rules: Vec::new(), args: words, next: 0 };
        assert(args@.rules =~= Seq::<(Seq<char>, Rule<T>)>::empty());
        assert(args@.words =~= Seq::new(words@.len(), |i: int| words@[i]@));
        args
    }

    /// Makes `rule` the rule for the flag `key`.
    pub fn append(&mut self, key: &str, rule: Rule<T>)
        requires
            old(self).wf(),
        ensures
            final(self).wf(),
            final(self)@.rules == old(self)@.rules.push((key@, rule)),
            final(self)@.words == old(self)@.words,
    {
        self.rules.push((key.to_owned(), rule));
        assert(self@.rules =~= old(self)@.rules.push((key@, rule)));
        assert(self@.words =~= old(self)@.words);
    }

    /// Whether every word was read.
    pub fn is_empty(&self) -> (empty: bool)
        requires
            self.wf(),
        ensures
            empty == (self@.words.len() == 0),
    {
        self.next >= self.args.len()
    }

    /// The rule for the flag `key`.
    fn rule(&self, key: &String) -> (rule: Option<Rule<T>>)
        ensures
            rule == rule_of(self@.rules, key@),
    {
        let mut i: usize = self.rules.len();
        assert(self@.rules.subrange(0, i as int) =~= self@.rules);
        while i > 0
            invariant
                i <= self.rules@.len(),
                rule_of(self@.rules, key@) == rule_of(self@.rules.subrange(0, i as int), key@),
            decreases i,
        {
            i -= 1;
            assert(self@.rules.subrange(0, i as int + 1).drop_last() =~= self@.rules.subrange(
                0,
                i as int,
            ));
            if self.rules[i].0 == *key {
                return Some(self.rules[i].1);
            }
        }
        None
    }

    /// Reads one argument: a flag and, where its rule says so, the number
    /// behind it.
    pub fn next(&mut self) -> (result: Result<Argument<T>, Error>)
        requires
            old(self).wf(),
        ensures
            final(self).wf(),
            outcome(result) == outcome_of(old(self)@.rules, old(self)@.words),
            final(self)@.rules == old(self)@.rules,
            final(self)@.words == old(self)@.words.skip(
                taken(old(self)@.rules, old(self)@.words),
            ),
    {
        if self.next >= self.args.len() {
            assert(self@.words =~= old(self)@.words.skip(0));
            return Err(Error::ArgsEmpty);
        }
        let arg = self.args[self.next].clone();
        assert(arg@ == old(self)@.words[0]);
        self.next += 1;
        assert(self@.rules =~= old(self)@.rules);
        match self.rule(&arg) {
            None => {
                assert(self@.words =~= old(self)@.words.skip(1));
                Err(Error::Unknown { arg })
            },
            Some(Rule::Flag(kind)) => {
                assert(self@.words =~= old(self)@.words.skip(1));
                Ok(Argument::Flag { kind })
            },
            Some(rule) => {
                if self.next >= self.args.len() {
                    assert(self@.words =~= old(self)@.words.skip(1));
                    return Err(Error::ArgsEmpty);
                }
                let text = self.args[self.next].clone();
                assert(text@ == old(self)@.words[1]);
                self.next += 1;
                assert(self@.words =~= old(self)@.words.skip(2));
                let value = match rule {
                    Rule::Integer(_) => parse_decimal(text.as_str()),
                    Rule::Hex(_) => parse_hex(text.as_str()),
                    Rule::Flag(_) => None,
                };
                argument(rule, text, value)
            },
        }
    }
}

} // verus!
