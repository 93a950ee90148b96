//! The bounded integer prompter: a question whose answer is an integer
//! between two bounds, asked again for as long as the answer given is not
//! one.

use vstd::prelude::*;
use crate::decimal::{parse_i32, parsed_i32};
use crate::text::{trim, trimmed};

verus! {

/// The question about the excitement level.
pub const EXCITEMENT_PROMPT: &'static str =
    "On a scale of 1-10, how excited are you to learn Rust?";

/// What is said to an excitement level that is not accepted.
pub const EXCITEMENT_ERROR: &'static str = "❌ Please enter a valid number between 1 and 10.";

/// The question about the year.
pub const YEAR_PROMPT: &'static str = "Which year is it?";

/// What is said to a year that is not accepted.
pub const YEAR_ERROR: &'static str = "❌ Please enter a valid year (e.g., 2024).";

/// A question with an integer answer between `lower` and `upper`, both
/// included. Where `lower` is above `upper` no answer is accepted.
#[derive(Clone, Copy, Debug)]
pub struct Prompter<'a> {
    /// The line that asks the question.
    pub prompt: &'a str,
    /// The line that is printed when an answer is not accepted.
    pub error: &'a str,
    /// The least answer that is accepted.
    pub lower: i32,
    /// The greatest answer that is accepted.
    pub upper: i32,
}

/// How asking a question went, as the mathematics sees it.
pub struct Outcome {
    /// The accepted answer; nothing where the lines ran out before one was
    /// accepted.
    pub value: Option<i32>,
    /// How many lines were read.
    pub consumed: nat,
    /// The lines that were printed, in order.
    pub printed: Seq<Seq<char>>,
}

/// How asking a question went.
#[derive(Debug)]
pub struct Asked {
    /// The accepted answer; nothing where the lines ran out before one was
    /// accepted.
    pub value: Option<i32>,
    /// How many lines were read.
    pub consumed: usize,
    /// The lines that were printed, in order.
    pub printed: Vec<String>,
}

impl View for Asked {
    type V = Outcome;

    open spec fn view(&self) -> Outcome {
        Outcome {
            value: self.value,
            consumed: self.consumed as nat,
            printed: self.printed.deep_view(),
        }
    }
}

impl<'a> Prompter<'a> {
    /// The prompter for the excitement level: an integer from 1 to 10.
    pub open spec fn for_excitement() -> Prompter<'static> {
        Prompter { prompt: EXCITEMENT_PROMPT, error: EXCITEMENT_ERROR, lower: 1, upper: 10 }
    }

    /// The prompter for the year: an integer from 1900 to 2100.
    pub open spec fn for_year() -> Prompter<'static> {
        Prompter { prompt: YEAR_PROMPT, error: YEAR_ERROR, lower: 1900, upper: 2100 }
    }

    /// The answer that a line is accepted with: the integer that the line
    /// holds once the whitespace round it is removed, provided that it lies
    /// within the bounds. Nothing where the line is not accepted.
    pub open spec fn accepts(self, line: Seq<char>) -> Option<i32> {
        match parsed_i32(trimmed(line)) {
            Some(v) => if self.lower <= v <= self.upper {
                Some(v)
            } else {
                None
            },
            None => None,
        }
    }

    /// How many lines at the beginning of `lines` are not accepted.
    pub open spec fn rejections(self, lines: Seq<Seq<char>>) -> nat
        decreases lines.len(),
    {
        if lines.len() > 0 && self.accepts(lines.first()) is None {
            1 + self.rejections(lines.drop_first())
        } else {
            0
        }
    }

    /// What is printed while a question is asked and `rejections` answers
    /// are turned down: the prompt, and after each of those answers the
    /// error and the prompt again.
    pub open spec fn exchange(self, rejections: nat) -> Seq<Seq<char>> {
        Seq::new(
            2 * rejections + 1,
            |i: int|
                if i % 2 == 0 {
                    self.prompt@
                } else {
                    self.error@
                },
        )
    }

    /// How asking the question goes when the answers come from `lines`, one
    /// line for each: the lines are read up to the first that is accepted,
    /// or all of them where none is.
    pub open spec fn asks(self, lines: Seq<Seq<char>>) -> Outcome {
        let k = self.rejections(lines);
        Outcome {
            value: if k < lines.len() {
                self.accepts(lines[k as int])
            } else {
                None
            },
            consumed: if k < lines.len() {
                k + 1
            } else {
                k
            },
            printed: self.exchange(k),
        }
    }

    /// The prompter for the excitement level.
    pub fn excitement() -> (p: Prompter<'static>)
        ensures
            p == Prompter::for_excitement(),
    {
        Prompter { prompt: EXCITEMENT_PROMPT, error: EXCITEMENT_ERROR, lower: 1, upper: 10 }
    }

    /// The prompter for the year.
    pub fn year() -> (p: Prompter<'static>)
        ensures
            p == Prompter::for_year(),
    {
        Prompter { prompt: YEAR_PROMPT, error: YEAR_ERROR, lower: 1900, upper: 2100 }
    }

    /// Decides on one line of input: the answer where the line is accepted,
    /// nothing where the question has to be asked again. The line may still
    /// carry its line break.
    pub fn accept(&self, line: &str) -> (answer: Option<i32>)
        ensures
            answer == self.accepts(line@),
            answer matches Some(v) ==> self.lower <= v <= self.upper,
    {
        match parse_i32(trim(line)) {
            Some(v) => if self.lower <= v && v <= self.upper {
                Some(v)
            } else {
                None
            },
            None => None,
        }
    }

    /// Asks the question with the answers taken from `lines`, one line for
    /// each, until one is accepted or the lines run out.
    pub fn ask(&self, lines: &[String]) -> (asked: Asked)
        ensures
            asked@ == self.asks(lines.deep_view()),
            asked.value matches Some(v) ==> self.lower <= v <= self.upper,
            asked.value is None ==> asked.consumed == lines.len(),
            asked.consumed <= lines.len(),
    {
        let ghost given = lines.deep_view();
        let mut printed: Vec<String> = Vec::new();
        printed.push(self.prompt.to_owned());
        let n: usize = lines.len();
        let mut i: usize = 0;
        while i < n
            invariant
                given == lines.deep_view(),
                n == lines.len(),
                i <= n,
                forall|j: int| 0 <= j < i ==> self.accepts(#[trigger] given[j]) is None,
                printed.deep_view() == self.exchange(i as nat),
            decreases n - i,
        {
            let answer = self.accept(lines[i].as_str());
            if answer.is_some() {
                proof {
                    self.lemma_rejections_found(given, i as int);
                }
                return Asked { value: answer, consumed: i + 1, printed };
            }
            let ghost before = printed.deep_view();
            printed.push(self.error.to_owned());
            printed.push(self.prompt.to_owned());
            assert(printed.deep_view() =~= before.push(self.error@).push(self.prompt@));
            i += 1;
        }
        proof {
            self.lemma_rejections_found(given, n as int);
        }
        Asked { value: None, consumed: n, printed }
    }

    /// The number of rejections is the position of the first line that is
    /// accepted, or the number of lines where none is.
    pub proof fn lemma_rejections_found(self, lines: Seq<Seq<char>>, k: int)
        requires
            0 <= k <= lines.len(),
            forall|j: int| 0 <= j < k ==> self.accepts(#[trigger] lines[j]) is None,
            k < lines.len() ==> self.accepts(lines[k]) is Some,
        ensures
            self.rejections(lines) == k,
        decreases k,
    {
        if k > 0 {
            self.lemma_rejections_found(lines.drop_first(), k - 1);
        }
    }

    /// Every line before the one that `rejections` counts up to is turned
    /// down, and that one, where there is one, is accepted.
    pub proof fn lemma_rejections_bound(self, lines: Seq<Seq<char>>)
        ensures
            self.rejections(lines) <= lines.len(),
            forall|j: int|
                0 <= j < self.rejections(lines) ==> self.accepts(#[trigger] lines[j]) is None,
            self.rejections(lines) < lines.len() ==> self.accepts(
                lines[self.rejections(lines) as int],
            ) is Some,
        decreases lines.len(),
    {
        if lines.len() > 0 && self.accepts(lines.first()) is None {
            let rest = lines.drop_first();
            self.lemma_rejections_bound(rest);
            let k = self.rejections(rest);
            assert forall|j: int| 0 <= j < k + 1 implies self.accepts(#[trigger] lines[j])
                is None by {
                if j > 0 {
                    assert(lines[j] == rest[j - 1]);
                }
            }
        }
    }

    /// An accepted answer lies within the bounds, and it is the integer
    /// that the trimmed line denotes.
    pub proof fn lemma_accepted_within_bounds(self, line: Seq<char>)
        requires
            self.accepts(line) is Some,
        ensures
            self.lower <= self.accepts(line)->0 <= self.upper,
            parsed_i32(trimmed(line)) == self.accepts(line),
    {
    }

    /// The excitement level is accepted from exactly those lines that hold,
    /// between whitespace, an integer from 1 to 10, and the accepted answer is
    /// that integer.
    pub proof fn lemma_excitement_accepts(line: Seq<char>)
        ensures
            Prompter::for_excitement().accepts(line) is Some <==> (parsed_i32(trimmed(line))
                matches Some(v) && 1 <= v <= 10),
            Prompter::for_excitement().accepts(line) is Some ==> Prompter::for_excitement().accepts(
                line,
            ) == parsed_i32(trimmed(line)),
    {
    }

    /// The year is accepted from exactly those lines that hold, between
    /// whitespace, an integer from 1900 to 2100, and the accepted answer is
    /// that integer.
    pub proof fn lemma_year_accepts(line: Seq<char>)
        ensures
            Prompter::for_year().accepts(line) is Some <==> (parsed_i32(trimmed(line)) matches Some(
                v,
            ) && 1900 <= v <= 2100),
            Prompter::for_year().accepts(line) is Some ==> Prompter::for_year().accepts(line)
                == parsed_i32(trimmed(line)),
    {
    }

    /// Whatever the lines are, an answer that comes out of asking lies
    /// within the bounds.
    pub proof fn lemma_asked_within_bounds(self, lines: Seq<Seq<char>>)
        requires
            self.asks(lines).value is Some,
        ensures
            self.lower <= self.asks(lines).value->0 <= self.upper,
    {
        self.lemma_rejections_bound(lines);
    }

    /// Where the first line is accepted, asking ends there: the answer is
    /// what that line holds, one line has been read, and only the prompt
    /// has been printed.
    pub proof fn lemma_accepted_line_ends_asking(self, lines: Seq<Seq<char>>)
        requires
            lines.len() > 0,
            self.accepts(lines.first()) is Some,
        ensures
            self.asks(lines) == (Outcome {
                value: self.accepts(lines.first()),
                consumed: 1,
                printed: seq![self.prompt@],
            }),
    {
        assert(self.exchange(0) =~= seq![self.prompt@]);
    }

    /// Where the first line is not accepted, asking does not end there: the
    /// error is printed and the question is asked again of the lines that
    /// follow, so that one more line is read than they alone would take.
    pub proof fn lemma_rejected_line_asks_again(self, lines: Seq<Seq<char>>)
        requires
            lines.len() > 0,
            self.accepts(lines.first()) is None,
        ensures
            self.asks(lines) == (Outcome {
                value: self.asks(lines.drop_first()).value,
                consumed: self.asks(lines.drop_first()).consumed + 1,
                printed: seq![self.prompt@, self.error@] + self.asks(lines.drop_first()).printed,
            }),
    {
        let rest = lines.drop_first();
        let k = self.rejections(rest);
        self.lemma_rejections_bound(rest);
        assert(self.exchange(k + 1) =~= seq![self.prompt@, self.error@] + self.exchange(k));
    }

    /// Where the lines run out at once, the prompt has been printed and
    /// nothing else has happened.
    pub proof fn lemma_no_line_no_answer(self)
        ensures
            self.asks(Seq::empty()) == (Outcome {
                value: None,
                consumed: 0,
                printed: seq![self.prompt@],
            }),
    {
        assert(self.exchange(0) =~= seq![self.prompt@]);
    }
}

} // verus!
