//! The session as a machine that is fed one line at a time, for a caller
//! that reads its input as it goes.

use vstd::prelude::*;
use vstd::string::StringExecFns;
use crate::message::{closing, closing_lines, opening_lines};
use crate::prompt::{
    Prompter, EXCITEMENT_ERROR, EXCITEMENT_PROMPT, YEAR_ERROR, YEAR_PROMPT,
};
use crate::session::{session, Record};
use crate::text::{trim, trimmed};

verus! {

/// Where a session stands, as the mathematics sees it.
pub enum Phase {
    /// The name has been asked for.
    Name,
    /// The excitement level has been asked for.
    Excitement { name: Seq<char> },
    /// The year has been asked for.
    Year { name: Seq<char>, excitement: i32 },
    /// Everything has been said.
    Done,
}

/// Where a session stands: which answer it waits for, and the answers that
/// it has accepted so far.
#[derive(Debug)]
pub enum Stage {
    /// The name has been asked for.
    Name,
    /// The excitement level has been asked for.
    Excitement { name: String },
    /// The year has been asked for.
    Year { name: String, excitement: i32 },
    /// Everything has been said.
    Done,
}

impl View for Stage {
    type V = Phase;

    open spec fn view(&self) -> Phase {
        match self {
            Stage::Name => Phase::Name,
            Stage::Excitement { name } => Phase::Excitement { name: name@ },
            Stage::Year { name, excitement } => Phase::Year {
                name: name@,
                excitement: *excitement,
            },
            Stage::Done => Phase::Done,
        }
    }
}

impl Phase {
    /// Whether the answers held so far are within their bounds.
    pub open spec fn wf(self) -> bool {
        self matches Phase::Year { excitement, .. } ==> 1 <= excitement <= 10
    }

    /// Where the session stands once `line` has been read.
    pub open spec fn after(self, line: Seq<char>) -> Phase {
        match self {
            Phase::Name => Phase::Excitement { name: trimmed(line) },
            Phase::Excitement { name } => match Prompter::for_excitement().accepts(line) {
                Some(excitement) => Phase::Year { name, excitement },
                None => self,
            },
            Phase::Year { name, excitement } => match Prompter::for_year().accepts(line) {
                Some(_) => Phase::Done,
                None => self,
            },
            Phase::Done => Phase::Done,
        }
    }

    /// What is printed in answer to `line`.
    pub open spec fn says(self, line: Seq<char>) -> Seq<Seq<char>> {
        match self {
            Phase::Name => seq![EXCITEMENT_PROMPT@],
            Phase::Excitement { name } => match Prompter::for_excitement().accepts(line) {
                Some(_) => seq![YEAR_PROMPT@],
                None => seq![EXCITEMENT_ERROR@, EXCITEMENT_PROMPT@],
            },
            Phase::Year { name, excitement } => match Prompter::for_year().accepts(line) {
                Some(year) => closing_lines(name, excitement as int, year as int),
                None => seq![YEAR_ERROR@, YEAR_PROMPT@],
            },
            Phase::Done => Seq::empty(),
        }
    }

    /// What feeding `lines` one by one brings about, from here on: a line
    /// is read for as long as the session is not done and there is one.
    pub open spec fn replies(self, lines: Seq<Seq<char>>) -> Record
        decreases lines.len(),
    {
        if self is Done {
            Record { finished: true, consumed: 0, printed: Seq::empty() }
        } else if lines.len() == 0 {
            Record { finished: false, consumed: 0, printed: Seq::empty() }
        } else {
            let rest = self.after(lines.first()).replies(lines.drop_first());
            Record {
                finished: rest.finished,
                consumed: rest.consumed + 1,
                printed: self.says(lines.first()) + rest.printed,
            }
        }
    }
}

impl Stage {
    /// The stage in which every session begins, once the opening lines are
    /// printed.
    pub fn start() -> (stage: Stage)
        ensures
            stage@ == Phase::Name,
    {
        Stage::Name
    }

    /// Tells whether everything has been said, so that no line is read any
    /// more.
    pub fn is_done(&self) -> (done: bool)
        ensures
            done == (self@ is Done),
    {
        match self {
            Stage::Done => true,
            _ => false,
        }
    }

    /// Takes one line of input, which may still carry its line break, and
    /// gives the stage that follows with the lines to print.
    ///
    /// A name is taken as it is, but for the whitespace round it. A numeric
    /// answer that is accepted moves the session on; one that is not leaves
    /// the stage as it was, and the error and the question are printed
    /// again. A session that is done stays done and says nothing.
    pub fn step(self, line: &str) -> (next: (Stage, Vec<String>))
        ensures
            next.0@ == self@.after(line@),
            next.1.deep_view() == self@.says(line@),
            self@.wf() ==> next.0@.wf(),
    {
        let mut printed: Vec<String> = Vec::new();
        match self {
            Stage::Name => {
                let name = String::from_str(trim(line));
                printed.push(String::from_str(EXCITEMENT_PROMPT));
                (Stage::Excitement { name }, printed)
            },
            Stage::Excitement { name } => match Prompter::excitement().accept(line) {
                Some(excitement) => {
                    printed.push(String::from_str(YEAR_PROMPT));
                    (Stage::Year { name, excitement }, printed)
                },
                None => {
                    printed.push(String::from_str(EXCITEMENT_ERROR));
                    printed.push(String::from_str(EXCITEMENT_PROMPT));
                    (Stage::Excitement { name }, printed)
                },
            },
            Stage::Year { name, excitement } => match Prompter::year().accept(line) {
                Some(year) => (Stage::Done, closing(name.as_str(), excitement, year)),
                None => {
                    printed.push(String::from_str(YEAR_ERROR));
                    printed.push(String::from_str(YEAR_PROMPT));
                    (Stage::Year { name, excitement }, printed)
                },
            },
            Stage::Done => (Stage::Done, printed),
        }
    }
}

/// While the excitement level is asked for, the machine prints what the
/// prompter prints, but for the prompt that the stage began with, and goes
/// on to the year with the answer that the prompter accepts.
proof fn lemma_excitement_replies(name: Seq<char>, lines: Seq<Seq<char>>)
    ensures
        ({
            let here = Phase::Excitement { name }.replies(lines);
            let asked = Prompter::for_excitement().asks(lines);
            match asked.value {
                None => {
                    &&& !here.finished
                    &&& here.consumed == asked.consumed
                    &&& seq![EXCITEMENT_PROMPT@] + here.printed == asked.printed
                },
                Some(excitement) => {
                    let rest = Phase::Year { name, excitement }.replies(
                        lines.skip(asked.consumed as int),
                    );
                    &&& here.finished == rest.finished
                    &&& here.consumed == asked.consumed + rest.consumed
                    &&& seq![EXCITEMENT_PROMPT@] + here.printed == asked.printed + seq![
                        YEAR_PROMPT@,
                    ] + rest.printed
                },
            }
        }),
    decreases lines.len(),
{
    let p = Prompter::for_excitement();
    let stage = Phase::Excitement { name };
    if lines.len() == 0 {
        p.lemma_no_line_no_answer();
    } else if p.accepts(lines.first()) is Some {
        p.lemma_accepted_line_ends_asking(lines);
    } else {
        p.lemma_rejected_line_asks_again(lines);
        let tail = lines.drop_first();
        lemma_excitement_replies(name, tail);
        if p.asks(tail).value is Some {
            // The answer is found one line further on than in the tail.
            assert(tail.skip(p.asks(tail).consumed as int) =~= lines.skip(
                p.asks(lines).consumed as int,
            ));
            assert(seq![EXCITEMENT_PROMPT@] + stage.replies(lines).printed =~= seq![
                EXCITEMENT_PROMPT@,
                EXCITEMENT_ERROR@,
            ] + (seq![EXCITEMENT_PROMPT@] + stage.replies(tail).printed));
        }
    }
}

/// While the year is asked for, the machine prints what the prompter
/// prints, but for the prompt that the stage began with, and closes with
/// the answer that the prompter accepts.
proof fn lemma_year_replies(name: Seq<char>, excitement: i32, lines: Seq<Seq<char>>)
    ensures
        ({
            let here = Phase::Year { name, excitement }.replies(lines);
            let asked = Prompter::for_year().asks(lines);
            match asked.value {
                None => {
                    &&& !here.finished
                    &&& here.consumed == asked.consumed
                    &&& seq![YEAR_PROMPT@] + here.printed == asked.printed
                },
                Some(year) => {
                    &&& here.finished
                    &&& here.consumed == asked.consumed
                    &&& seq![YEAR_PROMPT@] + here.printed == asked.printed + closing_lines(
                        name,
                        excitement as int,
                        year as int,
                    )
                },
            }
        }),
    decreases lines.len(),
{
    let p = Prompter::for_year();
    let stage = Phase::Year { name, excitement };
    if lines.len() == 0 {
        p.lemma_no_line_no_answer();
    } else if p.accepts(lines.first()) is Some {
        p.lemma_accepted_line_ends_asking(lines);
        assert(Phase::Done.replies(lines.drop_first()).printed =~= Seq::empty());
    } else {
        p.lemma_rejected_line_asks_again(lines);
        let tail = lines.drop_first();
        lemma_year_replies(name, excitement, tail);
        assert(seq![YEAR_PROMPT@] + stage.replies(lines).printed =~= seq![
            YEAR_PROMPT@,
            YEAR_ERROR@,
        ] + (seq![YEAR_PROMPT@] + stage.replies(tail).printed));
    }
}

/// Fed line by line, the machine plays the very session that the lines
/// give rise to when they are taken as a whole: after the opening lines it
/// prints the same lines in the same order, reads as many lines, and is
/// done exactly where that session comes to its end.
pub proof fn lemma_machine_plays_session(lines: Seq<Seq<char>>)
    ensures
        Phase::Name.replies(lines).finished == session(lines).finished,
        Phase::Name.replies(lines).consumed == session(lines).consumed,
        opening_lines() + Phase::Name.replies(lines).printed == session(lines).printed,
{
    if lines.len() > 0 {
        let name = trimmed(lines.first());
        let tail = lines.drop_first();
        let level = Prompter::for_excitement().asks(tail);
        lemma_excitement_replies(name, tail);
        if let Some(excitement) = level.value {
            let behind = tail.skip(level.consumed as int);
            assert(behind =~= lines.skip(1 + level.consumed as int));
            let rest = Phase::Year { name, excitement }.replies(behind);
            lemma_year_replies(name, excitement, behind);
            assert(opening_lines() + (level.printed + seq![YEAR_PROMPT@] + rest.printed)
                =~= opening_lines() + level.printed + (seq![YEAR_PROMPT@] + rest.printed));
        }
    }
}

} // verus!
