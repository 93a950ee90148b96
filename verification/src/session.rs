//! A whole session, played from a list of input lines.

use vstd::prelude::*;
use vstd::slice::slice_subrange;
use crate::message::{closing, closing_lines, opening, opening_lines};
use crate::prompt::Prompter;
use crate::text::{trim, trimmed};

verus! {

/// How a session went, as the mathematics sees it.
pub struct Record {
    /// Whether the session came to its end; it does not where the lines
    /// run out before all three answers are known.
    pub finished: bool,
    /// How many lines were read.
    pub consumed: nat,
    /// The lines that were printed, in order.
    pub printed: Seq<Seq<char>>,
}

/// How a session went.
#[derive(Debug)]
pub struct Transcript {
    /// Whether the session came to its end; it does not where the lines
    /// run out before all three answers are known.
    pub finished: bool,
    /// How many lines were read.
    pub consumed: usize,
    /// The lines that were printed, in order.
    pub printed: Vec<String>,
}

impl View for Transcript {
    type V = Record;

    open spec fn view(&self) -> Record {
        Record {
            finished: self.finished,
            consumed: self.consumed as nat,
            printed: self.printed.deep_view(),
        }
    }
}

/// The session that `lines` give rise to. The first line is the name, taken
/// as it is but for the whitespace round it. The lines behind it answer the
/// question about the excitement level, and those behind the accepted
/// answer the question about the year. With both answers the session
/// closes; where a line is wanted and none is left it stops as it stands.
pub open spec fn session(lines: Seq<Seq<char>>) -> Record {
    if lines.len() == 0 {
        Record { finished: false, consumed: 0, printed: opening_lines() }
    } else {
        let name = trimmed(lines.first());
        let level = Prompter::for_excitement().asks(lines.skip(1));
        let year = Prompter::for_year().asks(lines.skip(1 + level.consumed as int));
        if level.value is None {
            Record {
                finished: false,
                consumed: 1 + level.consumed,
                printed: opening_lines() + level.printed,
            }
        } else if year.value is None {
            Record {
                finished: false,
                consumed: 1 + level.consumed + year.consumed,
                printed: opening_lines() + level.printed + year.printed,
            }
        } else {
            Record {
                finished: true,
                consumed: 1 + level.consumed + year.consumed,
                printed: opening_lines() + level.printed + year.printed + closing_lines(
                    name,
                    level.value->0 as int,
                    year.value->0 as int,
                ),
            }
        }
    }
}

/// A session that comes to its end has read the name and an accepted answer
/// to either question, and its last five lines are the closing for that
/// name, a level from 1 to 10 and a year from 1900 to 2100. The proof hands
/// back that level and that year.
pub proof fn lemma_finished_session_closes_within_bounds(lines: Seq<Seq<char>>) -> (answers: (
    int,
    int,
))
    requires
        session(lines).finished,
    ensures
        1 <= answers.0 <= 10,
        1900 <= answers.1 <= 2100,
        3 <= session(lines).consumed <= lines.len(),
        session(lines).printed.len() >= 5,
        session(lines).printed.skip(session(lines).printed.len() - 5) == closing_lines(
            trimmed(lines.first()),
            answers.0,
            answers.1,
        ),
{
    let level = Prompter::for_excitement().asks(lines.skip(1));
    let year = Prompter::for_year().asks(lines.skip(1 + level.consumed as int));
    Prompter::for_excitement().lemma_asked_within_bounds(lines.skip(1));
    Prompter::for_excitement().lemma_rejections_bound(lines.skip(1));
    Prompter::for_year().lemma_asked_within_bounds(lines.skip(1 + level.consumed as int));
    Prompter::for_year().lemma_rejections_bound(lines.skip(1 + level.consumed as int));
    (level.value->0 as int, year.value->0 as int)
}

/// A session never reads more lines than it is given, and one that does
/// not come to its end has read them all.
pub proof fn lemma_session_reads_what_is_given(lines: Seq<Seq<char>>)
    ensures
        session(lines).consumed <= lines.len(),
        !session(lines).finished ==> session(lines).consumed == lines.len(),
{
    if lines.len() > 0 {
        let level = Prompter::for_excitement().asks(lines.skip(1));
        Prompter::for_excitement().lemma_rejections_bound(lines.skip(1));
        if level.value is Some {
            Prompter::for_year().lemma_rejections_bound(lines.skip(1 + level.consumed as int));
        }
    }
}

/// Plays a session with `lines` as the input, one line for each read, and
/// tells what was printed, how many lines were read and whether the session
/// came to its end.
pub fn run(lines: &[String]) -> (transcript: Transcript)
    ensures
        transcript@ == session(lines.deep_view()),
        transcript.consumed <= lines.len(),
        !transcript.finished ==> transcript.consumed == lines.len(),
{
    let ghost given = lines.deep_view();
    let n: usize = lines.len();
    let mut printed = opening();
    if n == 0 {
        return Transcript { finished: false, consumed: 0, printed };
    }
    let name = trim(lines[0].as_str());

    let after_name = slice_subrange(lines, 1, n);
    assert(after_name.deep_view() =~= given.skip(1));
    let mut level = Prompter::excitement().ask(after_name);
    let ghost level_printed = level.printed.deep_view();
    printed.append(&mut level.printed);
    assert(printed.deep_view() =~= opening_lines() + level_printed);
    let read: usize = 1 + level.consumed;
    let excitement: i32 = match level.value {
        Some(v) => v,
        None => {
            return Transcript { finished: false, consumed: read, printed };
        },
    };

    let after_level = slice_subrange(lines, read, n);
    assert(after_level.deep_view() =~= given.skip(read as int));
    let mut year = Prompter::year().ask(after_level);
    let ghost year_printed = year.printed.deep_view();
    printed.append(&mut year.printed);
    assert(printed.deep_view() =~= opening_lines() + level_printed + year_printed);
    let read: usize = read + year.consumed;
    let year: i32 = match year.value {
        Some(v) => v,
        None => {
            return Transcript { finished: false, consumed: read, printed };
        },
    };

    let mut last = closing(name, excitement, year);
    let ghost last_printed = last.deep_view();
    printed.append(&mut last);
    assert(printed.deep_view() =~= opening_lines() + level_printed + year_printed + last_printed);
    Transcript { finished: true, consumed: read, printed }
}

} // verus!
