//! The lines that the greeting prints besides the questions.

use vstd::prelude::*;
use vstd::string::StringExecFns;
use crate::decimal::{numeral, render_i32};
use crate::tier::Tier;

verus! {

/// The first line of every session.
pub const WELCOME: &'static str = "Hello, Welcome To My Rust Tutorial!";

/// The question about the name.
pub const NAME_PROMPT: &'static str = "What's your name?";

/// The last line of a finished session.
pub const MOTTO: &'static str = "Rust is memory-safe, fast, and fun to learn!";

/// The line that tells the year.
pub open spec fn learning_text(year: int) -> Seq<char> {
    "I'm learning Rust in "@ + numeral(year) + "!"@
}

/// The line that tells the excitement level.
pub open spec fn level_text(level: int) -> Seq<char> {
    "My excitement level is: "@ + numeral(level) + "/10"@
}

/// The line that welcomes the user by name.
pub open spec fn welcome_text(name: Seq<char>) -> Seq<char> {
    "Welcome to Rust, "@ + name + "! 🦀"@
}

/// What is printed before anything is read: the welcome and the question
/// about the name.
pub open spec fn opening_lines() -> Seq<Seq<char>> {
    seq![WELCOME@, NAME_PROMPT@]
}

/// The two lines that greet the user.
pub open spec fn greeting_lines(name: Seq<char>) -> Seq<Seq<char>> {
    seq![welcome_text(name), MOTTO@]
}

/// What is printed once all three answers are known: the year, the
/// excitement level, the message for the tier of that level, and the
/// greeting.
pub open spec fn closing_lines(name: Seq<char>, level: int, year: int) -> Seq<Seq<char>> {
    seq![learning_text(year), level_text(level), Tier::of_level(level).text()] + greeting_lines(
        name,
    )
}

/// The line that tells the year.
pub fn learning_line(year: i32) -> (line: String)
    ensures
        line@ == learning_text(year as int),
{
    let number = render_i32(year);
    let mut line = String::from_str("I'm learning Rust in ");
    line.append(number.as_str());
    line.append("!");
    line
}

/// The line that tells the excitement level.
pub fn level_line(level: i32) -> (line: String)
    ensures
        line@ == level_text(level as int),
{
    let number = render_i32(level);
    let mut line = String::from_str("My excitement level is: ");
    line.append(number.as_str());
    line.append("/10");
    line
}

/// What is printed before anything is read.
pub fn opening() -> (lines: Vec<String>)
    ensures
        lines.deep_view() == opening_lines(),
{
    let mut lines: Vec<String> = Vec::new();
    lines.push(String::from_str(WELCOME));
    lines.push(String::from_str(NAME_PROMPT));
    lines
}

/// The two lines that greet the user: the welcome by name, whatever the
/// name is, and the motto.
pub fn greet_user(name: &str) -> (lines: Vec<String>)
    ensures
        lines.deep_view() == greeting_lines(name@),
{
    let mut welcome = String::from_str("Welcome to Rust, ");
    welcome.append(name);
    welcome.append("! 🦀");
    let mut lines: Vec<String> = Vec::new();
    lines.push(welcome);
    lines.push(String::from_str(MOTTO));
    lines
}

/// What is printed once all three answers are known.
pub fn closing(name: &str, level: i32, year: i32) -> (lines: Vec<String>)
    ensures
        lines.deep_view() == closing_lines(name@, level as int, year as int),
{
    let mut lines: Vec<String> = Vec::new();
    lines.push(learning_line(year));
    lines.push(level_line(level));
    lines.push(String::from_str(Tier::select(level).message()));
    let mut greeting = greet_user(name);
    lines.append(&mut greeting);
    lines
}

} // verus!
