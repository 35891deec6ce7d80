//! What a line means that is typed to a session.

use crate::text;
use vstd::prelude::*;

verus! {

/// What a line means.
#[derive(Debug)]
pub enum ReplLine {
    /// Leave.
    Exit,
    /// Show the commands.
    Help,
    /// Nothing.
    Empty,
    /// Say this.
    Prompt(String),
}

/// Whether a line is a command, in whatever case.
pub open spec fn is_command(line: Seq<char>, command: Seq<char>) -> bool {
    text::lowered(line) == text::lowered(command)
}

fn is(line: &str, command: &str) -> (r: bool)
    ensures
        r == is_command(line@, command@),
{
    text::same(
        text::to_ascii_lowercase(line).as_str(),
        text::to_ascii_lowercase(command).as_str(),
    )
}

/// What a line means.
pub fn read_line(line: &str) -> (r: ReplLine)
    ensures
        ({
            let l = text::trimmed(line@);
            if is_command(l, "/exit"@) || is_command(l, "exit"@) || is_command(l, "quit"@) {
                r matches ReplLine::Exit
            } else if is_command(l, "/help"@) || is_command(l, "help"@) {
                r matches ReplLine::Help
            } else if l.len() == 0 {
                r matches ReplLine::Empty
            } else {
                r matches ReplLine::Prompt(p) && p@ == l
            }
        }),
{
    let l = text::trim(line);
    if is(l.as_str(), "/exit") || is(l.as_str(), "exit") || is(l.as_str(), "quit") {
        ReplLine::Exit
    } else if is(l.as_str(), "/help") || is(l.as_str(), "help") {
        ReplLine::Help
    } else if l.as_str().is_empty() {
        ReplLine::Empty
    } else {
        ReplLine::Prompt(l)
    }
}

/// What is said is passed on without the white space around it, unless it is nothing or a command;
/// commands are read alike in upper and lower case.
pub proof fn lemma_read_line(line: &str, r: ReplLine)
    requires
        call_ensures(read_line, (line,), r),
    ensures
        r matches ReplLine::Prompt(p) ==> p@ == text::trimmed(line@) && p@.len() > 0,
        text::lowered(text::trimmed(line@)) == text::lowered("/exit"@) || text::lowered(
            text::trimmed(line@),
        ) == text::lowered("exit"@) || text::lowered(text::trimmed(line@)) == text::lowered("quit"@)
            <==> r is Exit,
        r is Help ==> text::lowered(text::trimmed(line@)) == text::lowered("/help"@)
            || text::lowered(text::trimmed(line@)) == text::lowered("help"@),
        r is Empty ==> text::trimmed(line@).len() == 0,
{
}

}
