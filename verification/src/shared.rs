//! What several commands of the tool share: what is done about a directory in the way,
//! and what is said of a command that the tool runs.

use crate::failure::error_of;
use crate::failure::error_text;
use crate::text::pieces;
use crate::text::push_char;
use crate::text::split_line;
use crate::text::texts;
use vstd::prelude::*;

verus! {


/// What is done about a directory that may stand where the tool is about to write.
#[derive(Debug, Clone, Copy, PartialEq, Eq, Structural)]
pub enum Clearance {
    /// Nothing has to go: the tool goes on.
    Proceed,
    /// The directory that stands there is removed first.
    RemoveFirst,
    /// The directory that stands there stays, and the tool stops.
    Refuse,
}

/// The line that shows `text` as output of the command that goes by `prefix`.
pub open spec fn tagged(prefix: Seq<char>, text: Seq<char>) -> Seq<char> {
    seq!['['] + prefix + seq![']', ' '] + text
}

pub fn tag_line(prefix: &str, text: &str) -> (line: String)
    ensures
        line@ == tagged(prefix@, text@),
{
    let mut line = String::new();
    push_char(&mut line, '[');
    line.append(prefix);
    push_char(&mut line, ']');
    push_char(&mut line, ' ');
    line.append(text);
    proof {
        assert(line@ =~= tagged(prefix@, text@));
    }
    line
}

/// The lines to show for one line of a command's output: the line is cut at each carriage
/// return, since progress reports overwrite themselves that way, and each piece is tagged.
pub fn console_lines(prefix: &str, line: &str) -> (lines: Vec<String>)
    ensures
        lines@.len() == pieces(line@, '\r').len(),
        forall|i: int|
            0 <= i < lines@.len() ==> (#[trigger] lines@[i])@ == tagged(prefix@, pieces(line@, '\r')[i]),
{
    let parts = split_line(line, '\r');
    let mut lines: Vec<String> = Vec::new();
    let mut i: usize = 0;
    while i < parts.len()
        invariant
            i <= parts@.len(),
            texts(parts@) == pieces(line@, '\r'),
            lines@.len() == i,
            forall|k: int| 0 <= k < i ==> (#[trigger] lines@[k])@ == tagged(prefix@, parts@[k]@),
        decreases parts@.len() - i,
    {
        lines.push(tag_line(prefix, parts[i].as_str()));
        i += 1;
    }
    proof {
        assert forall|k: int| 0 <= k < lines@.len() implies (#[trigger] lines@[k])@ == tagged(
            prefix@,
            pieces(line@, '\r')[k],
        ) by {
            assert(texts(parts@)[k] == parts@[k]@);
        }
    }
    lines
}

/// The text of the error that stands for a command that did not succeed.
pub open spec fn command_failed() -> Seq<char> {
    "command failed"@
}

/// The result of a command that has ended: an error where it did not succeed.
pub fn command_result(success: bool) -> (result: Result<(), anyhow::Error>)
    ensures
        success <==> result is Ok,
        result matches Err(error) ==> error_text(error) == command_failed(),
{
    if success {
        Ok(())
    } else {
        Err(error_of("command failed".to_owned()))
    }
}

} // verus!
