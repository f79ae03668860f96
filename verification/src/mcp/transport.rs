//! The channel to the tool provider, as far as it is rules and not I/O: the
//! command that starts the provider, and the framing of messages as lines.

use vstd::prelude::*;
use super::error::ClientError;
use crate::text::{contains_char, trim, trimmed};

verus! {

/// The program that implements the tool provider.
pub const SERVER_PROGRAM: &'static str = "npx";

/// The one argument the program is started with.
pub const SERVER_PACKAGE: &'static str = "@modelcontextprotocol/server-github";

/// The command that starts the tool provider: the program and its fixed
/// arguments.
pub fn server_command() -> (command: (String, Vec<String>))
    ensures
        command.0@ == "npx"@,
        command.1.deep_view() == seq!["@modelcontextprotocol/server-github"@],
{
    let mut arguments: Vec<String> = Vec::new();
    arguments.push(String::from_str(SERVER_PACKAGE));
    assert(arguments.deep_view() =~= seq!["@modelcontextprotocol/server-github"@]);
    (String::from_str(SERVER_PROGRAM), arguments)
}

/// The line that carries the encoded message `encoded`: the message followed
/// by a line feed.
pub open spec fn framed(encoded: Seq<char>) -> Seq<char> {
    encoded.push('\n')
}

/// Frames an encoded message as one line. A message that holds a line feed
/// cannot be framed: that is an error, never a silent loss.
pub fn frame(encoded: &str) -> (outcome: Result<String, ClientError>)
    ensures
        encoded@.contains('\n') ==> outcome == Err::<String, ClientError>(
            ClientError::EmbeddedNewline,
        ),
        !encoded@.contains('\n') ==> (outcome matches Ok(line) && line@ == framed(encoded@)),
{
    if contains_char(encoded, '\n') {
        return Err(ClientError::EmbeddedNewline);
    }
    let mut line = String::from_str(encoded);
    proof {
        reveal_strlit("\n");
        assert("\n"@ =~= seq!['\n']);
    }
    line.append("\n");
    assert(line@ =~= framed(encoded@));
    Ok(line)
}

/// The encoded message that a line from the tool provider carries: the line
/// without the white space around it, line ending included.
pub fn unframe(line: &str) -> (encoded: &str)
    ensures
        encoded@ == trimmed(line@),
{
    trim(line)
}

} // verus!
