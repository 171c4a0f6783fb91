//! `receive`: prints a transfer ticket word for word.

use vstd::prelude::*;
use vstd::string::*;

use crate::cli;
use crate::cli::Output;
use crate::cli::OutputModel;
use crate::text;

verus! {

/// What came of looking for a ticket.
#[derive(Debug, PartialEq, Eq)]
pub enum Found {
    /// There is none in this directory.
    Nowhere { directory: String },
    /// The file at `path` was read, or was not.
    At { path: String, content: Result<String, String> },
}

/// How `receive` ends.
pub open spec fn received(ticket: Seq<char>, found: Found) -> OutputModel {
    match found {
        Found::Nowhere { directory } => cli::failed(
            "Ticket not found: "@ + ticket + " (looked in "@ + directory@ + ")\n"@,
            1,
        ),
        Found::At { content: Ok(content), .. } => cli::printed(content@),
        Found::At { path, content: Err(e) } => cli::failed(
            "Ticket not readable: "@ + path@ + " ("@ + e@ + ")\n"@,
            1,
        ),
    }
}

/// Prints the ticket as it stands, with nothing added, or says why not.
pub fn cmd_receive(ticket: &str, found: Found) -> (out: Output)
    ensures
        out@ == received(ticket@, found),
{
    match found {
        Found::Nowhere { directory } => {
            let mut message = "Ticket not found: ".to_owned();
            message.append(ticket);
            message.append(" (looked in ");
            message.append(directory.as_str());
            message.append(")\n");
            cli::fail(message, 1)
        },
        Found::At { path, content } => match content {
            Ok(content) => cli::print(content),
            Err(e) => {
                let mut message = "Ticket not readable: ".to_owned();
                message.append(path.as_str());
                message.append(" (");
                message.append(e.as_str());
                message.append(")\n");
                cli::fail(message, 1)
            },
        },
    }
}

/// A ticket that was read is printed character for character, with nothing in
/// front of it or behind it.
pub proof fn tickets_are_printed_verbatim(ticket: Seq<char>, path: String, content: String)
    ensures
        ({
            let out = received(ticket, Found::At { path, content: Ok(content) });
            out.stdout == content@ && out.stderr.len() == 0 && out.code == 0
        }),
{
}

/// A ticket that is not there or cannot be read prints nothing but an error that
/// says which ticket and where, or which file and why.
pub proof fn missing_tickets_are_errors(
    ticket: Seq<char>,
    directory: String,
    path: String,
    e: String,
)
    ensures
        ({
            let out = received(ticket, Found::Nowhere { directory });
            &&& out.code == 1
            &&& out.stdout.len() == 0
            &&& text::in_order(out.stderr, seq![ticket, directory@])
        }),
        ({
            let out = received(ticket, Found::At { path, content: Err(e) });
            &&& out.code == 1
            &&& out.stdout.len() == 0
            &&& text::in_order(out.stderr, seq![path@, e@])
        }),
{
    text::holds_two("Ticket not found: "@, ticket, " (looked in "@, directory@, ")\n"@);
    text::holds_two("Ticket not readable: "@, path@, " ("@, e@, ")\n"@);
}

} // verus!
