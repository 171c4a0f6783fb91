//! `handoff`: freezes a session into a transfer ticket.
//!
//! A model sums up the head of the conversation, and the last few exchanges
//! ride along word for word. The command does one thing after another;
//! [`cmd_prepare`] says what comes next after each.

use vstd::prelude::*;
use vstd::string::*;

use crate::text;

verus! {

/// What was asked for.
#[derive(Debug, Clone, PartialEq, Eq)]
pub struct Handoff {
    /// The session to hand over.
    pub session: String,
    /// How many exchanges to carry word for word.
    pub tail: i64,
    /// How many characters those may take.
    pub tail_budget: i64,
    /// The model that sums up the rest.
    pub model: String,
}

/// What came of the last action.
#[derive(Debug, PartialEq, Eq)]
pub enum Event {
    /// The transcript was looked for below `projects`.
    Transcript { path: Option<String>, projects: String },
    /// The transcript holds this many exchanges.
    Exchanges { count: usize },
    /// The tail was cut to its budget: `dropped` of its exchanges left it.
    TailFitted { dropped: usize },
    /// The database at `path` was opened, or was not.
    Database { path: String, error: Option<String> },
    /// The table of transfers was set up, or was not. `head_is_empty` says
    /// whether the tail was the whole conversation.
    StateTable { error: Option<String>, head_is_empty: bool },
    /// The model was asked for the summary.
    Summary(Result<String, String>),
    /// The ticket `id` was written to a file, or was not.
    Ticket { id: String, written: Result<String, String> },
}

/// What to do next.
#[derive(Debug, PartialEq, Eq)]
pub enum Action {
    /// Read the exchanges of this transcript.
    LoadExchanges { path: String },
    /// Split the last `tail` exchanges off and cut them to `budget` characters.
    FitTail { tail: u64, budget: u64 },
    OpenDatabase,
    EnsureTable,
    /// Have this model sum up the head.
    Summarize { model: String },
    /// Write a ticket with this summary; without one, with the note that
    /// stands for the summary of a short session.
    WriteTicket { summary: Option<String> },
    /// End with this exit code.
    Finish { code: i32 },
}

pub enum ActionModel {
    LoadExchanges { path: Seq<char> },
    FitTail { tail: int, budget: int },
    OpenDatabase,
    EnsureTable,
    Summarize { model: Seq<char> },
    WriteTicket { summary: Option<Seq<char>> },
    Finish { code: i32 },
}

impl View for Action {
    type V = ActionModel;

    open spec fn view(&self) -> ActionModel {
        match *self {
            Action::LoadExchanges { path } => ActionModel::LoadExchanges { path: path@ },
            Action::FitTail { tail, budget } => ActionModel::FitTail {
                tail: tail as int,
                budget: budget as int,
            },
            Action::OpenDatabase => ActionModel::OpenDatabase,
            Action::EnsureTable => ActionModel::EnsureTable,
            Action::Summarize { model } => ActionModel::Summarize { model: model@ },
            Action::WriteTicket { summary } => ActionModel::WriteTicket {
                summary: text::opt_view(summary),
            },
            Action::Finish { code } => ActionModel::Finish { code },
        }
    }
}

/// What to print after an event, and what to do next.
#[derive(Debug, PartialEq, Eq)]
pub struct Reaction {
    pub stdout: String,
    pub stderr: String,
    pub next: Action,
}

pub struct ReactionModel {
    pub stdout: Seq<char>,
    pub stderr: Seq<char>,
    pub next: ActionModel,
}

impl View for Reaction {
    type V = ReactionModel;

    open spec fn view(&self) -> ReactionModel {
        ReactionModel { stdout: self.stdout@, stderr: self.stderr@, next: self.next@ }
    }
}

/// To go on without a word.
pub open spec fn go_on(next: ActionModel) -> ReactionModel {
    ReactionModel { stdout: Seq::empty(), stderr: Seq::empty(), next }
}

/// To end with an error.
pub open spec fn give_up(message: Seq<char>) -> ReactionModel {
    ReactionModel {
        stdout: Seq::empty(),
        stderr: "threadhop handoff: "@ + message + "\n"@,
        next: ActionModel::Finish { code: 1 },
    }
}

pub open spec fn at_least_zero(n: i64) -> int {
    if n < 0 {
        0
    } else {
        n as int
    }
}

impl Handoff {
    /// What follows an event.
    pub open spec fn reaction(self, event: Event) -> ReactionModel {
        match event {
            Event::Transcript { path: Some(path), .. } => go_on(
                ActionModel::LoadExchanges { path: path@ },
            ),
            Event::Transcript { path: None, projects } => give_up(
                "no transcript found for session "@ + self.session@ + " under "@ + projects@ + "."@,
            ),
            Event::Exchanges { count } => if count == 0 {
                give_up(
                    "session "@ + text::first_chars(self.session@, 8)
                        + " has no user/assistant exchanges to transfer."@,
                )
            } else {
                go_on(
                    ActionModel::FitTail {
                        tail: at_least_zero(self.tail),
                        budget: at_least_zero(self.tail_budget),
                    },
                )
            },
            Event::TailFitted { dropped } => if dropped > 0 {
                ReactionModel {
                    stdout: Seq::empty(),
                    stderr: "threadhop handoff: dropped "@ + text::decimal(dropped as nat)
                        + " oldest tail exchange(s) to fit --tail-budget "@ + text::signed_decimal(
                        self.tail_budget as int,
                    ) + ".\n"@,
                    next: ActionModel::OpenDatabase,
                }
            } else {
                go_on(ActionModel::OpenDatabase)
            },
            Event::Database { path, error: Some(e) } => give_up(
                "cannot open "@ + path@ + ": "@ + e@,
            ),
            Event::Database { error: None, .. } => go_on(ActionModel::EnsureTable),
            Event::StateTable { error: Some(e), .. } => give_up(
                "transfer_state setup failed: "@ + e@,
            ),
            Event::StateTable { error: None, head_is_empty } => if head_is_empty {
                ReactionModel {
                    stdout: Seq::empty(),
                    stderr:
                        "threadhop handoff: session too short to summarize — skipping the LLM call.\n"@,
                    next: ActionModel::WriteTicket { summary: None },
                }
            } else {
                go_on(ActionModel::Summarize { model: self.model@ })
            },
            Event::Summary(Ok(summary)) => go_on(
                ActionModel::WriteTicket { summary: Some(summary@) },
            ),
            Event::Summary(Err(e)) => give_up(e@),
            Event::Ticket { id, written: Ok(path) } => ReactionModel {
                stdout: path@ + "\nPaste in the target chat: !threadhop receive "@ + id@
                    + "\n  (or: threadhop receive "@ + id@ + ")\n"@,
                stderr: Seq::empty(),
                next: ActionModel::Finish { code: 0 },
            },
            Event::Ticket { written: Err(e), .. } => give_up("ticket write failed: "@ + e@),
        }
    }
}

fn silent(next: Action) -> (r: Reaction)
    ensures
        r@ == go_on(next@),
{
    Reaction { stdout: String::new(), stderr: String::new(), next }
}

fn refuse(message: String) -> (r: Reaction)
    ensures
        r@ == give_up(message@),
{
    let mut stderr = "threadhop handoff: ".to_owned();
    stderr.append(message.as_str());
    stderr.append("\n");
    Reaction { stdout: String::new(), stderr, next: Action::Finish { code: 1 } }
}

fn clamp_to_zero(n: i64) -> (m: u64)
    ensures
        m == at_least_zero(n),
{
    if n < 0 {
        0
    } else {
        n as u64
    }
}

/// What to print and what to do next, after `event`.
pub fn cmd_prepare(request: &Handoff, event: Event) -> (reaction: Reaction)
    ensures
        reaction@ == request.reaction(event),
{
    match event {
        Event::Transcript { path, projects } => match path {
            Some(path) => silent(Action::LoadExchanges { path }),
            None => {
                let mut message = "no transcript found for session ".to_owned();
                message.append(request.session.as_str());
                message.append(" under ");
                message.append(projects.as_str());
                message.append(".");
                refuse(message)
            },
        },
        Event::Exchanges { count } => {
            if count == 0 {
                let mut message = "session ".to_owned();
                message.append(text::take_chars(request.session.as_str(), 8).as_str());
                message.append(" has no user/assistant exchanges to transfer.");
                refuse(message)
            } else {
                silent(
                    Action::FitTail {
                        tail: clamp_to_zero(request.tail),
                        budget: clamp_to_zero(request.tail_budget),
                    },
                )
            }
        },
        Event::TailFitted { dropped } => {
            if dropped > 0 {
                let mut stderr = "threadhop handoff: dropped ".to_owned();
                text::push_decimal(&mut stderr, dropped as u64);
                stderr.append(" oldest tail exchange(s) to fit --tail-budget ");
                text::push_signed(&mut stderr, request.tail_budget);
                stderr.append(".\n");
                Reaction { stdout: String::new(), stderr, next: Action::OpenDatabase }
            } else {
                silent(Action::OpenDatabase)
            }
        },
        Event::Database { path, error } => match error {
            Some(e) => {
                let mut message = "cannot open ".to_owned();
                message.append(path.as_str());
                message.append(": ");
                message.append(e.as_str());
                refuse(message)
            },
            None => silent(Action::EnsureTable),
        },
        Event::StateTable { error, head_is_empty } => match error {
            Some(e) => {
                let mut message = "transfer_state setup failed: ".to_owned();
                message.append(e.as_str());
                refuse(message)
            },
            None => {
                if head_is_empty {
                    Reaction {
                        stdout: String::new(),
                        stderr:
                            "threadhop handoff: session too short to summarize — skipping the LLM call.\n".to_owned(),
                        next: Action::WriteTicket { summary: None },
                    }
                } else {
                    silent(Action::Summarize { model: request.model.clone() })
                }
            },
        },
        Event::Summary(answer) => match answer {
            Ok(summary) => silent(Action::WriteTicket { summary: Some(summary) }),
            Err(e) => refuse(e),
        },
        Event::Ticket { id, written } => match written {
            Ok(path) => {
                let mut stdout = path;
                stdout.append("\nPaste in the target chat: !threadhop receive ");
                stdout.append(id.as_str());
                stdout.append("\n  (or: threadhop receive ");
                stdout.append(id.as_str());
                stdout.append(")\n");
                Reaction { stdout, stderr: String::new(), next: Action::Finish { code: 0 } }
            },
            Err(e) => {
                let mut message = "ticket write failed: ".to_owned();
                message.append(e.as_str());
                refuse(message)
            },
        },
    }
}

/// No ticket is written once the model has refused the summary, nor for a
/// session without a transcript or without exchanges: the command ends with
/// the exit code 1 and has printed nothing but an error.
pub proof fn failures_write_no_ticket(request: Handoff, event: Event)
    requires
        match event {
            Event::Transcript { path, .. } => path is None,
            Event::Exchanges { count } => count == 0,
            Event::TailFitted { .. } => false,
            Event::Database { error, .. } => error is Some,
            Event::StateTable { error, .. } => error is Some,
            Event::Summary(answer) => answer is Err,
            Event::Ticket { written, .. } => written is Err,
        },
    ensures
        request.reaction(event).next == (ActionModel::Finish { code: 1 }),
        request.reaction(event).stdout == Seq::<char>::empty(),
        request.reaction(event).stderr.len() > 0,
{
    reveal_strlit("threadhop handoff: ");
}

/// The model is asked exactly where there is a head to sum up, and never for
/// a session that is all tail.
pub proof fn short_sessions_ask_no_model(request: Handoff, event: Event)
    ensures
        request.reaction(event).next is Summarize <==> event matches Event::StateTable {
            error: None,
            head_is_empty: false,
        },
{
}

/// A session with exchanges is cut as was asked: the tail has as many exchanges
/// as `--tail` says and as many characters as `--tail-budget` says, none where
/// either is negative. Nothing is said of it.
pub proof fn tails_are_cut_as_asked(request: Handoff, count: usize)
    requires
        count > 0,
    ensures
        ({
            let after = request.reaction(Event::Exchanges { count });
            &&& after.stdout.len() == 0
            &&& after.stderr.len() == 0
            &&& after.next matches ActionModel::FitTail { tail, budget }
            &&& request.tail >= 0 ==> tail == request.tail
            &&& request.tail < 0 ==> tail == 0
            &&& request.tail_budget >= 0 ==> budget == request.tail_budget
            &&& request.tail_budget < 0 ==> budget == 0
        }),
{
}

/// What one step found is what the next one works on: the transcript that was
/// found is read, the model that was asked for sums up, and the summary it gave
/// goes into the ticket word for word. Nothing is printed on the way.
pub proof fn steps_hand_on_what_they_found(
    request: Handoff,
    path: String,
    projects: String,
    summary: String,
)
    ensures
        ({
            let after = request.reaction(Event::Transcript { path: Some(path), projects });
            &&& after.next matches ActionModel::LoadExchanges { path: read }
            &&& read == path@
            &&& after.stdout.len() == 0 && after.stderr.len() == 0
        }),
        ({
            let after = request.reaction(
                Event::StateTable { error: None, head_is_empty: false },
            );
            &&& after.next matches ActionModel::Summarize { model }
            &&& model == request.model@
            &&& after.stdout.len() == 0 && after.stderr.len() == 0
        }),
        ({
            let after = request.reaction(Event::Summary(Ok(summary)));
            &&& after.next matches ActionModel::WriteTicket { summary: Some(written) }
            &&& written == summary@
            &&& after.stdout.len() == 0 && after.stderr.len() == 0
        }),
{
}

/// Between the tail and the summary the database is opened and its table set
/// up, whatever became of the tail. A session that is all tail gets its ticket
/// without a summary.
pub proof fn the_ticket_follows_the_table(request: Handoff, dropped: usize, path: String)
    ensures
        request.reaction(Event::TailFitted { dropped }).next is OpenDatabase,
        request.reaction(Event::Database { path, error: None }).next is EnsureTable,
        request.reaction(Event::StateTable { error: None, head_is_empty: true }).next
            matches ActionModel::WriteTicket { summary } && summary is None,
{
}

/// Exchanges that did not fit are reported with their number and the budget,
/// on the error output; where all fit, nothing is said.
pub proof fn dropped_exchanges_are_reported(request: Handoff, dropped: usize)
    ensures
        ({
            let after = request.reaction(Event::TailFitted { dropped });
            &&& after.stdout.len() == 0
            &&& dropped == 0 ==> after.stderr.len() == 0
            &&& dropped > 0 ==> text::in_order(
                after.stderr,
                seq![
                    text::decimal(dropped as nat),
                    text::signed_decimal(request.tail_budget as int),
                ],
            )
        }),
{
    text::holds_two(
        "threadhop handoff: dropped "@,
        text::decimal(dropped as nat),
        " oldest tail exchange(s) to fit --tail-budget "@,
        text::signed_decimal(request.tail_budget as int),
        ".\n"@,
    );
}

/// A written ticket ends the handoff well: its file is printed first, and then
/// how to receive it, twice with its id.
pub proof fn written_tickets_end_the_handoff(request: Handoff, id: String, path: String)
    ensures
        ({
            let after = request.reaction(Event::Ticket { id, written: Ok(path) });
            &&& after.next matches ActionModel::Finish { code }
            &&& code == 0
            &&& after.stderr.len() == 0
            &&& path@.is_prefix_of(after.stdout)
            &&& text::in_order(after.stdout, seq![path@, id@, id@])
        }),
{
    let after = request.reaction(Event::Ticket { id, written: Ok(path) });
    let none = Seq::<char>::empty();
    text::holds_three(
        none,
        path@,
        "\nPaste in the target chat: !threadhop receive "@,
        id@,
        "\n  (or: threadhop receive "@,
        id@,
        ")\n"@,
    );
    assert(none + path@ =~= path@);
    assert(after.stdout.take(path@.len() as int) =~= path@);
}

/// A handoff that fails says why: the error it was told, or the session that
/// it looked for.
pub proof fn failures_say_why(request: Handoff, path: String, projects: String, e: String, id: String)
    ensures
        text::in_order(
            request.reaction(Event::Transcript { path: None, projects }).stderr,
            seq![request.session@, projects@],
        ),
        text::in_order(
            request.reaction(Event::Exchanges { count: 0 }).stderr,
            seq![text::first_chars(request.session@, 8)],
        ),
        text::in_order(
            request.reaction(Event::Database { path, error: Some(e) }).stderr,
            seq![path@, e@],
        ),
        text::in_order(
            request.reaction(Event::StateTable { error: Some(e), head_is_empty: true }).stderr,
            seq![e@],
        ),
        text::in_order(
            request.reaction(Event::StateTable { error: Some(e), head_is_empty: false }).stderr,
            seq![e@],
        ),
        text::in_order(request.reaction(Event::Summary(Err(e))).stderr, seq![e@]),
        text::in_order(
            request.reaction(Event::Ticket { id, written: Err(e) }).stderr,
            seq![e@],
        ),
{
    let who = "threadhop handoff: "@;
    let short = text::first_chars(request.session@, 8);
    let a = "no transcript found for session "@;
    text::holds_two(who + a, request.session@, " under "@, projects@, "."@ + "\n"@);
    assert(who + (a + request.session@ + " under "@ + projects@ + "."@) + "\n"@ =~= who + a
        + request.session@ + " under "@ + projects@ + ("."@ + "\n"@));
    let b = " has no user/assistant exchanges to transfer."@;
    text::holds_one(who + "session "@, short, b + "\n"@);
    assert(who + ("session "@ + short + b) + "\n"@ =~= who + "session "@ + short + (b + "\n"@));
    text::holds_two(who + "cannot open "@, path@, ": "@, e@, "\n"@);
    assert(who + ("cannot open "@ + path@ + ": "@ + e@) + "\n"@ =~= who + "cannot open "@ + path@
        + ": "@ + e@ + "\n"@);
    let c = "transfer_state setup failed: "@;
    text::holds_one(who + c, e@, "\n"@);
    assert(who + (c + e@) + "\n"@ =~= who + c + e@ + "\n"@);
    text::holds_one(who, e@, "\n"@);
    let d = "ticket write failed: "@;
    text::holds_one(who + d, e@, "\n"@);
    assert(who + (d + e@) + "\n"@ =~= who + d + e@ + "\n"@);
}

} // verus!
