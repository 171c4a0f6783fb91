//! The subcommands that borrow from other sessions without the terminal
//! interface. Each command is a chain of decisions: [`run`] says what it wants
//! to know first, [`resume`] what it does once it was told, and it ends in an
//! [`Output`].

pub mod peek;
pub mod prepare;
pub mod receive;
pub mod search;

use vstd::prelude::*;
use vstd::string::*;

use crate::cli::peek::Exchange;
use crate::cli::prepare::Handoff;
use crate::cli::search::{CliHit, JsonHit, Marks};
use crate::event;
use crate::event::ProjectDir;
use crate::text;

verus! {

/// What a command leaves behind when it ends.
#[derive(Debug, PartialEq, Eq)]
pub struct Output {
    pub stdout: String,
    pub stderr: String,
    pub code: i32,
}

pub struct OutputModel {
    pub stdout: Seq<char>,
    pub stderr: Seq<char>,
    pub code: i32,
}

impl View for Output {
    type V = OutputModel;

    open spec fn view(&self) -> OutputModel {
        OutputModel { stdout: self.stdout@, stderr: self.stderr@, code: self.code }
    }
}

/// The end of a command that printed `message` to its error output.
pub open spec fn failed(message: Seq<char>, code: i32) -> OutputModel {
    OutputModel { stdout: Seq::empty(), stderr: message, code }
}

/// The end of a command that printed `stdout`.
pub open spec fn printed(stdout: Seq<char>) -> OutputModel {
    OutputModel { stdout, stderr: Seq::empty(), code: 0 }
}

pub(crate) fn fail(message: String, code: i32) -> (out: Output)
    ensures
        out@ == failed(message@, code),
{
    Output { stdout: String::new(), stderr: message, code }
}

pub(crate) fn print(stdout: String) -> (out: Output)
    ensures
        out@ == printed(stdout@),
{
    Output { stdout, stderr: String::new(), code: 0 }
}

/// What was asked for on the command line.
#[derive(Debug, Clone, PartialEq, Eq)]
pub enum CliCommand {
    /// Print exchanges of another session.
    Peek {
        session_ref: String,
        last: Option<i64>,
        range: Option<String>,
        grep: Option<String>,
    },
    /// Search every indexed session.
    Search { query: String, project: Option<String>, limit: usize, json: bool },
    /// Write a transfer ticket.
    Handoff { session: String, tail: i64, tail_budget: i64, model: String },
    /// Print a transfer ticket.
    Receive { ticket: String },
}

/// What a command does next: it wants to know something, or it ends.
#[derive(Debug, PartialEq, Eq)]
pub enum Step {
    /// It wants to know which sessions there are.
    ListSessions,
    /// It wants to know where the transcript of a session is.
    FindTranscript { session_id: String },
    /// It wants the exchanges of the transcript at `path`, and what the session
    /// is shown as.
    LoadExchanges { session_id: String, path: String },
    /// It wants what the index holds for `query`, `limit` hits at most.
    SearchIndex { query: String, limit: usize },
    /// It wants these hits as JSON.
    WriteJson(Vec<JsonHit>),
    /// It prints this, and goes on with a handoff.
    Handoff { stdout: String, stderr: String, next: prepare::Action },
    /// It wants to know where the ticket is.
    FindTicket { ticket: String },
    /// It ends.
    Done(Output),
    /// It was told something that it did not want to know.
    Nothing,
}

pub enum StepModel {
    ListSessions,
    FindTranscript { session_id: Seq<char> },
    LoadExchanges { session_id: Seq<char>, path: Seq<char> },
    SearchIndex { query: Seq<char>, limit: usize },
    WriteJson(Seq<search::JsonHitModel>),
    Handoff { stdout: Seq<char>, stderr: Seq<char>, next: prepare::ActionModel },
    FindTicket { ticket: Seq<char> },
    Done(OutputModel),
    Nothing,
}

impl View for Step {
    type V = StepModel;

    open spec fn view(&self) -> StepModel {
        match *self {
            Step::ListSessions => StepModel::ListSessions,
            Step::FindTranscript { session_id } => StepModel::FindTranscript {
                session_id: session_id@,
            },
            Step::LoadExchanges { session_id, path } => StepModel::LoadExchanges {
                session_id: session_id@,
                path: path@,
            },
            Step::SearchIndex { query, limit } => StepModel::SearchIndex { query: query@, limit },
            Step::WriteJson(rows) => StepModel::WriteJson(search::json_view(rows@)),
            Step::Handoff { stdout, stderr, next } => StepModel::Handoff {
                stdout: stdout@,
                stderr: stderr@,
                next: next@,
            },
            Step::FindTicket { ticket } => StepModel::FindTicket { ticket: ticket@ },
            Step::Done(output) => StepModel::Done(output@),
            Step::Nothing => StepModel::Nothing,
        }
    }
}

/// What a command is told.
#[derive(Debug, PartialEq, Eq)]
pub enum Reply {
    /// The files in the directories below `projects`, and the stored sessions.
    Sessions { projects: String, files: Vec<String>, stored: Vec<String> },
    /// Where the transcript of a session was found below `projects`, and its
    /// stored path, where that is a file.
    Transcript {
        session_id: String,
        projects: String,
        found: Option<String>,
        stored: Option<String>,
    },
    /// The exchanges of a session, and what it is shown as.
    Exchanges {
        session_id: String,
        display_name: String,
        project: Option<String>,
        exchanges: Vec<Exchange>,
    },
    /// What the index holds.
    Hits { hits: Vec<CliHit>, marks: Marks },
    /// The hits as JSON, where that could be written.
    Json(Option<String>),
    /// What came of a step of a handoff.
    Handoff(prepare::Event),
    /// What came of looking for a ticket.
    Ticket(receive::Found),
}

/// The first step of a command.
pub open spec fn first_step(cmd: CliCommand) -> StepModel {
    match cmd {
        CliCommand::Peek { .. } => StepModel::ListSessions,
        CliCommand::Search { query, project, limit, .. } => StepModel::SearchIndex {
            query: search::indexed_query(query@, text::opt_view(project)),
            limit,
        },
        CliCommand::Handoff { session, .. } => StepModel::FindTranscript { session_id: session@ },
        CliCommand::Receive { ticket } => StepModel::FindTicket { ticket: ticket@ },
    }
}

/// Begins a command: the first thing it wants to know. [`resume`] takes the
/// reply.
pub fn run(cmd: &CliCommand) -> (step: Step)
    ensures
        step@ == first_step(*cmd),
{
    match cmd {
        CliCommand::Peek { .. } => Step::ListSessions,
        CliCommand::Search { query, project, limit, .. } => Step::SearchIndex {
            query: search::raw_query(query.as_str(), project),
            limit: *limit,
        },
        CliCommand::Handoff { session, .. } => Step::FindTranscript { session_id: session.clone() },
        CliCommand::Receive { ticket } => Step::FindTicket { ticket: ticket.clone() },
    }
}

/// The step that a reaction of a handoff comes to: its end, or going on.
pub open spec fn handoff_step(reaction: prepare::ReactionModel) -> StepModel {
    match reaction.next {
        prepare::ActionModel::Finish { code } => StepModel::Done(
            OutputModel { stdout: reaction.stdout, stderr: reaction.stderr, code },
        ),
        next => StepModel::Handoff { stdout: reaction.stdout, stderr: reaction.stderr, next },
    }
}

/// Whether `step` is what `peek` does after a reply.
pub open spec fn peek_step(
    session_ref: Seq<char>,
    last: Option<i64>,
    range: Option<Seq<char>>,
    grep: Option<Seq<char>>,
    reply: Reply,
    step: StepModel,
) -> bool {
    match reply {
        Reply::Sessions { projects, files, stored } => step == match peek::session_chosen(
            session_ref,
            projects@,
            sessions_meant(
                known_sessions(text::views(files@), text::views(stored@)),
                session_ref,
            ),
        ) {
            Ok(session_id) => StepModel::FindTranscript { session_id },
            Err(output) => StepModel::Done(output),
        },
        Reply::Transcript { session_id, projects, found, stored } => step
            == match peek::transcript_chosen(
            session_id@,
            projects@,
            text::opt_view(found),
            text::opt_view(stored),
        ) {
            Ok(path) => StepModel::LoadExchanges { session_id: session_id@, path },
            Err(output) => StepModel::Done(output),
        },
        Reply::Exchanges { session_id, display_name, project, exchanges } => {
            &&& step matches StepModel::Done(output)
            &&& peek::peek_ends(
                peek::exchanges_view(exchanges@),
                session_id@,
                display_name@,
                text::opt_view(project),
                last,
                range,
                grep,
                output,
            )
        },
        _ => step == StepModel::Nothing,
    }
}

/// What `search` does after a reply.
pub open spec fn search_step(query: Seq<char>, json: bool, reply: Reply) -> StepModel {
    match reply {
        Reply::Hits { hits, marks } => if json {
            StepModel::WriteJson(hits@.map_values(|hit: CliHit| search::json_hit(hit, marks)))
        } else {
            StepModel::Done(printed(search::searched(query, hits@, marks)))
        },
        Reply::Json(text) => if json {
            StepModel::Done(printed(search::json_text(text::opt_view(text))))
        } else {
            StepModel::Nothing
        },
        _ => StepModel::Nothing,
    }
}

/// Whether `step` is what a command does after a reply. Every field of the
/// command reaches the one handler that it is for, and the end of that handler,
/// with its exit code, is the end of the command.
pub open spec fn follows(cmd: CliCommand, reply: Reply, step: StepModel) -> bool {
    match cmd {
        CliCommand::Peek { session_ref, last, range, grep } => peek_step(
            session_ref@,
            last,
            text::opt_view(range),
            text::opt_view(grep),
            reply,
            step,
        ),
        CliCommand::Search { query, json, .. } => step == search_step(query@, json, reply),
        CliCommand::Handoff { session, tail, tail_budget, model } => step == match reply {
            Reply::Handoff(event) => handoff_step(
                (Handoff { session, tail, tail_budget, model }).reaction(event),
            ),
            _ => StepModel::Nothing,
        },
        CliCommand::Receive { ticket } => step == match reply {
            Reply::Ticket(found) => StepModel::Done(receive::received(ticket@, found)),
            _ => StepModel::Nothing,
        },
    }
}

/// Goes on with a command after it was told something.
pub fn resume(cmd: &CliCommand, reply: Reply) -> (step: Step)
    requires
        reply matches Reply::Hits { marks, .. } ==> marks.wf(),
    ensures
        follows(*cmd, reply, step@),
{
    match cmd {
        CliCommand::Peek { session_ref, last, range, grep } => match reply {
            Reply::Sessions { projects, files, stored } => {
                match peek::cmd_peek(session_ref.as_str(), projects.as_str(), &files, &stored) {
                    Ok(session_id) => Step::FindTranscript { session_id },
                    Err(output) => Step::Done(output),
                }
            },
            Reply::Transcript { session_id, projects, found, stored } => {
                match peek::choose_transcript(
                    session_id.as_str(),
                    projects.as_str(),
                    found,
                    stored,
                ) {
                    Ok(path) => Step::LoadExchanges { session_id, path },
                    Err(output) => Step::Done(output),
                }
            },
            Reply::Exchanges { session_id, display_name, project, exchanges } => Step::Done(
                peek::peek_transcript(
                    &exchanges,
                    session_id.as_str(),
                    display_name.as_str(),
                    &project,
                    *last,
                    range,
                    grep,
                ),
            ),
            _ => Step::Nothing,
        },
        CliCommand::Search { query, json, .. } => match reply {
            Reply::Hits { hits, marks } => {
                if *json {
                    Step::WriteJson(search::json_hits(&hits, &marks))
                } else {
                    Step::Done(search::cmd_search(query.as_str(), &hits, &marks))
                }
            },
            Reply::Json(text) => {
                if *json {
                    Step::Done(search::json_output(text))
                } else {
                    Step::Nothing
                }
            },
            _ => Step::Nothing,
        },
        CliCommand::Handoff { session, tail, tail_budget, model } => match reply {
            Reply::Handoff(event) => {
                let request = Handoff {
                    session: session.clone(),
                    tail: *tail,
                    tail_budget: *tail_budget,
                    model: model.clone(),
                };
                let reaction = prepare::cmd_prepare(&request, event);
                match reaction.next {
                    prepare::Action::Finish { code } => Step::Done(
                        Output { stdout: reaction.stdout, stderr: reaction.stderr, code },
                    ),
                    next => Step::Handoff {
                        stdout: reaction.stdout,
                        stderr: reaction.stderr,
                        next,
                    },
                }
            },
            _ => Step::Nothing,
        },
        CliCommand::Receive { ticket } => match reply {
            Reply::Ticket(found) => Step::Done(receive::cmd_receive(ticket.as_str(), found)),
            _ => Step::Nothing,
        },
    }
}

/// The session whose transcript is in a file of this name: the name without
/// `.jsonl`. `None` for other files and for the transcripts of sub-agents.
pub open spec fn session_of_file(name: Seq<char>) -> Option<Seq<char>> {
    let stem = name.take(name.len() - 6);
    if name.len() > 6 && text::occurs_at(name, ".jsonl"@, name.len() - 6) && !text::occurs_at(
        stem,
        "agent-"@,
        0,
    ) {
        Some(stem)
    } else {
        None
    }
}

/// The session whose transcript is in a file of this name.
pub fn session_id_of_file(name: &str) -> (id: Option<String>)
    ensures
        text::opt_view(id) == session_of_file(name@),
{
    proof {
        reveal_strlit(".jsonl");
    }
    let chars = text::chars_of(name);
    if chars.len() <= 6 {
        return None;
    }
    let at: usize = chars.len() - 6;
    let stem = text::string_of_range(&chars, 0, at);
    let suffix = text::string_of_range(&chars, at, chars.len());
    assert(stem@ =~= name@.take(name@.len() - 6));
    if text::same_text(suffix.as_str(), ".jsonl") && !text::has_prefix(stem.as_str(), "agent-") {
        Some(stem)
    } else {
        None
    }
}

/// The sessions whose transcripts are among these files, and then the stored
/// ones.
pub open spec fn known_sessions(files: Seq<Seq<char>>, stored: Seq<Seq<char>>) -> Seq<Seq<char>>
    decreases files.len(),
{
    if files.len() == 0 {
        stored
    } else {
        match session_of_file(files[0]) {
            Some(id) => seq![id] + known_sessions(files.skip(1), stored),
            None => known_sessions(files.skip(1), stored),
        }
    }
}

/// The sessions that `token` can mean: the one of that very name, where it is
/// known; else every known one that starts with it, each once, in order.
pub open spec fn sessions_meant(known: Seq<Seq<char>>, token: Seq<char>) -> Seq<Seq<char>> {
    if known.contains(token) {
        seq![token]
    } else {
        text::sorted_set(known.filter(|id: Seq<char>| text::occurs_at(id, token, 0)))
    }
}

/// The sessions that `token` can mean, among those with a transcript file and
/// the stored ones.
pub fn resolve_session_prefix(files: &Vec<String>, stored: &Vec<String>, token: &str) -> (matches:
    Vec<String>)
    ensures
        text::views(matches@) == sessions_meant(
            known_sessions(text::views(files@), text::views(stored@)),
            token@,
        ),
{
    let known = known_ids(files, stored);
    let ghost all = text::views(known@);
    let mut matching: Vec<String> = Vec::new();
    let mut i: usize = 0;
    let ghost starts = |id: Seq<char>| text::occurs_at(id, token@, 0);
    proof {
        reveal(Seq::filter);
    }
    assert(text::views(matching@) =~= all.take(0).filter(starts));
    while i < known.len()
        invariant
            i <= known@.len(),
            all == text::views(known@),
            all == known_sessions(text::views(files@), text::views(stored@)),
            starts == |id: Seq<char>| text::occurs_at(id, token@, 0),
            forall|j: int| 0 <= j < i ==> #[trigger] all[j] != token@,
            text::views(matching@) == all.take(i as int).filter(starts),
        decreases known@.len() - i,
    {
        if text::same_text(known[i].as_str(), token) {
            assert(all[i as int] == token@);
            assert(all.contains(token@));
            let mut only: Vec<String> = Vec::new();
            only.push(token.to_owned());
            assert(text::views(only@) =~= seq![token@]);
            return only;
        }
        let ghost before = text::views(matching@);
        proof {
            reveal(Seq::filter);
            assert(all.take(i + 1).drop_last() =~= all.take(i as int));
            assert(all.take(i + 1).last() == all[i as int]);
        }
        if text::has_prefix(known[i].as_str(), token) {
            matching.push(known[i].clone());
            assert(text::views(matching@) =~= before.push(all[i as int]));
        }
        i += 1;
    }
    assert(all.take(i as int) =~= all);
    assert(!all.contains(token@));
    text::sort_and_dedup(&matching)
}

fn known_ids(files: &Vec<String>, stored: &Vec<String>) -> (known: Vec<String>)
    ensures
        text::views(known@) == known_sessions(text::views(files@), text::views(stored@)),
{
    let mut known: Vec<String> = Vec::new();
    let mut i: usize = 0;
    let ghost names = text::views(files@);
    let ghost ids = text::views(stored@);
    let ghost whole = known_sessions(names, ids);
    assert(names.skip(0) =~= names);
    assert(text::views(known@) + whole =~= whole);
    while i < files.len()
        invariant
            i <= files@.len(),
            names == text::views(files@),
            whole == text::views(known@) + known_sessions(names.skip(i as int), ids),
        decreases files@.len() - i,
    {
        let ghost before = text::views(known@);
        let ghost rest = known_sessions(names.skip(i + 1), ids);
        assert(names.skip(i as int).skip(1) =~= names.skip(i + 1));
        match session_id_of_file(files[i].as_str()) {
            Some(id) => {
                known.push(id);
                assert(text::views(known@) =~= before.push(id@));
                assert(before + (seq![id@] + rest) =~= text::views(known@) + rest);
            },
            None => {},
        }
        i += 1;
    }
    let mut k: usize = 0;
    let ghost found = text::views(known@);
    assert(found + ids.take(0) =~= found);
    while k < stored.len()
        invariant
            k <= stored@.len(),
            ids == text::views(stored@),
            text::views(known@) == found + ids.take(k as int),
        decreases stored@.len() - k,
    {
        let ghost before = text::views(known@);
        known.push(stored[k].clone());
        assert(text::views(known@) =~= before.push(ids[k as int]));
        assert(found + ids.take(k + 1) =~= (found + ids.take(k as int)).push(ids[k as int]));
        k += 1;
    }
    assert(ids.take(k as int) =~= ids);
    known
}

/// The position of the first directory from `from` on that holds a file, or
/// the number of directories.
pub open spec fn directory_with(dirs: Seq<ProjectDir>, file: Seq<char>, from: int) -> int
    decreases dirs.len() - from,
{
    if from < 0 || from >= dirs.len() {
        dirs.len() as int
    } else if event::holds_file(dirs[from], file) {
        from
    } else {
        directory_with(dirs, file, from + 1)
    }
}

/// Where the transcript of a session is: the first project directory that
/// holds a file of its name, by its position, and that name. The directory's
/// own name need not be readable.
pub fn find_session_path(dirs: &Vec<ProjectDir>, session_id: &str) -> (path: Option<
    (usize, String),
>)
    ensures
        match path {
            Some((at, file)) => {
                &&& file@ == session_id@ + ".jsonl"@
                &&& at < dirs@.len()
                &&& at == directory_with(dirs@, session_id@ + ".jsonl"@, 0)
            },
            None => directory_with(dirs@, session_id@ + ".jsonl"@, 0) == dirs@.len(),
        },
{
    let mut file = session_id.to_owned();
    file.append(".jsonl");
    let mut i: usize = 0;
    while i < dirs.len()
        invariant
            i <= dirs@.len(),
            file@ == session_id@ + ".jsonl"@,
            directory_with(dirs@, file@, 0) == directory_with(dirs@, file@, i as int),
        decreases dirs@.len() - i,
    {
        if let Some(files) = &dirs[i].files {
            if event::has_file(files, file.as_str()) {
                return Some((i, file));
            }
        }
        i += 1;
    }
    None
}

/// What is stored of a session.
#[derive(Debug, Clone, PartialEq, Eq)]
pub struct StoredSession {
    pub custom_name: Option<String>,
    pub project: Option<String>,
}

/// The name and the project that a session is shown with: the stored ones,
/// with the start of the id for a missing name; for a session that is not
/// stored the start of its id and the directory of its transcript.
pub open spec fn shown_as(
    stored: Option<StoredSession>,
    session_id: Seq<char>,
    directory: Option<Seq<char>>,
) -> (Seq<char>, Option<Seq<char>>) {
    let short = text::first_chars(session_id, 8);
    match stored {
        Some(row) => (
            match row.custom_name {
                Some(name) => name@,
                None => short,
            },
            text::opt_view(row.project),
        ),
        None => (short, directory),
    }
}

/// The name and the project that a session is shown with. `directory` is the
/// name of the directory that holds its transcript.
pub fn display_name_and_project(
    stored: &Option<StoredSession>,
    session_id: &str,
    directory: &Option<String>,
) -> (shown: (String, Option<String>))
    ensures
        (shown.0@, text::opt_view(shown.1)) == shown_as(
            *stored,
            session_id@,
            text::opt_view(*directory),
        ),
{
    match stored {
        Some(row) => {
            let name = match &row.custom_name {
                Some(name) => name.clone(),
                None => text::take_chars(session_id, 8),
            };
            (name, text::clone_option(&row.project))
        },
        None => (text::take_chars(session_id, 8), text::clone_option(directory)),
    }
}

/// A session that is known by its full id is the only one that the id means,
/// whatever else starts with it.
pub proof fn full_ids_are_unambiguous(known: Seq<Seq<char>>, token: Seq<char>)
    requires
        known.contains(token),
    ensures
        sessions_meant(known, token) == seq![token],
{
}

/// What a token means is known and starts with the token; whatever is known
/// and starts with a token that is no full id is meant by it; and the meanings
/// come in ascending order without repetition.
pub proof fn prefixes_mean_what_starts_with_them(known: Seq<Seq<char>>, token: Seq<char>)
    ensures
        forall|id: Seq<char>| #[trigger]
            sessions_meant(known, token).contains(id) ==> known.contains(id) && text::occurs_at(
                id,
                token,
                0,
            ),
        forall|id: Seq<char>| #[trigger]
            known.contains(id) && text::occurs_at(id, token, 0) && !known.contains(token)
                ==> sessions_meant(known, token).contains(id),
        text::ascending(sessions_meant(known, token)),
{
    let starts = |id: Seq<char>| text::occurs_at(id, token, 0);
    if known.contains(token) {
        assert(text::occurs_at(token, token, 0)) by {
            assert(token.subrange(0, token.len() as int) =~= token);
        }
        assert forall|id: Seq<char>| #[trigger] seq![token].contains(id) implies id == token by {}
    } else {
        text::sorted_set_holds_each_once(known.filter(starts));
        assert forall|id: Seq<char>| #[trigger]
            sessions_meant(known, token).contains(id) implies known.contains(id)
            && text::occurs_at(id, token, 0) by {
            assert(known.filter(starts).contains(id));
            known.lemma_filter_contains_rev(starts, id);
            let at = known.filter(starts).index_of(id);
            known.lemma_filter_pred(starts, at);
        }
        assert forall|id: Seq<char>| #[trigger]
            known.contains(id) && text::occurs_at(id, token, 0) implies sessions_meant(
            known,
            token,
        ).contains(id) by {
            let at = known.index_of(id);
            known.lemma_filter_contains(starts, at);
        }
    }
}

/// Sub-agents are no sessions: no file of one is known by its name.
pub proof fn sub_agents_are_no_sessions(rest: Seq<char>)
    ensures
        session_of_file("agent-"@ + rest + ".jsonl"@) is None,
{
    reveal_strlit("agent-");
    reveal_strlit(".jsonl");
    let name = "agent-"@ + rest + ".jsonl"@;
    let stem = name.take(name.len() - 6);
    assert(stem =~= "agent-"@ + rest);
    assert(stem.subrange(0, 6) =~= "agent-"@);
}

/// A command begins by asking for what it is about: `peek` for the sessions,
/// `search` for the hits of its query and no more than its limit, `handoff` for
/// the transcript of its session, and `receive` for its ticket.
pub proof fn commands_ask_for_what_they_are_about(cmd: CliCommand)
    ensures
        match (cmd, first_step(cmd)) {
            (CliCommand::Peek { .. }, StepModel::ListSessions) => true,
            (
                CliCommand::Search { query, project, limit, .. },
                StepModel::SearchIndex { query: asked, limit: most },
            ) => most == limit && query@.is_prefix_of(asked) && (project is None ==> asked
                == query@),
            (CliCommand::Handoff { session, .. }, StepModel::FindTranscript { session_id }) => {
                session_id == session@
            },
            (CliCommand::Receive { ticket }, StepModel::FindTicket { ticket: wanted }) => wanted
                == ticket@,
            _ => false,
        },
{
    if let CliCommand::Search { query, project, .. } = cmd {
        if let Some(p) = project {
            search::projects_are_one_more_word(query@, p@);
        } else {
            assert(query@.take(query@.len() as int) =~= query@);
        }
    }
}

/// `peek` reads the transcript of the one session that its argument means, from
/// where it was found or else from where it is stored.
pub proof fn peeks_follow_the_session(
    cmd: CliCommand,
    projects: String,
    files: Vec<String>,
    stored: Vec<String>,
    id: String,
    path: String,
    other: Option<String>,
    step: StepModel,
)
    requires
        cmd is Peek,
    ensures
        sessions_meant(
            known_sessions(text::views(files@), text::views(stored@)),
            cmd->session_ref@,
        ) == seq![id@] && follows(cmd, Reply::Sessions { projects, files, stored }, step) ==> step
            == (StepModel::FindTranscript { session_id: id@ }),
        follows(
            cmd,
            Reply::Transcript { session_id: id, projects, found: Some(path), stored: other },
            step,
        ) ==> step == (StepModel::LoadExchanges { session_id: id@, path: path@ }),
        follows(
            cmd,
            Reply::Transcript { session_id: id, projects, found: None, stored: Some(path) },
            step,
        ) ==> step == (StepModel::LoadExchanges { session_id: id@, path: path@ }),
        follows(
            cmd,
            Reply::Transcript { session_id: id, projects, found: None, stored: None },
            step,
        ) ==> (step matches StepModel::Done(out) && out.code == 1),
{
}

/// Where JSON was asked for, every hit is written, one row for each in the order
/// of the index; else the hits are printed in words, and that ends the search
/// without an error.
pub proof fn searches_show_every_hit(
    query: Seq<char>,
    hits: Vec<CliHit>,
    marks: Marks,
    written: Option<String>,
)
    ensures
        ({
            let step = search_step(query, true, Reply::Hits { hits, marks });
            &&& step matches StepModel::WriteJson(rows)
            &&& rows.len() == hits@.len()
            &&& forall|i: int|
                0 <= i < rows.len() ==> (#[trigger] rows[i]).session_id == hits@[i].session_id@
                    && rows[i].uuid == hits@[i].uuid@
        }),
        ({
            let step = search_step(query, false, Reply::Hits { hits, marks });
            &&& step matches StepModel::Done(out)
            &&& out.stdout == search::searched(query, hits@, marks)
            &&& out.stderr.len() == 0
            &&& out.code == 0
        }),
        ({
            let step = search_step(query, true, Reply::Json(written));
            &&& step matches StepModel::Done(out)
            &&& out.code == 0
            &&& out.stderr.len() == 0
            &&& written matches Some(rows) ==> out.stdout == rows@.push('\n')
        }),
{
    if let Some(rows) = written {
        search::json_is_one_line(rows@);
    }
}

/// A handoff goes on until it finishes, and then ends with what it printed last
/// and the exit code it finished with.
pub proof fn handoffs_end_where_they_finish(reaction: prepare::ReactionModel)
    ensures
        match handoff_step(reaction) {
            StepModel::Done(out) => {
                &&& reaction.next == (prepare::ActionModel::Finish { code: out.code })
                &&& out.stdout == reaction.stdout
                &&& out.stderr == reaction.stderr
            },
            StepModel::Handoff { stdout, stderr, next } => {
                &&& !(reaction.next is Finish)
                &&& next == reaction.next
                &&& stdout == reaction.stdout
                &&& stderr == reaction.stderr
            },
            _ => false,
        },
{
}

/// A handoff works with what was asked for on the command line.
pub proof fn handoffs_keep_their_arguments(
    session: String,
    tail: i64,
    tail_budget: i64,
    model: String,
    event: prepare::Event,
    step: StepModel,
)
    requires
        follows(
            CliCommand::Handoff { session, tail, tail_budget, model },
            Reply::Handoff(event),
            step,
        ),
    ensures
        event matches prepare::Event::Exchanges { count } && count > 0 && tail >= 0 && tail_budget
            >= 0 ==> (step matches StepModel::Handoff { next, .. } && next == (
        prepare::ActionModel::FitTail { tail: tail as int, budget: tail_budget as int })),
        event matches prepare::Event::StateTable { error: None, head_is_empty: false } ==> (step
            matches StepModel::Handoff { next, .. } && next == (prepare::ActionModel::Summarize {
            model: model@,
        })),
{
}

/// The session in a file is the file's name without its ending, and only such
/// files hold one: a name with another ending holds none.
pub proof fn sessions_are_named_by_their_files(id: Seq<char>, name: Seq<char>)
    ensures
        id.len() > 0 && !text::occurs_at(id, "agent-"@, 0) ==> session_of_file(id + ".jsonl"@)
            == Some(id),
        session_of_file(name) matches Some(found) ==> name == found + ".jsonl"@ && found.len() > 0
            && !text::occurs_at(found, "agent-"@, 0),
{
    reveal_strlit(".jsonl");
    let file = id + ".jsonl"@;
    assert(file.take(file.len() - 6) =~= id);
    assert(file.subrange(file.len() - 6, file.len() as int) =~= ".jsonl"@);
    if let Some(found) = session_of_file(name) {
        assert(name =~= name.take(name.len() - 6) + name.subrange(
            name.len() - 6,
            name.len() as int,
        ));
    }
}

/// A session is known exactly where it has a transcript file or is stored.
pub proof fn known_sessions_have_a_file_or_a_row(
    files: Seq<Seq<char>>,
    stored: Seq<Seq<char>>,
    id: Seq<char>,
)
    ensures
        known_sessions(files, stored).contains(id) <==> stored.contains(id) || (exists|i: int|
            0 <= i < files.len() && session_of_file(#[trigger] files[i]) == Some(id)),
    decreases files.len(),
{
    if files.len() > 0 {
        let rest = files.skip(1);
        known_sessions_have_a_file_or_a_row(rest, stored, id);
        let later = known_sessions(rest, stored);
        let all = known_sessions(files, stored);
        if let Some(first) = session_of_file(files[0]) {
            assert(all[0] == first);
            if all.contains(id) && first != id {
                let at = all.index_of(id);
                assert(later[at - 1] == id);
            }
            if later.contains(id) {
                assert(all[later.index_of(id) + 1] == id);
            }
        }
        if exists|i: int| 0 <= i < files.len() && session_of_file(#[trigger] files[i]) == Some(id) {
            let i = choose|i: int|
                0 <= i < files.len() && session_of_file(#[trigger] files[i]) == Some(id);
            if i > 0 {
                assert(rest[i - 1] == files[i]);
            }
        }
        if exists|i: int| 0 <= i < rest.len() && session_of_file(#[trigger] rest[i]) == Some(id) {
            let i = choose|i: int|
                0 <= i < rest.len() && session_of_file(#[trigger] rest[i]) == Some(id);
            assert(files[i + 1] == rest[i]);
        }
    }
}

/// The transcript is in the first directory that holds its file, and nowhere
/// where none does.
pub proof fn the_first_directory_is_taken(dirs: Seq<ProjectDir>, file: Seq<char>, from: int)
    requires
        0 <= from <= dirs.len(),
    ensures
        from <= directory_with(dirs, file, from) <= dirs.len(),
        forall|i: int|
            from <= i < directory_with(dirs, file, from) ==> !event::holds_file(
                #[trigger] dirs[i],
                file,
            ),
        directory_with(dirs, file, from) < dirs.len() ==> event::holds_file(
            dirs[directory_with(dirs, file, from)],
            file,
        ),
    decreases dirs.len() - from,
{
    if from < dirs.len() && !event::holds_file(dirs[from], file) {
        the_first_directory_is_taken(dirs, file, from + 1);
    }
}

/// A stored session is shown with its own name and project; a missing name, and
/// a session that is not stored, go by the start of the id.
pub proof fn stored_names_are_shown(
    stored: Option<StoredSession>,
    session_id: Seq<char>,
    directory: Option<Seq<char>>,
)
    ensures
        ({
            let (name, project) = shown_as(stored, session_id, directory);
            match stored {
                Some(row) => {
                    &&& row.custom_name matches Some(own) ==> name == own@
                    &&& row.custom_name is None ==> name == text::first_chars(session_id, 8)
                    &&& project == text::opt_view(row.project)
                },
                None => name == text::first_chars(session_id, 8) && project == directory,
            }
        }),
{
}

/// The exchanges that `peek` was told are shown as its arguments ask, under the
/// name and the project it was told; the ticket that `receive` was told is
/// printed word for word; and `search` writes JSON exactly where it was asked
/// to.
pub proof fn commands_use_their_arguments(cmd: CliCommand, reply: Reply, step: StepModel)
    requires
        follows(cmd, reply, step),
    ensures
        match (cmd, reply) {
            (
                CliCommand::Peek { last, range, grep, .. },
                Reply::Exchanges { session_id, display_name, project, exchanges },
            ) => {
                &&& step matches StepModel::Done(out)
                &&& grep is None ==> out == peek::peeked(
                    peek::exchanges_view(exchanges@),
                    session_id@,
                    display_name@,
                    text::opt_view(project),
                    last,
                    text::opt_view(range),
                    None,
                )
                &&& peek::peek_ends(
                    peek::exchanges_view(exchanges@),
                    session_id@,
                    display_name@,
                    text::opt_view(project),
                    last,
                    text::opt_view(range),
                    text::opt_view(grep),
                    out,
                )
            },
            (
                CliCommand::Receive { .. },
                Reply::Ticket(receive::Found::At { content: Ok(content), .. }),
            ) => step matches StepModel::Done(out) && out.stdout == content@ && out.code == 0,
            (CliCommand::Search { json, .. }, Reply::Hits { .. }) => (json <==> step is WriteJson)
                && (!json <==> step is Done),
            _ => true,
        },
{
}

} // verus!
