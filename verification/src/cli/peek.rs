//! `peek`: prints exchanges of another session.
//!
//! The unit is the exchange: one turn of the user and everything up to the
//! next one. A window of them is chosen in one of three ways: the last few, a
//! range, or all that match a pattern.

use vstd::prelude::*;
use vstd::string::*;

use crate::cli;
use crate::cli::Output;
use crate::cli::OutputModel;
use crate::text;

verus! {

/// One exchange, as far as it is printed and searched.
#[derive(Debug, Clone, PartialEq, Eq)]
pub struct Exchange {
    pub first_timestamp: Option<String>,
    pub last_timestamp: Option<String>,
    /// What is searched.
    pub text: String,
    /// What is printed.
    pub rendered: String,
}

pub struct ExchangeModel {
    pub first_timestamp: Option<Seq<char>>,
    pub last_timestamp: Option<Seq<char>>,
    pub text: Seq<char>,
    pub rendered: Seq<char>,
}

impl View for Exchange {
    type V = ExchangeModel;

    open spec fn view(&self) -> ExchangeModel {
        ExchangeModel {
            first_timestamp: text::opt_view(self.first_timestamp),
            last_timestamp: text::opt_view(self.last_timestamp),
            text: self.text@,
            rendered: self.rendered@,
        }
    }
}

pub open spec fn exchanges_view(v: Seq<Exchange>) -> Seq<ExchangeModel> {
    Seq::new(v.len(), |i: int| v[i]@)
}

/// The two numbers of `A:B` with `1 <= A <= B`, where they fit.
pub open spec fn range_of(raw: Seq<char>) -> Option<(usize, usize)> {
    match text::split_first(text::trim(raw), ':') {
        Some((left, right)) => match (text::parse_nat(left), text::parse_nat(right)) {
            (Some(a), Some(b)) => if 1 <= a <= b <= usize::MAX {
                Some((a as usize, b as usize))
            } else {
                None
            },
            _ => None,
        },
        None => None,
    }
}

/// Reads `A:B`, numbers of exchanges that count from one and are both part of
/// the range.
pub fn parse_range(raw: &str) -> (range: Option<(usize, usize)>)
    ensures
        range == range_of(raw@),
{
    let trimmed = text::trimmed(raw);
    let chars = text::chars_of(trimmed.as_str());
    match text::split_once(&chars, ':') {
        Some((left, right)) => {
            assert(left@.subrange(0, left@.len() as int) =~= left@);
            assert(right@.subrange(0, right@.len() as int) =~= right@);
            let a = text::parse_usize_range(&left, 0, left.len());
            let b = text::parse_usize_range(&right, 0, right.len());
            match (a, b) {
                (Some(a), Some(b)) => {
                    if a < 1 || b < a {
                        None
                    } else {
                        Some((a, b))
                    }
                },
                _ => None,
            }
        },
        None => None,
    }
}

/// Whether each number is one more than the number in front of it.
pub open spec fn contiguous(indices: Seq<usize>) -> bool {
    forall|i: int| 0 <= i < indices.len() ==> #[trigger] indices[i] == indices[0] + i
}

/// The numbers of a window in words: `3-7`, `4`, `2,5,9`, or `-` for none.
pub open spec fn index_label(indices: Seq<usize>) -> Seq<char> {
    if indices.len() == 0 {
        "-"@
    } else if contiguous(indices) {
        if indices.len() == 1 {
            text::decimal(indices[0] as nat)
        } else {
            text::decimal(indices[0] as nat) + "-"@ + text::decimal(indices.last() as nat)
        }
    } else {
        text::join(indices.map_values(|n: usize| text::decimal(n as nat)), ","@)
    }
}

fn is_contiguous(indices: &[usize]) -> (yes: bool)
    requires
        indices@.len() > 0,
    ensures
        yes == contiguous(indices@),
{
    let mut i: usize = 0;
    while i < indices.len()
        invariant
            indices@.len() > 0,
            i <= indices@.len(),
            forall|j: int| 0 <= j < i ==> #[trigger] indices@[j] == indices@[0] + j,
        decreases indices@.len() - i,
    {
        if indices[i] < i || indices[i] - i != indices[0] {
            return false;
        }
        i += 1;
    }
    true
}

/// The numbers of a window in words.
pub fn format_indices(indices: &[usize]) -> (label: String)
    ensures
        label@ == index_label(indices@),
{
    if indices.len() == 0 {
        return "-".to_owned();
    }
    if is_contiguous(indices) {
        let last: usize = indices[indices.len() - 1];
        let mut label = text::decimal_of(indices[0] as u64);
        if indices.len() > 1 {
            label.append("-");
            text::push_decimal(&mut label, last as u64);
        }
        return label;
    }
    let mut parts: Vec<String> = Vec::new();
    let mut i: usize = 0;
    let ghost all = indices@.map_values(|n: usize| text::decimal(n as nat));
    while i < indices.len()
        invariant
            i <= indices@.len(),
            all == indices@.map_values(|n: usize| text::decimal(n as nat)),
            text::views(parts@) == all.take(i as int),
        decreases indices@.len() - i,
    {
        let ghost before = text::views(parts@);
        parts.push(text::decimal_of(indices[i] as u64));
        assert(text::views(parts@) =~= before.push(all[i as int]));
        assert(all.take(i + 1) =~= all.take(i as int).push(all[i as int]));
        i += 1;
    }
    assert(all.take(i as int) =~= all);
    text::join_texts(&parts, ",")
}

/// Whether every number is that of an exchange.
pub open spec fn in_bounds(indices: Seq<usize>, total: nat) -> bool {
    forall|i: int| 0 <= i < indices.len() ==> 1 <= #[trigger] indices[i] <= total
}

/// The time at which the first exchange of a window that has one began.
pub open spec fn began(exchanges: Seq<ExchangeModel>, indices: Seq<usize>) -> Seq<char>
    decreases indices.len(),
{
    if indices.len() == 0 {
        "?"@
    } else {
        match exchanges[indices[0] - 1].first_timestamp {
            Some(at) => at,
            None => began(exchanges, indices.skip(1)),
        }
    }
}

/// The time at which the last exchange of a window that has one ended.
pub open spec fn ended(exchanges: Seq<ExchangeModel>, indices: Seq<usize>) -> Seq<char>
    decreases indices.len(),
{
    if indices.len() == 0 {
        "?"@
    } else {
        match exchanges[indices.last() - 1].last_timestamp {
            Some(at) => at,
            None => ended(exchanges, indices.drop_last()),
        }
    }
}

fn beginning(exchanges: &Vec<Exchange>, indices: &Vec<usize>) -> (at: String)
    requires
        in_bounds(indices@, exchanges@.len()),
    ensures
        at@ == began(exchanges_view(exchanges@), indices@),
{
    let ghost models = exchanges_view(exchanges@);
    let mut i: usize = 0;
    assert(indices@.skip(0) =~= indices@);
    while i < indices.len()
        invariant
            i <= indices@.len(),
            in_bounds(indices@, exchanges@.len()),
            models == exchanges_view(exchanges@),
            began(models, indices@) == began(models, indices@.skip(i as int)),
        decreases indices@.len() - i,
    {
        let n: usize = indices[i];
        assert(models[n - 1] == exchanges@[n - 1]@);
        assert(indices@.skip(i as int).skip(1) =~= indices@.skip(i + 1));
        match &exchanges[n - 1].first_timestamp {
            Some(at) => {
                return at.clone();
            },
            None => {},
        }
        i += 1;
    }
    "?".to_owned()
}

fn ending(exchanges: &Vec<Exchange>, indices: &Vec<usize>) -> (at: String)
    requires
        in_bounds(indices@, exchanges@.len()),
    ensures
        at@ == ended(exchanges_view(exchanges@), indices@),
{
    let ghost models = exchanges_view(exchanges@);
    let mut i: usize = indices.len();
    assert(indices@.take(i as int) =~= indices@);
    while i > 0
        invariant
            i <= indices@.len(),
            in_bounds(indices@, exchanges@.len()),
            models == exchanges_view(exchanges@),
            ended(models, indices@) == ended(models, indices@.take(i as int)),
        decreases i,
    {
        i -= 1;
        let n: usize = indices[i];
        assert(models[n - 1] == exchanges@[n - 1]@);
        assert(indices@.take(i + 1).drop_last() =~= indices@.take(i as int));
        match &exchanges[n - 1].last_timestamp {
            Some(at) => {
                return at.clone();
            },
            None => {},
        }
    }
    "?".to_owned()
}

/// The line above a window: where it comes from, what time it spans and which
/// exchanges it holds.
pub open spec fn window_header(
    exchanges: Seq<ExchangeModel>,
    indices: Seq<usize>,
    name: Seq<char>,
    project: Option<Seq<char>>,
) -> Seq<char> {
    "[From \""@ + name + "\" — "@ + match project {
        Some(p) => p,
        None => "unknown project"@,
    } + " — "@ + began(exchanges, indices) + ".."@ + ended(exchanges, indices) + " — "@
        + if indices.len() == 1 {
        "exchange"@
    } else {
        "exchanges"@
    } + " "@ + index_label(indices) + " of "@ + text::decimal(exchanges.len()) + "]\n"@
}

/// The exchanges of a window, an empty line in front of each.
pub open spec fn window_body(exchanges: Seq<ExchangeModel>, indices: Seq<usize>) -> Seq<char>
    decreases indices.len(),
{
    if indices.len() == 0 {
        Seq::empty()
    } else {
        window_body(exchanges, indices.drop_last()) + "\n"@ + exchanges[indices.last()
            - 1].rendered + "\n"@
    }
}

/// What is printed of the chosen exchanges.
pub fn print_window(
    exchanges: &Vec<Exchange>,
    indices: &Vec<usize>,
    display_name: &str,
    project: &Option<String>,
) -> (out: String)
    requires
        in_bounds(indices@, exchanges@.len()),
    ensures
        out@ == window_header(
            exchanges_view(exchanges@),
            indices@,
            display_name@,
            text::opt_view(*project),
        ) + window_body(exchanges_view(exchanges@), indices@),
{
    let ghost models = exchanges_view(exchanges@);
    let mut out = "[From \"".to_owned();
    out.append(display_name);
    out.append("\" — ");
    match project {
        Some(p) => out.append(p.as_str()),
        None => out.append("unknown project"),
    }
    out.append(" — ");
    out.append(beginning(exchanges, indices).as_str());
    out.append("..");
    out.append(ending(exchanges, indices).as_str());
    out.append(" — ");
    if indices.len() == 1 {
        out.append("exchange");
    } else {
        out.append("exchanges");
    }
    out.append(" ");
    out.append(format_indices(indices.as_slice()).as_str());
    out.append(" of ");
    text::push_decimal(&mut out, exchanges.len() as u64);
    out.append("]\n");
    let ghost header = window_header(models, indices@, display_name@, text::opt_view(*project));
    assert(out@ == header);
    let mut i: usize = 0;
    assert(out@ =~= header + window_body(models, indices@.take(0)));
    while i < indices.len()
        invariant
            i <= indices@.len(),
            in_bounds(indices@, exchanges@.len()),
            models == exchanges_view(exchanges@),
            out@ == header + window_body(models, indices@.take(i as int)),
        decreases indices@.len() - i,
    {
        let n: usize = indices[i];
        assert(models[n - 1] == exchanges@[n - 1]@);
        assert(indices@.take(i + 1).drop_last() =~= indices@.take(i as int));
        out.append("\n");
        out.append(exchanges[n - 1].rendered.as_str());
        out.append("\n");
        i += 1;
        assert(out@ =~= header + window_body(models, indices@.take(i as int)));
    }
    assert(indices@.take(i as int) =~= indices@);
    out
}

/// What `peek` does with the sessions that it can mean: it goes on with the
/// only one, or ends.
pub open spec fn session_chosen(
    session_ref: Seq<char>,
    projects: Seq<char>,
    meant: Seq<Seq<char>>,
) -> Result<Seq<char>, OutputModel> {
    if meant.len() == 0 {
        Err(
            cli::failed(
                "threadhop peek: no session matches '"@ + session_ref + "' (searched "@ + projects
                    + " and the ThreadHop DB).\n"@,
                1,
            ),
        )
    } else if meant.len() > 1 {
        Err(
            cli::failed(
                "threadhop peek: '"@ + session_ref + "' is ambiguous — "@ + text::decimal(
                    meant.len(),
                ) + " sessions match:\n"@ + indented(meant),
                2,
            ),
        )
    } else {
        Ok(meant[0])
    }
}

/// One line for each text, indented.
pub open spec fn indented(lines: Seq<Seq<char>>) -> Seq<char>
    decreases lines.len(),
{
    if lines.len() == 0 {
        Seq::empty()
    } else {
        indented(lines.drop_last()) + "  "@ + lines.last() + "\n"@
    }
}

pub open spec fn step_view(step: Result<String, Output>) -> Result<Seq<char>, OutputModel> {
    match step {
        Ok(s) => Ok(s@),
        Err(out) => Err(out@),
    }
}

/// The session that `session_ref` means, among those with a transcript file
/// and the stored ones; or how the command ends. `projects` is the directory
/// that was searched.
pub fn cmd_peek(
    session_ref: &str,
    projects: &str,
    files: &Vec<String>,
    stored: &Vec<String>,
) -> (step: Result<String, Output>)
    ensures
        step_view(step) == session_chosen(
            session_ref@,
            projects@,
            cli::sessions_meant(
                cli::known_sessions(text::views(files@), text::views(stored@)),
                session_ref@,
            ),
        ),
{
    let mut matches = cli::resolve_session_prefix(files, stored, session_ref);
    let ghost meant = text::views(matches@);
    if matches.len() == 0 {
        let mut message = "threadhop peek: no session matches '".to_owned();
        message.append(session_ref);
        message.append("' (searched ");
        message.append(projects);
        message.append(" and the ThreadHop DB).\n");
        return Err(cli::fail(message, 1));
    }
    if matches.len() > 1 {
        let mut message = "threadhop peek: '".to_owned();
        message.append(session_ref);
        message.append("' is ambiguous — ");
        text::push_decimal(&mut message, matches.len() as u64);
        message.append(" sessions match:\n");
        let ghost head = message@;
        let mut i: usize = 0;
        assert(message@ =~= head + indented(meant.take(0)));
        while i < matches.len()
            invariant
                i <= matches@.len(),
                meant == text::views(matches@),
                message@ == head + indented(meant.take(i as int)),
            decreases matches@.len() - i,
        {
            assert(meant.take(i + 1).drop_last() =~= meant.take(i as int));
            message.append("  ");
            message.append(matches[i].as_str());
            message.append("\n");
            i += 1;
            assert(message@ =~= head + indented(meant.take(i as int)));
        }
        assert(meant.take(i as int) =~= meant);
        return Err(cli::fail(message, 2));
    }
    assert(meant[0] == matches@[0]@);
    Ok(matches.remove(0))
}

/// Where the transcript of the session is: the file that was found, else the
/// stored one, where that is a file.
pub open spec fn transcript_chosen(
    session_id: Seq<char>,
    projects: Seq<char>,
    found: Option<Seq<char>>,
    stored: Option<Seq<char>>,
) -> Result<Seq<char>, OutputModel> {
    match found {
        Some(path) => Ok(path),
        None => match stored {
            Some(path) => Ok(path),
            None => Err(
                cli::failed(
                    "threadhop peek: no transcript found for session "@ + session_id + " under "@
                        + projects + ".\n"@,
                    1,
                ),
            ),
        },
    }
}

/// Where the transcript of the session is, or how the command ends. `found`
/// is the file below `projects`, and `stored` the stored path, where that is
/// a file.
pub fn choose_transcript(
    session_id: &str,
    projects: &str,
    found: Option<String>,
    stored: Option<String>,
) -> (step: Result<String, Output>)
    ensures
        step_view(step) == transcript_chosen(
            session_id@,
            projects@,
            text::opt_view(found),
            text::opt_view(stored),
        ),
{
    match found {
        Some(path) => Ok(path),
        None => match stored {
            Some(path) => Ok(path),
            None => {
                let mut message = "threadhop peek: no transcript found for session ".to_owned();
                message.append(session_id);
                message.append(" under ");
                message.append(projects);
                message.append(".\n");
                Err(cli::fail(message, 1))
            },
        },
    }
}

/// What a pattern's syntax error says. `None` for a pattern without one.
pub uninterp spec fn pattern_error(pattern: Seq<char>) -> Option<Seq<char>>;

/// Whether a pattern without syntax errors matches somewhere in a text, with
/// letters of either case standing for each other.
pub uninterp spec fn pattern_found(pattern: Seq<char>, text: Seq<char>) -> bool;

/// Why a pattern was refused.
#[derive(Debug, PartialEq, Eq)]
pub enum PatternError {
    /// It is malformed.
    Syntax(String),
    /// Its compiled form takes too much memory.
    TooBig(String),
}

/// Compiles a pattern with `regex::RegexBuilder::build`, case-insensitive and
/// with the limits that the builder sets by itself, and asks
/// `regex::Regex::is_match` of a text. The contract claims that a malformed
/// pattern is refused with an error that depends on the pattern alone, and
/// that the answer for any other depends on the pattern and the text alone.
/// When a well-formed pattern is refused for its size is left open: the limit
/// is on the memory that the compiled form takes.
#[verifier::external_body]
fn pattern_matches(pattern: &str, text: &str) -> (answer: Result<bool, PatternError>)
    ensures
        match pattern_error(pattern@) {
            Some(e) => answer matches Err(PatternError::Syntax(m)) && m@ == e,
            None => answer matches Ok(yes) && yes == pattern_found(pattern@, text@)
                || answer matches Err(PatternError::TooBig(_)),
        },
{
    match regex::RegexBuilder::new(pattern).case_insensitive(true).build() {
        Ok(compiled) => Ok(compiled.is_match(text)),
        Err(regex::Error::CompiledTooBig(limit)) => Err(
            PatternError::TooBig(regex::Error::CompiledTooBig(limit).to_string()),
        ),
        Err(e) => Err(PatternError::Syntax(e.to_string())),
    }
}

pub open spec fn flags_view(flags: Result<Vec<bool>, String>) -> Result<Seq<bool>, Seq<char>> {
    match flags {
        Ok(v) => Ok(v@),
        Err(e) => Err(e@),
    }
}

/// Whether `flags` is what asking for a pattern in each exchange can come to:
/// the pattern's error, or for each exchange whether it matches. A
/// well-formed pattern may still be refused for its size.
pub open spec fn grep_reply(
    pattern: Seq<char>,
    exchanges: Seq<ExchangeModel>,
    flags: Result<Seq<bool>, Seq<char>>,
) -> bool {
    match pattern_error(pattern) {
        Some(e) => flags == Result::<Seq<bool>, Seq<char>>::Err(e),
        None => flags matches Ok(found) ==> found == Seq::new(
            exchanges.len(),
            |i: int| pattern_found(pattern, exchanges[i].text),
        ),
    }
}

/// Asks for a pattern in each exchange.
pub fn grep_exchanges(pattern: &str, exchanges: &Vec<Exchange>) -> (flags: Result<
    Vec<bool>,
    String,
>)
    requires
        exchanges@.len() > 0,
    ensures
        grep_reply(pattern@, exchanges_view(exchanges@), flags_view(flags)),
{
    let ghost models = exchanges_view(exchanges@);
    let mut flags: Vec<bool> = Vec::new();
    let mut i: usize = 0;
    while i < exchanges.len()
        invariant
            i <= exchanges@.len(),
            i > 0 ==> pattern_error(pattern@) is None,
            models == exchanges_view(exchanges@),
            flags@ == Seq::new(i as nat, |j: int| pattern_found(pattern@, models[j].text)),
        decreases exchanges@.len() - i,
    {
        assert(models[i as int] == exchanges@[i as int]@);
        match pattern_matches(pattern, exchanges[i].text.as_str()) {
            Ok(yes) => {
                flags.push(yes);
            },
            Err(PatternError::Syntax(e)) => {
                return Err(e);
            },
            Err(PatternError::TooBig(e)) => {
                return Err(e);
            },
        }
        i += 1;
        assert(flags@ =~= Seq::new(i as nat, |j: int| pattern_found(pattern@, models[j].text)));
    }
    Ok(flags)
}

/// The numbers, counted from one, of the exchanges that match.
pub open spec fn hits(flags: Seq<bool>) -> Seq<usize>
    decreases flags.len(),
{
    if flags.len() == 0 {
        Seq::empty()
    } else if flags.last() {
        hits(flags.drop_last()).push(flags.len() as usize)
    } else {
        hits(flags.drop_last())
    }
}

/// The numbers from `a` to `b`.
pub open spec fn numbers(a: nat, b: nat) -> Seq<usize> {
    Seq::new((b + 1 - a) as nat, |i: int| (a + i) as usize)
}

/// The exchanges that were asked for, or how the command ends. `grep` is the
/// pattern and what came of it.
pub open spec fn window_chosen(
    short: Seq<char>,
    total: nat,
    last: Option<i64>,
    range: Option<Seq<char>>,
    grep: Option<(Seq<char>, Result<Seq<bool>, Seq<char>>)>,
) -> Result<Seq<usize>, OutputModel> {
    if let Some((pattern, flags)) = grep {
        match flags {
            Err(e) => Err(cli::failed("threadhop peek: invalid --grep regex: "@ + e + "\n"@, 2)),
            Ok(flags) => if hits(flags).len() == 0 {
                Err(
                    cli::failed(
                        "threadhop peek: no exchanges match '"@ + pattern + "' in session "@ + short
                            + " ("@ + text::decimal(total) + " exchanges scanned).\n"@,
                        1,
                    ),
                )
            } else {
                Ok(hits(flags))
            },
        }
    } else if let Some(raw) = range {
        match range_of(raw) {
            None => Err(
                cli::failed(
                    "threadhop peek: invalid --range '"@ + raw
                        + "' (expected A:B with 1 <= A <= B, 1-based inclusive).\n"@,
                    2,
                ),
            ),
            Some((a, b)) => if a > total {
                Err(
                    cli::failed(
                        "threadhop peek: --range "@ + raw + " is out of bounds — session has "@
                            + text::decimal(total) + " exchange(s).\n"@,
                        1,
                    ),
                )
            } else {
                Ok(
                    numbers(
                        a as nat,
                        if b <= total {
                            b as nat
                        } else {
                            total
                        },
                    ),
                )
            },
        }
    } else {
        let n = match last {
            Some(n) => n as int,
            None => 5,
        };
        if n < 1 {
            Err(cli::failed("threadhop peek: --last must be >= 1.\n"@, 2))
        } else {
            Ok(
                numbers(
                    if n <= total {
                        (total - n + 1) as nat
                    } else {
                        1
                    },
                    total,
                ),
            )
        }
    }
}

proof fn hits_are_in_bounds(flags: Seq<bool>)
    requires
        flags.len() <= usize::MAX,
    ensures
        in_bounds(hits(flags), flags.len()),
    decreases flags.len(),
{
    if flags.len() > 0 {
        hits_are_in_bounds(flags.drop_last());
    }
}

fn collect_hits(flags: &Vec<bool>) -> (out: Vec<usize>)
    ensures
        out@ == hits(flags@),
{
    let mut out: Vec<usize> = Vec::new();
    let mut i: usize = 0;
    assert(out@ =~= hits(flags@.take(0)));
    while i < flags.len()
        invariant
            i <= flags@.len(),
            out@ == hits(flags@.take(i as int)),
        decreases flags@.len() - i,
    {
        assert(flags@.take(i + 1).drop_last() =~= flags@.take(i as int));
        assert(flags@.take(i + 1).last() == flags@[i as int]);
        i += 1;
        if flags[i - 1] {
            out.push(i);
        }
    }
    assert(flags@.take(i as int) =~= flags@);
    out
}

fn count_up(a: usize, b: usize) -> (out: Vec<usize>)
    requires
        1 <= a <= b,
    ensures
        out@ == numbers(a as nat, b as nat),
{
    let mut out: Vec<usize> = Vec::new();
    let mut n: usize = a;
    while n < b
        invariant
            1 <= a <= n <= b,
            out@ == Seq::new((n - a) as nat, |i: int| (a + i) as usize),
        decreases b - n,
    {
        out.push(n);
        n += 1;
        assert(out@ =~= Seq::new((n - a) as nat, |i: int| (a + i) as usize));
    }
    out.push(n);
    assert(out@ =~= numbers(a as nat, b as nat));
    out
}

pub open spec fn window_view(window: Result<Vec<usize>, Output>) -> Result<
    Seq<usize>,
    OutputModel,
> {
    match window {
        Ok(v) => Ok(v@),
        Err(out) => Err(out@),
    }
}

pub open spec fn grep_view(grep: Option<(String, Result<Vec<bool>, String>)>) -> Option<
    (Seq<char>, Result<Seq<bool>, Seq<char>>),
> {
    match grep {
        Some((pattern, flags)) => Some((pattern@, flags_view(flags))),
        None => None,
    }
}

/// The numbers of the exchanges that were asked for, or how the command ends.
/// A pattern comes before a range, and a range before the last few.
pub fn choose_window(
    short: &str,
    total: usize,
    last: Option<i64>,
    range: &Option<String>,
    grep: &Option<(String, Result<Vec<bool>, String>)>,
) -> (window: Result<Vec<usize>, Output>)
    requires
        total > 0,
        *grep matches Some((_, Ok(flags))) ==> flags@.len() == total,
    ensures
        window_view(window) == window_chosen(
            short@,
            total as nat,
            last,
            text::opt_view(*range),
            grep_view(*grep),
        ),
        window matches Ok(indices) ==> in_bounds(indices@, total as nat),
{
    if let Some((pattern, flags)) = grep {
        return match flags {
            Err(e) => {
                let mut message = "threadhop peek: invalid --grep regex: ".to_owned();
                message.append(e.as_str());
                message.append("\n");
                Err(cli::fail(message, 2))
            },
            Ok(flags) => {
                let out = collect_hits(flags);
                proof {
                    hits_are_in_bounds(flags@);
                }
                if out.len() == 0 {
                    let mut message = "threadhop peek: no exchanges match '".to_owned();
                    message.append(pattern.as_str());
                    message.append("' in session ");
                    message.append(short);
                    message.append(" (");
                    text::push_decimal(&mut message, total as u64);
                    message.append(" exchanges scanned).\n");
                    Err(cli::fail(message, 1))
                } else {
                    Ok(out)
                }
            },
        };
    }
    if let Some(raw) = range {
        return match parse_range(raw.as_str()) {
            None => {
                let mut message = "threadhop peek: invalid --range '".to_owned();
                message.append(raw.as_str());
                message.append("' (expected A:B with 1 <= A <= B, 1-based inclusive).\n");
                Err(cli::fail(message, 2))
            },
            Some((a, b)) => {
                if a > total {
                    let mut message = "threadhop peek: --range ".to_owned();
                    message.append(raw.as_str());
                    message.append(" is out of bounds — session has ");
                    text::push_decimal(&mut message, total as u64);
                    message.append(" exchange(s).\n");
                    Err(cli::fail(message, 1))
                } else {
                    let end: usize = if b <= total {
                        b
                    } else {
                        total
                    };
                    Ok(count_up(a, end))
                }
            },
        };
    }
    let n: i64 = match last {
        Some(n) => n,
        None => 5,
    };
    if n < 1 {
        return Err(cli::fail("threadhop peek: --last must be >= 1.\n".to_owned(), 2));
    }
    let first: usize = if n as u64 <= total as u64 {
        total - n as usize + 1
    } else {
        1
    };
    Ok(count_up(first, total))
}

/// How `peek` ends once the transcript has been read. `grep` is the pattern
/// and what came of it.
pub open spec fn peeked(
    exchanges: Seq<ExchangeModel>,
    session_id: Seq<char>,
    name: Seq<char>,
    project: Option<Seq<char>>,
    last: Option<i64>,
    range: Option<Seq<char>>,
    grep: Option<(Seq<char>, Result<Seq<bool>, Seq<char>>)>,
) -> OutputModel {
    let short = text::first_chars(session_id, 8);
    if exchanges.len() == 0 {
        cli::failed(
            "threadhop peek: session "@ + short
                + " has no user/assistant exchanges (may be empty or contain only tool output).\n"@,
            1,
        )
    } else {
        match window_chosen(short, exchanges.len(), last, range, grep) {
            Err(out) => out,
            Ok(indices) => cli::printed(
                window_header(exchanges, indices, name, project) + window_body(exchanges, indices),
            ),
        }
    }
}

/// Prints the exchanges that were asked for. `grep` is the pattern and what
/// came of it.
pub fn show_exchanges(
    exchanges: &Vec<Exchange>,
    session_id: &str,
    display_name: &str,
    project: &Option<String>,
    last: Option<i64>,
    range: &Option<String>,
    grep: &Option<(String, Result<Vec<bool>, String>)>,
) -> (out: Output)
    requires
        *grep matches Some((_, Ok(flags))) ==> flags@.len() == exchanges@.len(),
    ensures
        out@ == peeked(
            exchanges_view(exchanges@),
            session_id@,
            display_name@,
            text::opt_view(*project),
            last,
            text::opt_view(*range),
            grep_view(*grep),
        ),
{
    let short = text::take_chars(session_id, 8);
    if exchanges.len() == 0 {
        let mut message = "threadhop peek: session ".to_owned();
        message.append(short.as_str());
        message.append(
            " has no user/assistant exchanges (may be empty or contain only tool output).\n",
        );
        return cli::fail(message, 1);
    }
    match choose_window(short.as_str(), exchanges.len(), last, range, grep) {
        Err(out) => out,
        Ok(indices) => cli::print(print_window(exchanges, &indices, display_name, project)),
    }
}

/// Whether `out` is how `peek` ends once the transcript has been read, whatever
/// asking for the pattern came to.
pub open spec fn peek_ends(
    exchanges: Seq<ExchangeModel>,
    session_id: Seq<char>,
    name: Seq<char>,
    project: Option<Seq<char>>,
    last: Option<i64>,
    range: Option<Seq<char>>,
    grep: Option<Seq<char>>,
    out: OutputModel,
) -> bool {
    if grep is None || exchanges.len() == 0 {
        out == peeked(exchanges, session_id, name, project, last, range, None)
    } else {
        exists|flags: Result<Seq<bool>, Seq<char>>| #[trigger]
            grep_reply(grep.unwrap(), exchanges, flags) && out == peeked(
                exchanges,
                session_id,
                name,
                project,
                last,
                range,
                Some((grep.unwrap(), flags)),
            )
    }
}

/// Ends `peek` once the transcript has been read: asks for the pattern, where
/// there is one, and prints the exchanges that were asked for.
pub fn peek_transcript(
    exchanges: &Vec<Exchange>,
    session_id: &str,
    display_name: &str,
    project: &Option<String>,
    last: Option<i64>,
    range: &Option<String>,
    grep: &Option<String>,
) -> (out: Output)
    ensures
        peek_ends(
            exchanges_view(exchanges@),
            session_id@,
            display_name@,
            text::opt_view(*project),
            last,
            text::opt_view(*range),
            text::opt_view(*grep),
            out@,
        ),
{
    match grep {
        Some(pattern) if exchanges.len() > 0 => {
            let flags = grep_exchanges(pattern.as_str(), exchanges);
            let ghost reply = flags_view(flags);
            assert(grep_reply(
                text::opt_view(*grep).unwrap(),
                exchanges_view(exchanges@),
                reply,
            ));
            let asked = Some((pattern.clone(), flags));
            show_exchanges(exchanges, session_id, display_name, project, last, range, &asked)
        },
        _ => show_exchanges(exchanges, session_id, display_name, project, last, range, &None),
    }
}

/// Without any choice of a window `peek` shows the last five exchanges.
pub proof fn the_last_five_by_default(short: Seq<char>, total: nat)
    ensures
        window_chosen(short, total, None, None, None) == window_chosen(
            short,
            total,
            Some(5),
            None,
            None,
        ),
{
}

/// The last `n` exchanges are the range that ends with the last one and holds
/// `n`.
pub proof fn the_last_few_are_a_range(short: Seq<char>, total: nat, n: i64, raw: Seq<char>)
    requires
        1 <= n <= total <= usize::MAX,
        range_of(raw) == Some(((total - n + 1) as usize, total as usize)),
    ensures
        window_chosen(short, total, Some(n), None, None) == window_chosen(
            short,
            total,
            None,
            Some(raw),
            None,
        ),
{
}

/// A pattern picks exactly the exchanges that match, each once and in order.
pub proof fn hits_are_the_matches(flags: Seq<bool>)
    requires
        flags.len() <= usize::MAX,
    ensures
        forall|n: usize| #[trigger]
            hits(flags).contains(n) <==> 1 <= n <= flags.len() && flags[n - 1],
        forall|i: int, j: int|
            0 <= i < j < hits(flags).len() ==> #[trigger] hits(flags)[i] < #[trigger] hits(
                flags,
            )[j],
    decreases flags.len(),
{
    hits_are_in_bounds(flags);
    if flags.len() > 0 {
        let shorter = flags.drop_last();
        hits_are_the_matches(shorter);
        hits_are_in_bounds(shorter);
        let before = hits(shorter);
        assert forall|n: usize| #[trigger] hits(flags).contains(n) implies 1 <= n <= flags.len()
            && flags[n - 1] by {
            let at = hits(flags).index_of(n);
            if at < before.len() {
                assert(before[at] == n);
                assert(before.contains(n));
            }
        }
        assert forall|n: usize| 1 <= n <= flags.len() && flags[n - 1] implies #[trigger] hits(
            flags,
        ).contains(n) by {
            if n < flags.len() {
                assert(before.contains(n));
                assert(hits(flags)[before.index_of(n)] == n);
            } else {
                assert(hits(flags)[before.len() as int] == n);
            }
        }
    }
}

/// Every window that `peek` prints is made of exchanges that are there.
pub proof fn windows_are_in_bounds(
    short: Seq<char>,
    total: nat,
    last: Option<i64>,
    range: Option<Seq<char>>,
    grep: Option<(Seq<char>, Result<Seq<bool>, Seq<char>>)>,
)
    requires
        0 < total <= usize::MAX,
        grep matches Some((_, Ok(flags))) ==> flags.len() == total,
    ensures
        window_chosen(short, total, last, range, grep) matches Ok(indices) ==> in_bounds(
            indices,
            total,
        ) && indices.len() > 0,
{
    if let Some((_, Ok(flags))) = grep {
        hits_are_in_bounds(flags);
    }
}

/// Whether each number is larger than the number in front of it.
pub open spec fn increasing(indices: Seq<usize>) -> bool {
    forall|i: int, j: int|
        0 <= i < j < indices.len() ==> #[trigger] indices[i] < #[trigger] indices[j]
}

/// The separator that a label's numbers are taken apart at.
spec fn label_mark(indices: Seq<usize>) -> char {
    if indices.len() > 0 && contiguous(indices) {
        '-'
    } else {
        ','
    }
}

/// The numbers that a label spells out.
spec fn label_parts(indices: Seq<usize>) -> Seq<Seq<char>> {
    if contiguous(indices) {
        if indices.len() == 1 {
            seq![text::decimal(indices[0] as nat)]
        } else {
            seq![text::decimal(indices[0] as nat), text::decimal(indices.last() as nat)]
        }
    } else {
        indices.map_values(|n: usize| text::decimal(n as nat))
    }
}

proof fn decimals_hold_no_mark(n: nat)
    ensures
        !text::decimal(n).contains('-'),
        !text::decimal(n).contains(','),
        text::decimal(n).len() > 0,
{
    text::decimals_tell_numbers(n, n);
    assert forall|i: int| 0 <= i < text::decimal(n).len() implies text::decimal(n)[i] != '-'
        && text::decimal(n)[i] != ',' by {
        assert(text::is_digit(text::decimal(n)[i]));
    }
}

/// A label is its parts with the mark between them.
proof fn labels_are_joined(indices: Seq<usize>)
    requires
        indices.len() > 0,
    ensures
        index_label(indices) == text::join(label_parts(indices), seq![label_mark(indices)]),
        text::split_all(index_label(indices), label_mark(indices)) == label_parts(indices),
        label_parts(indices).len() > 0,
        forall|k: int|
            0 <= k < label_parts(indices).len() ==> !(#[trigger] label_parts(indices)[k]).contains(
                '-',
            ) && !label_parts(indices)[k].contains(',') && label_parts(indices)[k].len() > 0,
{
    reveal_strlit("-");
    reveal_strlit(",");
    assert("-"@ =~= seq!['-']);
    assert(","@ =~= seq![',']);
    let parts = label_parts(indices);
    assert forall|k: int| 0 <= k < parts.len() implies !(#[trigger] parts[k]).contains('-')
        && !parts[k].contains(',') && parts[k].len() > 0 by {
        decimals_hold_no_mark(indices[0] as nat);
        decimals_hold_no_mark(indices.last() as nat);
        if !contiguous(indices) {
            decimals_hold_no_mark(indices[k] as nat);
        }
    }
    if contiguous(indices) {
        text::join_from_the_front(parts, seq!['-']);
        if indices.len() > 1 {
            assert(parts.skip(1) =~= seq![parts[1]]);
            text::join_from_the_front(parts.skip(1), seq!['-']);
        }
    }
    text::joined_parts_come_apart(parts, label_mark(indices));
}

proof fn joined_holds_the_mark(parts: Seq<Seq<char>>, mark: char)
    requires
        parts.len() > 1,
    ensures
        text::join(parts, seq![mark]).contains(mark),
{
    text::join_from_the_front(parts, seq![mark]);
    let whole = text::join(parts, seq![mark]);
    assert(whole[parts[0].len() as int] == mark);
}

proof fn joined_holds_no_other(parts: Seq<Seq<char>>, mark: char, other: char)
    requires
        mark != other,
        forall|k: int| 0 <= k < parts.len() ==> !(#[trigger] parts[k]).contains(other),
    ensures
        !text::join(parts, seq![mark]).contains(other),
    decreases parts.len(),
{
    if parts.len() == 1 {
        assert(!parts[0].contains(other));
    } else if parts.len() > 1 {
        let rest = parts.skip(1);
        assert forall|k: int| 0 <= k < rest.len() implies !(#[trigger] rest[k]).contains(other) by {
            assert(!parts[k + 1].contains(other));
        }
        joined_holds_no_other(rest, mark, other);
        text::join_from_the_front(parts, seq![mark]);
        let whole = text::join(parts, seq![mark]);
        let tail = text::join(rest, seq![mark]);
        assert(!parts[0].contains(other));
        assert forall|i: int| 0 <= i < whole.len() implies whole[i] != other by {
            if i < parts[0].len() {
                assert(whole[i] == parts[0][i]);
                assert(parts[0].contains(parts[0][i]));
            } else if i > parts[0].len() {
                assert(whole[i] == tail[i - parts[0].len() - 1]);
                assert(tail.contains(tail[i - parts[0].len() - 1]));
            }
        }
    }
}

proof fn parts_tell_windows(x: Seq<usize>, y: Seq<usize>)
    requires
        x.len() > 0,
        y.len() > 0,
        contiguous(x) == contiguous(y),
        label_parts(x) == label_parts(y),
    ensures
        x == y,
{
    let (p, q) = (label_parts(x), label_parts(y));
    if contiguous(x) {
        text::decimals_tell_numbers(x[0] as nat, y[0] as nat);
        text::decimals_tell_numbers(x.last() as nat, y.last() as nat);
        assert(p[0] == q[0]);
        assert(p[p.len() - 1] == q[q.len() - 1]);
        assert(x[0] == y[0]);
        assert(x[x.len() - 1] == x[0] + x.len() - 1);
        assert(y[y.len() - 1] == y[0] + y.len() - 1);
        if x.len() == 1 {
            assert(q.len() == 1);
        }
        assert(x.len() == y.len());
        assert forall|i: int| 0 <= i < x.len() implies x[i] == y[i] by {
            assert(x[i] == x[0] + i && y[i] == y[0] + i);
        }
    } else {
        assert(p.len() == x.len() && q.len() == y.len());
        assert forall|i: int| 0 <= i < x.len() implies x[i] == y[i] by {
            text::decimals_tell_numbers(x[i] as nat, y[i] as nat);
            assert(p[i] == text::decimal(x[i] as nat));
            assert(q[i] == text::decimal(y[i] as nat));
        }
    }
    assert(x =~= y);
}

/// The label of a window tells the window: two increasing lists of numbers
/// have the same label only where they are the same list.
pub proof fn labels_tell_windows(x: Seq<usize>, y: Seq<usize>)
    requires
        increasing(x),
        increasing(y),
    ensures
        index_label(x) == index_label(y) <==> x == y,
{
    reveal_strlit("-");
    assert("-"@ =~= seq!['-']);
    if index_label(x) == index_label(y) {
        if x.len() == 0 || y.len() == 0 {
            if x.len() > 0 {
                nothing_else_is_a_dash(x);
            }
            if y.len() > 0 {
                nothing_else_is_a_dash(y);
            }
            assert(x =~= y);
        } else {
            labels_are_joined(x);
            labels_are_joined(y);
            if contiguous(x) != contiguous(y) {
                let sparse = if contiguous(x) {
                    y
                } else {
                    x
                };
                let dense = if contiguous(x) {
                    x
                } else {
                    y
                };
                assert(sparse.len() > 1);
                joined_holds_the_mark(label_parts(sparse), ',');
                joined_holds_no_other(label_parts(dense), '-', ',');
            } else {
                parts_tell_windows(x, y);
            }
        }
    }
}

proof fn nothing_else_is_a_dash(x: Seq<usize>)
    requires
        x.len() > 0,
    ensures
        index_label(x) != seq!['-'],
{
    labels_are_joined(x);
    let parts = label_parts(x);
    assert(!parts[0].contains('-') && parts[0].len() > 0);
    text::join_from_the_front(parts, seq![label_mark(x)]);
    assert(index_label(x)[0] == parts[0][0]);
    assert(parts[0].contains(parts[0][0]));
}

/// A text without white space is its own trimmed form.
proof fn solid_texts_stay(s: Seq<char>)
    requires
        forall|i: int| 0 <= i < s.len() ==> !text::is_space(#[trigger] s[i]),
    ensures
        text::trim(s) == s,
{
    text::trimming_drops_the_ends(s);
    let (a, b) = choose|a: int, b: int|
        0 <= a <= b <= s.len() && #[trigger] s.subrange(a, b) == text::trim(s) && (forall|i: int|
            0 <= i < a || b <= i < s.len() ==> text::is_space(#[trigger] s[i]));
    if a > 0 {
        assert(text::is_space(s[0]));
    }
    if b < s.len() {
        assert(text::is_space(s[b]));
    }
    assert(s.subrange(a, b) =~= s);
}

/// A range is read as it is written: `A:B` is the numbers A and B, where A is
/// at least one and B at least A, and nothing else.
pub proof fn ranges_read_back(a: nat, b: nat)
    ensures
        ({
            let raw = text::decimal(a) + seq![':'] + text::decimal(b);
            if 1 <= a <= b <= usize::MAX {
                range_of(raw) == Some((a as usize, b as usize))
            } else {
                range_of(raw) is None
            }
        }),
{
    let (x, y) = (text::decimal(a), text::decimal(b));
    let raw = x + seq![':'] + y;
    text::decimals_read_back(a);
    text::decimals_read_back(b);
    assert forall|i: int| 0 <= i < raw.len() implies !text::is_space(#[trigger] raw[i]) && (i
        == x.len() <==> raw[i] == ':') by {
        if i < x.len() {
            assert(raw[i] == x[i]);
            assert(text::is_digit(x[i]));
        } else if i > x.len() {
            assert(raw[i] == y[i - x.len() - 1]);
            assert(text::is_digit(y[i - x.len() - 1]));
        }
    }
    solid_texts_stay(raw);
    text::splits_at_the_first(raw, ':');
    assert(raw[x.len() as int] == ':');
    assert(raw.contains(':'));
    let (l, r) = text::split_first(raw, ':').unwrap();
    assert(raw[l.len() as int] == ':');
    assert(l.len() == x.len());
    assert(l =~= x) by {
        assert(l =~= raw.take(l.len() as int));
        assert(x =~= raw.take(x.len() as int));
    }
    assert(r =~= y) by {
        assert(r =~= raw.skip((l.len() + 1) as int));
        assert(y =~= raw.skip((x.len() + 1) as int));
    }
}

/// What is read as a range starts at one or later and does not run backwards.
pub proof fn ranges_run_forward(raw: Seq<char>)
    ensures
        range_of(raw) matches Some((a, b)) ==> 1 <= a <= b,
{
}

/// Whether a window holds exactly the numbers from `a` to `b`, in order and
/// each once.
pub open spec fn spans(window: Seq<usize>, a: int, b: int) -> bool {
    &&& increasing(window)
    &&& forall|n: usize| #[trigger] window.contains(n) <==> a <= n <= b
}

proof fn numbers_span(a: nat, b: nat)
    requires
        a <= b + 1,
        b <= usize::MAX,
    ensures
        spans(numbers(a, b), a as int, b as int),
{
    let w = numbers(a, b);
    assert forall|n: usize| a <= n <= b implies #[trigger] w.contains(n) by {
        assert(w[n - a] == n);
    }
}

/// A range picks the exchanges from its first to its last number, as far as
/// there are any, in order and each once. A range that starts behind the last
/// exchange is refused, and so is what does not read as a range. Neither
/// depends on how many last exchanges were asked for besides.
pub proof fn ranges_pick_their_exchanges(
    short: Seq<char>,
    total: nat,
    last: Option<i64>,
    raw: Seq<char>,
)
    requires
        0 < total <= usize::MAX,
    ensures
        ({
            let window = window_chosen(short, total, last, Some(raw), None);
            match range_of(raw) {
                Some((a, b)) => if a <= total {
                    window matches Ok(w) && spans(
                        w,
                        a as int,
                        if b < total {
                            b as int
                        } else {
                            total as int
                        },
                    )
                } else {
                    window matches Err(out) && out.code == 1
                },
                None => window matches Err(out) && out.code == 2,
            }
        }),
{
    if let Some((a, b)) = range_of(raw) {
        if a <= total {
            numbers_span(
                a as nat,
                if b <= total {
                    b as nat
                } else {
                    total
                },
            );
        }
    }
}

/// The last `n` exchanges are those from the `n`th last to the last one, or all
/// where there are fewer; five where no number was asked for. A number below
/// one is refused.
pub proof fn last_picks_the_end(short: Seq<char>, total: nat, last: Option<i64>)
    requires
        0 < total <= usize::MAX,
    ensures
        ({
            let window = window_chosen(short, total, last, None, None);
            let n: int = match last {
                Some(n) => n as int,
                None => 5,
            };
            if n >= 1 {
                &&& window matches Ok(w)
                &&& increasing(w)
                &&& forall|k: usize| #[trigger] w.contains(k) <==> 1 <= k <= total && k > total - n
            } else {
                window matches Err(out) && out.code == 2
            }
        }),
{
    let n: int = match last {
        Some(n) => n as int,
        None => 5,
    };
    if n >= 1 {
        let first: nat = if n <= total {
            (total - n + 1) as nat
        } else {
            1
        };
        numbers_span(first, total);
    }
}

/// A pattern picks the exchanges that match it, whatever range or number was
/// asked for besides; where none matches, or the pattern is refused, `peek`
/// fails, and says so with what it was asked.
pub proof fn patterns_pick_their_matches(
    short: Seq<char>,
    total: nat,
    last: Option<i64>,
    range: Option<Seq<char>>,
    pattern: Seq<char>,
    flags: Result<Seq<bool>, Seq<char>>,
)
    requires
        total <= usize::MAX,
        flags matches Ok(found) ==> found.len() == total,
    ensures
        match (window_chosen(short, total, last, range, Some((pattern, flags))), flags) {
            (Ok(w), Ok(found)) => {
                &&& increasing(w)
                &&& w.len() > 0
                &&& forall|n: usize| #[trigger]
                    w.contains(n) <==> 1 <= n <= total && found[n - 1]
            },
            (Err(out), Ok(found)) => {
                &&& out.code == 1
                &&& forall|i: int| 0 <= i < total ==> !#[trigger] found[i]
                &&& text::in_order(out.stderr, seq![pattern, short, text::decimal(total)])
            },
            (Err(out), Err(e)) => out.code == 2 && text::in_order(out.stderr, seq![e]),
            (Ok(_), Err(_)) => false,
        },
{
    match flags {
        Ok(found) => {
            hits_are_the_matches(found);
            if hits(found).len() == 0 {
                assert forall|i: int| 0 <= i < total implies !#[trigger] found[i] by {
                    if found[i] {
                        assert(hits(found).contains((i + 1) as usize));
                    }
                }
                text::holds_three(
                    "threadhop peek: no exchanges match '"@,
                    pattern,
                    "' in session "@,
                    short,
                    " ("@,
                    text::decimal(total),
                    " exchanges scanned).\n"@,
                );
            } else {
                assert(increasing(hits(found)));
            }
        },
        Err(e) => {
            text::holds_one("threadhop peek: invalid --grep regex: "@, e, "\n"@);
        },
    }
}

/// Whatever window was refused, nothing was printed but an error.
pub proof fn refused_windows_print_nothing(
    short: Seq<char>,
    total: nat,
    last: Option<i64>,
    range: Option<Seq<char>>,
    grep: Option<(Seq<char>, Result<Seq<bool>, Seq<char>>)>,
)
    ensures
        window_chosen(short, total, last, range, grep) matches Err(out) ==> out.stdout.len() == 0
            && out.stderr.len() > 0 && out.code != 0,
{
    reveal_strlit("threadhop peek: invalid --grep regex: ");
    reveal_strlit("threadhop peek: no exchanges match '");
    reveal_strlit("threadhop peek: invalid --range '");
    reveal_strlit("threadhop peek: --range ");
    reveal_strlit("threadhop peek: --last must be >= 1.\n");
}

/// The rendered exchanges of a window.
pub open spec fn rendered_of(exchanges: Seq<ExchangeModel>, indices: Seq<usize>) -> Seq<Seq<char>> {
    Seq::new(indices.len(), |i: int| exchanges[indices[i] - 1].rendered)
}

proof fn body_shows_each(exchanges: Seq<ExchangeModel>, indices: Seq<usize>)
    ensures
        text::in_order(window_body(exchanges, indices), rendered_of(exchanges, indices)),
        indices.len() > 0 ==> window_body(exchanges, indices).len() == window_body(
            exchanges,
            indices.drop_last(),
        ).len() + exchanges[indices.last() - 1].rendered.len() + 2,
    decreases indices.len(),
{
    reveal_strlit("\n");
    let parts = rendered_of(exchanges, indices);
    if indices.len() == 0 {
        text::order_begins(window_body(exchanges, indices));
        assert(parts =~= Seq::empty());
    } else {
        let front = indices.drop_last();
        body_shows_each(exchanges, front);
        let one = exchanges[indices.last() - 1].rendered;
        let before = window_body(exchanges, front);
        text::order_appends(before, rendered_of(exchanges, front), "\n"@, one);
        assert(rendered_of(exchanges, front).push(one) =~= parts);
        text::order_appends(before + "\n"@ + one, parts, "\n"@, one);
    }
}

/// What the line above a window tells, in order: the session's name, its
/// project, the time that the window spans, whether it is one exchange or
/// several, their numbers, and how many the session has.
pub open spec fn header_parts(
    exchanges: Seq<ExchangeModel>,
    indices: Seq<usize>,
    name: Seq<char>,
    project: Option<Seq<char>>,
) -> Seq<Seq<char>> {
    let home = match project {
        Some(p) => p,
        None => "unknown project"@,
    };
    let noun = if indices.len() == 1 {
        "exchange"@
    } else {
        "exchanges"@
    };
    seq![
        name,
        home,
        began(exchanges, indices),
        ended(exchanges, indices),
        noun,
        index_label(indices),
        text::decimal(exchanges.len()),
    ]
}

proof fn header_tells(
    exchanges: Seq<ExchangeModel>,
    indices: Seq<usize>,
    name: Seq<char>,
    project: Option<Seq<char>>,
)
    ensures
        text::in_order(
            window_header(exchanges, indices, name, project),
            header_parts(exchanges, indices, name, project),
        ),
        ({
            let parts = header_parts(exchanges, indices, name, project);
            window_header(exchanges, indices, name, project).len() == 26 + parts[0].len()
                + parts[1].len() + parts[2].len() + parts[3].len() + parts[4].len() + parts[5].len()
                + parts[6].len()
        }),
{
    let home = match project {
        Some(p) => p,
        None => "unknown project"@,
    };
    let noun = if indices.len() == 1 {
        "exchange"@
    } else {
        "exchanges"@
    };
    let (from, to) = (began(exchanges, indices), ended(exchanges, indices));
    let (label, count) = (index_label(indices), text::decimal(exchanges.len()));
    text::holds_seven(
        "[From \""@,
        name,
        "\" — "@,
        home,
        " — "@,
        from,
        ".."@,
        to,
        " — "@,
        noun,
        " "@,
        label,
        " of "@,
        count,
        "]\n"@,
    );
    let whole = "[From \""@ + name + "\" — "@ + home + " — "@ + from + ".."@ + to + " — "@ + noun
        + " "@ + label + " of "@ + count + "]\n"@;
    assert(window_header(exchanges, indices, name, project) == whole);
    reveal_strlit("[From \"");
    reveal_strlit("\" — ");
    reveal_strlit(" — ");
    reveal_strlit("..");
    reveal_strlit(" ");
    reveal_strlit(" of ");
    reveal_strlit("]\n");
}

/// The line above a window holds its parts and the marks between them, and
/// nothing else.
pub proof fn headers_hold_nothing_else(
    exchanges: Seq<ExchangeModel>,
    indices: Seq<usize>,
    name: Seq<char>,
    project: Option<Seq<char>>,
)
    ensures
        ({
            let parts = header_parts(exchanges, indices, name, project);
            window_header(exchanges, indices, name, project).len() == 26 + parts[0].len()
                + parts[1].len() + parts[2].len() + parts[3].len() + parts[4].len() + parts[5].len()
                + parts[6].len()
        }),
{
    header_tells(exchanges, indices, name, project);
}

/// A window that was chosen is printed as a whole: above it where it comes from,
/// what time it spans, which exchanges it holds and of how many; then each
/// chosen exchange, in order. Nothing goes to the error output, and the exit
/// code is zero.
pub proof fn peeks_print_the_window(
    exchanges: Seq<ExchangeModel>,
    session_id: Seq<char>,
    name: Seq<char>,
    project: Option<Seq<char>>,
    last: Option<i64>,
    range: Option<Seq<char>>,
    grep: Option<(Seq<char>, Result<Seq<bool>, Seq<char>>)>,
)
    requires
        exchanges.len() > 0,
    ensures
        ({
            let out = peeked(exchanges, session_id, name, project, last, range, grep);
            let short = text::first_chars(session_id, 8);
            match window_chosen(short, exchanges.len(), last, range, grep) {
                Ok(w) => {
                    &&& out.code == 0
                    &&& out.stderr.len() == 0
                    &&& text::in_order(
                        out.stdout,
                        header_parts(exchanges, w, name, project) + rendered_of(exchanges, w),
                    )
                },
                Err(refusal) => out == refusal,
            }
        }),
{
    let short = text::first_chars(session_id, 8);
    if let Ok(w) = window_chosen(short, exchanges.len(), last, range, grep) {
        header_tells(exchanges, w, name, project);
        body_shows_each(exchanges, w);
        text::orders_chain(
            window_header(exchanges, w, name, project),
            header_parts(exchanges, w, name, project),
            window_body(exchanges, w),
            rendered_of(exchanges, w),
        );
    }
}

/// One more exchange in a window adds its own lines behind the others and
/// changes nothing in front of them.
pub proof fn exchanges_are_printed_one_by_one(
    exchanges: Seq<ExchangeModel>,
    indices: Seq<usize>,
    n: usize,
)
    ensures
        window_body(exchanges, indices).is_prefix_of(window_body(exchanges, indices.push(n))),
        window_body(exchanges, indices.push(n)).len() == window_body(exchanges, indices).len()
            + exchanges[n - 1].rendered.len() + 2,
        window_body(exchanges, Seq::empty()).len() == 0,
{
    reveal_strlit("\n");
    let more = indices.push(n);
    assert(more.drop_last() =~= indices);
    let (a, b) = (window_body(exchanges, indices), window_body(exchanges, more));
    assert(b.take(a.len() as int) =~= a);
}

/// A session without exchanges is an error that names the session.
pub proof fn empty_sessions_are_errors(
    session_id: Seq<char>,
    name: Seq<char>,
    project: Option<Seq<char>>,
    last: Option<i64>,
    range: Option<Seq<char>>,
    grep: Option<(Seq<char>, Result<Seq<bool>, Seq<char>>)>,
)
    ensures
        ({
            let out = peeked(Seq::empty(), session_id, name, project, last, range, grep);
            &&& out.code == 1
            &&& out.stdout.len() == 0
            &&& text::in_order(out.stderr, seq![text::first_chars(session_id, 8)])
        }),
{
    text::holds_one(
        "threadhop peek: session "@,
        text::first_chars(session_id, 8),
        " has no user/assistant exchanges (may be empty or contain only tool output).\n"@,
    );
}

/// A window begins when the first of its exchanges that has a time began, and
/// ends when the last one that has a time ended. Without any time there is a
/// question mark.
pub proof fn windows_span_their_times(exchanges: Seq<ExchangeModel>, indices: Seq<usize>, k: int)
    requires
        0 <= k < indices.len(),
    ensures
        exchanges[indices[k] - 1].first_timestamp is Some && (forall|j: int|
            0 <= j < k ==> exchanges[#[trigger] indices[j] - 1].first_timestamp is None)
            ==> Some(began(exchanges, indices)) == exchanges[indices[k] - 1].first_timestamp,
        exchanges[indices[k] - 1].last_timestamp is Some && (forall|j: int|
            k < j < indices.len() ==> exchanges[#[trigger] indices[j] - 1].last_timestamp is None)
            ==> Some(ended(exchanges, indices)) == exchanges[indices[k] - 1].last_timestamp,
    decreases indices.len(),
{
    if k > 0 {
        let rest = indices.skip(1);
        assert(rest[k - 1] == indices[k]);
        windows_span_their_times(exchanges, rest, k - 1);
        if forall|j: int|
            0 <= j < k ==> exchanges[#[trigger] indices[j] - 1].first_timestamp is None {
            assert forall|j: int| 0 <= j < k - 1 implies exchanges[#[trigger] rest[j]
                - 1].first_timestamp is None by {
                assert(rest[j] == indices[j + 1]);
            }
            assert(exchanges[indices[0] - 1].first_timestamp is None);
        }
    }
    if k < indices.len() - 1 {
        let front = indices.drop_last();
        assert(front[k] == indices[k]);
        windows_span_their_times(exchanges, front, k);
        if forall|j: int|
            k < j < indices.len() ==> exchanges[#[trigger] indices[j] - 1].last_timestamp is None {
            assert forall|j: int| k < j < front.len() implies exchanges[#[trigger] front[j]
                - 1].last_timestamp is None by {
                assert(front[j] == indices[j]);
            }
            assert(exchanges[indices[indices.len() - 1] - 1].last_timestamp is None);
        }
    }
}

/// A window of exchanges without any time spans from a question mark to one.
pub proof fn timeless_windows_say_so(exchanges: Seq<ExchangeModel>, indices: Seq<usize>)
    requires
        forall|j: int|
            0 <= j < indices.len() ==> exchanges[#[trigger] indices[j] - 1].first_timestamp is None
                && exchanges[indices[j] - 1].last_timestamp is None,
    ensures
        began(exchanges, indices) == seq!['?'],
        ended(exchanges, indices) == seq!['?'],
    decreases indices.len(),
{
    reveal_strlit("?");
    assert("?"@ =~= seq!['?']);
    if indices.len() > 0 {
        let (rest, front) = (indices.skip(1), indices.drop_last());
        assert forall|j: int| 0 <= j < rest.len() implies exchanges[#[trigger] rest[j]
            - 1].first_timestamp is None && exchanges[rest[j] - 1].last_timestamp is None by {
            assert(rest[j] == indices[j + 1]);
        }
        assert forall|j: int| 0 <= j < front.len() implies exchanges[#[trigger] front[j]
            - 1].first_timestamp is None && exchanges[front[j] - 1].last_timestamp is None by {
            assert(front[j] == indices[j]);
        }
        timeless_windows_say_so(exchanges, rest);
        timeless_windows_say_so(exchanges, front);
        assert(exchanges[indices[0] - 1].first_timestamp is None);
        assert(exchanges[indices[indices.len() - 1] - 1].last_timestamp is None);
    }
}

/// The label of a window starts with its first number and ends with its last
/// one. A window of one exchange is labelled with that number alone.
pub proof fn labels_name_the_ends(indices: Seq<usize>)
    requires
        indices.len() > 0,
        increasing(indices),
    ensures
        indices.len() == 1 ==> index_label(indices) == text::decimal(indices[0] as nat),
        text::decimal(indices[0] as nat).is_prefix_of(index_label(indices)),
        ({
            let label = index_label(indices);
            let last = text::decimal(indices.last() as nat);
            last.len() <= label.len() && label.skip(label.len() - last.len()) == last
        }),
{
    let label = index_label(indices);
    let (first, last) = (text::decimal(indices[0] as nat), text::decimal(indices.last() as nat));
    if contiguous(indices) {
        assert(label.take(first.len() as int) =~= first);
        assert(label.skip(label.len() - last.len()) =~= last);
    } else {
        if indices.len() == 1 {
            assert(contiguous(indices));
        }
        let parts = indices.map_values(|n: usize| text::decimal(n as nat));
        text::join_from_the_front(parts, ","@);
        assert(label.take(first.len() as int) =~= first);
        assert(parts.last() == last);
        assert(label.skip(label.len() - last.len()) =~= last);
    }
}

/// `peek` goes on with the only session that is meant. Where none is, or more
/// than one, it fails, and says which was asked for and which could be meant,
/// in order.
pub proof fn only_one_session_is_peeked(
    session_ref: Seq<char>,
    projects: Seq<char>,
    meant: Seq<Seq<char>>,
)
    ensures
        match session_chosen(session_ref, projects, meant) {
            Ok(id) => meant == seq![id],
            Err(out) => {
                &&& meant.len() != 1
                &&& out.stdout.len() == 0
                &&& meant.len() == 0 ==> out.code == 1 && text::in_order(
                    out.stderr,
                    seq![session_ref, projects],
                )
                &&& meant.len() > 1 ==> out.code == 2 && text::in_order(
                    out.stderr,
                    seq![session_ref, text::decimal(meant.len())] + meant,
                )
            },
        },
{
    let count = text::decimal(meant.len());
    text::holds_two(
        "threadhop peek: no session matches '"@,
        session_ref,
        "' (searched "@,
        projects,
        " and the ThreadHop DB).\n"@,
    );
    text::holds_two(
        "threadhop peek: '"@,
        session_ref,
        "' is ambiguous — "@,
        count,
        " sessions match:\n"@,
    );
    indented_lists_all(meant);
    text::orders_chain(
        "threadhop peek: '"@ + session_ref + "' is ambiguous — "@ + count + " sessions match:\n"@,
        seq![session_ref, count],
        indented(meant),
        meant,
    );
    if meant.len() == 1 {
        assert(meant =~= seq![meant[0]]);
    }
}

proof fn indented_lists_all(lines: Seq<Seq<char>>)
    ensures
        text::in_order(indented(lines), lines),
    decreases lines.len(),
{
    if lines.len() == 0 {
        text::order_begins(indented(lines));
        assert(lines =~= Seq::empty());
    } else {
        let front = lines.drop_last();
        indented_lists_all(front);
        text::order_appends(indented(front), front, "  "@, lines.last());
        assert(front.push(lines.last()) =~= lines);
        text::order_appends(indented(front) + "  "@ + lines.last(), lines, "\n"@, "\n"@);
    }
}

/// The transcript that was found comes before the stored one, and without
/// either `peek` fails with the session's name.
pub proof fn found_transcripts_come_first(
    session_id: Seq<char>,
    projects: Seq<char>,
    found: Option<Seq<char>>,
    stored: Option<Seq<char>>,
)
    ensures
        match transcript_chosen(session_id, projects, found, stored) {
            Ok(path) => found == Some(path) || (found is None && stored == Some(path)),
            Err(out) => found is None && stored is None && out.code == 1 && out.stdout.len() == 0
                && text::in_order(out.stderr, seq![session_id, projects]),
        },
        found is Some || stored is Some ==> transcript_chosen(
            session_id,
            projects,
            found,
            stored,
        ) is Ok,
{
    text::holds_two(
        "threadhop peek: no transcript found for session "@,
        session_id,
        " under "@,
        projects,
        ".\n"@,
    );
}

/// A pattern is looked for in the text of every exchange, in order; a malformed
/// one is refused with its own error.
pub proof fn patterns_are_looked_for_in_every_text(
    pattern: Seq<char>,
    exchanges: Seq<ExchangeModel>,
    flags: Result<Seq<bool>, Seq<char>>,
)
    requires
        grep_reply(pattern, exchanges, flags),
    ensures
        flags matches Ok(found) ==> pattern_error(pattern) is None && found.len()
            == exchanges.len() && forall|i: int|
            0 <= i < found.len() ==> #[trigger] found[i] == pattern_found(
                pattern,
                exchanges[i].text,
            ),
        pattern_error(pattern) matches Some(e) ==> flags == Result::<Seq<bool>, Seq<char>>::Err(e),
{
}

/// A `peek` with a pattern that ends well has printed exactly the exchanges in
/// whose text the pattern is found, in order; without a pattern it depends on
/// the range and the number alone.
pub proof fn peeks_end_with_the_matches(
    exchanges: Seq<ExchangeModel>,
    session_id: Seq<char>,
    name: Seq<char>,
    project: Option<Seq<char>>,
    last: Option<i64>,
    range: Option<Seq<char>>,
    pattern: Seq<char>,
    out: OutputModel,
)
    requires
        0 < exchanges.len() <= usize::MAX,
    ensures
        peek_ends(exchanges, session_id, name, project, last, range, None, out) ==> out == peeked(
            exchanges,
            session_id,
            name,
            project,
            last,
            range,
            None,
        ),
        peek_ends(exchanges, session_id, name, project, last, range, Some(pattern), out)
            && out.code == 0 ==> exists|w: Seq<usize>|
            {
                &&& increasing(w)
                &&& w.len() > 0
                &&& forall|n: usize| #[trigger]
                    w.contains(n) <==> 1 <= n <= exchanges.len() && pattern_found(
                        pattern,
                        exchanges[n - 1].text,
                    )
                &&& text::in_order(
                    out.stdout,
                    header_parts(exchanges, w, name, project) + #[trigger] rendered_of(
                        exchanges,
                        w,
                    ),
                )
            },
        peek_ends(exchanges, session_id, name, project, last, range, Some(pattern), out) && (
        pattern_error(pattern) is Some) ==> out.code == 2 && text::in_order(
            out.stderr,
            seq![pattern_error(pattern).unwrap()],
        ),
{
    let short = text::first_chars(session_id, 8);
    if peek_ends(exchanges, session_id, name, project, last, range, Some(pattern), out) {
        let flags = choose|flags: Result<Seq<bool>, Seq<char>>| #[trigger]
            grep_reply(pattern, exchanges, flags) && out == peeked(
                exchanges,
                session_id,
                name,
                project,
                last,
                range,
                Some((pattern, flags)),
            );
        let grep = Some((pattern, flags));
        patterns_are_looked_for_in_every_text(pattern, exchanges, flags);
        patterns_pick_their_matches(short, exchanges.len(), last, range, pattern, flags);
        peeks_print_the_window(exchanges, session_id, name, project, last, range, grep);
        if out.code == 0 {
            let w = window_chosen(short, exchanges.len(), last, range, grep)->Ok_0;
            assert(text::in_order(
                out.stdout,
                header_parts(exchanges, w, name, project) + rendered_of(exchanges, w),
            ));
        }
    }
}

/// A run of numbers is labelled with its two ends and a hyphen between them;
/// numbers with a gap among them are all listed, in order, with commas.
pub proof fn labels_shorten_runs(indices: Seq<usize>)
    requires
        indices.len() > 1,
        increasing(indices),
    ensures
        ({
            let label = index_label(indices);
            let (first, last) = (
                text::decimal(indices[0] as nat),
                text::decimal(indices.last() as nat),
            );
            let run = indices.last() - indices[0] == indices.len() - 1;
            &&& run ==> label.len() == first.len() + last.len() + 1 && label[first.len() as int]
                == '-'
            &&& !run ==> label.contains(',') && text::split_all(label, ',') == Seq::new(
                indices.len(),
                |i: int| text::decimal(indices[i] as nat),
            )
        }),
{
    reveal_strlit("-");
    let run = indices.last() - indices[0] == indices.len() - 1;
    runs_are_contiguous(indices);
    if !run {
        labels_are_joined(indices);
        joined_holds_the_mark(label_parts(indices), ',');
        assert(label_parts(indices) =~= Seq::new(
            indices.len(),
            |i: int| text::decimal(indices[i] as nat),
        ));
    }
}

proof fn runs_are_contiguous(indices: Seq<usize>)
    requires
        indices.len() > 1,
        increasing(indices),
    ensures
        contiguous(indices) <==> indices.last() - indices[0] == indices.len() - 1,
{
    let n = indices.len() as int;
    if indices.last() - indices[0] == n - 1 {
        assert forall|i: int| 0 <= i < n implies #[trigger] indices[i] == indices[0] + i by {
            grows_by_one(indices, 0, i);
            grows_by_one(indices, i, n - 1);
        }
    } else {
        assert(indices[n - 1] != indices[0] + (n - 1));
    }
}

proof fn grows_by_one(indices: Seq<usize>, i: int, j: int)
    requires
        increasing(indices),
        0 <= i <= j < indices.len(),
    ensures
        indices[j] - indices[i] >= j - i,
    decreases j - i,
{
    if i < j {
        grows_by_one(indices, i, j - 1);
        assert(indices[j - 1] < indices[j]);
    }
}

} // verus!
