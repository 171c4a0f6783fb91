//! `search`: full-text search over every indexed session.

use vstd::prelude::*;
use vstd::string::*;

use crate::cli;
use crate::cli::Output;
use crate::text;

verus! {

/// The query that the index is asked: a project becomes one more of the
/// query's own `project:` filters.
pub open spec fn indexed_query(query: Seq<char>, project: Option<Seq<char>>) -> Seq<char> {
    match project {
        Some(p) => query + " project:"@ + p,
        None => query,
    }
}

/// The query that the index is asked.
pub fn raw_query(query: &str, project: &Option<String>) -> (raw: String)
    ensures
        raw@ == indexed_query(query@, text::opt_view(*project)),
{
    let mut raw = query.to_owned();
    match project {
        Some(p) => {
            raw.append(" project:");
            raw.append(p.as_str());
        },
        None => {},
    }
    raw
}

/// The marks that the index puts in front of and behind a match.
#[derive(Debug, Clone, PartialEq, Eq)]
pub struct Marks {
    pub start: String,
    pub end: String,
}

impl Marks {
    pub open spec fn wf(self) -> bool {
        self.start@.len() > 0 && self.end@.len() > 0
    }
}

/// `s` with every `from` in it, found from left to right, replaced by `to`.
pub open spec fn replaced(s: Seq<char>, from: Seq<char>, to: Seq<char>) -> Seq<char>
    decreases s.len(),
{
    if s.len() == 0 || from.len() == 0 {
        s
    } else if text::occurs_at(s, from, 0) {
        to + replaced(s.skip(from.len() as int), from, to)
    } else {
        seq![s[0]] + replaced(s.skip(1), from, to)
    }
}

fn replace(s: &str, from: &str, to: &str) -> (out: String)
    requires
        from@.len() > 0,
    ensures
        out@ == replaced(s@, from@, to@),
{
    let chars = text::chars_of(s);
    let pattern = text::chars_of(from);
    let mut out = String::new();
    let mut i: usize = 0;
    let ghost whole = replaced(s@, from@, to@);
    assert(chars@.skip(0) =~= chars@);
    assert(out@ + whole =~= whole);
    while i < chars.len()
        invariant
            i <= chars@.len(),
            chars@ == s@,
            pattern@ == from@,
            from@.len() > 0,
            whole == out@ + replaced(chars@.skip(i as int), from@, to@),
        decreases chars@.len() - i,
    {
        let ghost rest = chars@.skip(i as int);
        let ghost before = out@;
        if pattern.len() <= chars.len() - i && text::matches_at(&chars, &pattern, i) {
            assert(rest.subrange(0, from@.len() as int) =~= chars@.subrange(
                i as int,
                i + from@.len(),
            ));
            assert(rest.skip(from@.len() as int) =~= chars@.skip(i + from@.len()));
            out.append(to);
            i += pattern.len();
            assert(before + (to@ + replaced(chars@.skip(i as int), from@, to@)) =~= out@ + replaced(
                chars@.skip(i as int),
                from@,
                to@,
            ));
        } else {
            assert(!text::occurs_at(rest, from@, 0)) by {
                if text::occurs_at(rest, from@, 0) {
                    assert(rest.subrange(0, from@.len() as int) =~= chars@.subrange(
                        i as int,
                        i + from@.len(),
                    ));
                }
            }
            assert(rest.skip(1) =~= chars@.skip(i + 1));
            out.push(chars[i]);
            i += 1;
            assert(before + (seq![rest[0]] + replaced(chars@.skip(i as int), from@, to@)) =~= out@
                + replaced(chars@.skip(i as int), from@, to@));
        }
    }
    assert(out@ + replaced(chars@.skip(i as int), from@, to@) =~= out@);
    out
}

/// A snippet on one line, its matches between `**` or unmarked.
pub open spec fn cleaned(snippet: Seq<char>, marks: Marks, highlight: bool) -> Seq<char> {
    let around = if highlight {
        "**"@
    } else {
        Seq::empty()
    };
    text::collapse(replaced(replaced(snippet, marks.start@, around), marks.end@, around))
}

/// A snippet on one line: the marks of its matches become `**`, or go where
/// `highlight` is off, and white space becomes single spaces.
pub fn clean_snippet(snippet: &str, marks: &Marks, highlight: bool) -> (out: String)
    requires
        marks.wf(),
    ensures
        out@ == cleaned(snippet@, *marks, highlight),
{
    let around = if highlight {
        "**".to_owned()
    } else {
        String::new()
    };
    let opened = replace(snippet, marks.start.as_str(), around.as_str());
    let closed = replace(opened.as_str(), marks.end.as_str(), around.as_str());
    text::collapse_whitespace(closed.as_str())
}

/// A hit, as the index gives it.
#[derive(Debug, Clone, PartialEq, Eq)]
pub struct CliHit {
    pub session_id: String,
    pub custom_name: Option<String>,
    pub project: Option<String>,
    pub timestamp: Option<String>,
    pub snippet: String,
    pub uuid: String,
}

/// The name that the session of a hit goes by: its own, or the start of its id.
pub open spec fn name_of(hit: CliHit) -> Seq<char> {
    match hit.custom_name {
        Some(name) => name@,
        None => text::first_chars(hit.session_id@, 8),
    }
}

/// The name that the session of a hit goes by.
pub fn session_name(hit: &CliHit) -> (name: String)
    ensures
        name@ == name_of(*hit),
{
    match &hit.custom_name {
        Some(name) => name.clone(),
        None => text::take_chars(hit.session_id.as_str(), 8),
    }
}

/// A hit, as it is written in JSON. The fields are written in this order.
#[derive(Debug, Clone, PartialEq, Eq)]
pub struct JsonHit {
    pub session_id: String,
    pub session_name: String,
    pub project: Option<String>,
    pub timestamp: Option<String>,
    pub snippet: String,
    pub uuid: String,
}

pub struct JsonHitModel {
    pub session_id: Seq<char>,
    pub session_name: Seq<char>,
    pub project: Option<Seq<char>>,
    pub timestamp: Option<Seq<char>>,
    pub snippet: Seq<char>,
    pub uuid: Seq<char>,
}

impl View for JsonHit {
    type V = JsonHitModel;

    open spec fn view(&self) -> JsonHitModel {
        JsonHitModel {
            session_id: self.session_id@,
            session_name: self.session_name@,
            project: text::opt_view(self.project),
            timestamp: text::opt_view(self.timestamp),
            snippet: self.snippet@,
            uuid: self.uuid@,
        }
    }
}

pub open spec fn json_view(rows: Seq<JsonHit>) -> Seq<JsonHitModel> {
    Seq::new(rows.len(), |i: int| rows[i]@)
}

pub open spec fn json_hit(hit: CliHit, marks: Marks) -> JsonHitModel {
    JsonHitModel {
        session_id: hit.session_id@,
        session_name: name_of(hit),
        project: text::opt_view(hit.project),
        timestamp: text::opt_view(hit.timestamp),
        snippet: cleaned(hit.snippet@, marks, false),
        uuid: hit.uuid@,
    }
}

/// The hits, as they are written in JSON.
pub fn json_hits(hits: &Vec<CliHit>, marks: &Marks) -> (rows: Vec<JsonHit>)
    requires
        marks.wf(),
    ensures
        json_view(rows@) == hits@.map_values(|hit: CliHit| json_hit(hit, *marks)),
{
    let mut rows: Vec<JsonHit> = Vec::new();
    let mut i: usize = 0;
    while i < hits.len()
        invariant
            i <= hits@.len(),
            rows@.len() == i,
            marks.wf(),
            forall|j: int| 0 <= j < i ==> (#[trigger] rows@[j])@ == json_hit(hits@[j], *marks),
        decreases hits@.len() - i,
    {
        let hit = &hits[i];
        rows.push(
            JsonHit {
                session_id: hit.session_id.clone(),
                session_name: session_name(hit),
                project: text::clone_option(&hit.project),
                timestamp: text::clone_option(&hit.timestamp),
                snippet: clean_snippet(hit.snippet.as_str(), marks, false),
                uuid: hit.uuid.clone(),
            },
        );
        i += 1;
    }
    assert(json_view(rows@) =~= hits@.map_values(|hit: CliHit| json_hit(hit, *marks)));
    rows
}

/// What `search` prints where JSON was asked for: the hits, or an empty list
/// where they could not be written.
pub open spec fn json_text(written: Option<Seq<char>>) -> Seq<char> {
    match written {
        Some(text) => text + "\n"@,
        None => "[]\n"@,
    }
}

/// Prints the hits that were written as JSON.
pub fn json_output(written: Option<String>) -> (out: Output)
    ensures
        out@ == cli::printed(json_text(text::opt_view(written))),
{
    match written {
        Some(text) => {
            let mut stdout = text;
            stdout.append("\n");
            cli::print(stdout)
        },
        None => cli::print("[]\n".to_owned()),
    }
}

/// The lines of one hit, and an empty line.
pub open spec fn hit_block(hit: CliHit, marks: Marks) -> Seq<char> {
    text::first_chars(hit.session_id@, 8) + "  "@ + name_of(hit) + "  ["@ + match hit.project {
        Some(p) => p@,
        None => "unknown project"@,
    } + "]  "@ + match hit.timestamp {
        Some(at) => at@,
        None => "?"@,
    } + "\n  "@ + cleaned(hit.snippet@, marks, true) + "\n\n"@
}

pub open spec fn hit_blocks(hits: Seq<CliHit>, marks: Marks) -> Seq<char>
    decreases hits.len(),
{
    if hits.len() == 0 {
        Seq::empty()
    } else {
        hit_blocks(hits.drop_last(), marks) + hit_block(hits.last(), marks)
    }
}

/// What `search` prints.
pub open spec fn searched(query: Seq<char>, hits: Seq<CliHit>, marks: Marks) -> Seq<char> {
    if hits.len() == 0 {
        "No matches for '"@ + query + "'.\n"@
    } else {
        hit_blocks(hits, marks) + "Tip: threadhop peek <session> --grep '"@ + query
            + "' shows full exchanges.\n"@
    }
}

/// Prints the hits in words. Finding nothing is no error.
pub fn cmd_search(query: &str, hits: &Vec<CliHit>, marks: &Marks) -> (out: Output)
    requires
        marks.wf(),
    ensures
        out@ == cli::printed(searched(query@, hits@, *marks)),
{
    if hits.len() == 0 {
        let mut stdout = "No matches for '".to_owned();
        stdout.append(query);
        stdout.append("'.\n");
        return cli::print(stdout);
    }
    let mut stdout = String::new();
    let mut i: usize = 0;
    assert(stdout@ =~= hit_blocks(hits@.take(0), *marks));
    while i < hits.len()
        invariant
            i <= hits@.len(),
            marks.wf(),
            stdout@ == hit_blocks(hits@.take(i as int), *marks),
        decreases hits@.len() - i,
    {
        assert(hits@.take(i + 1).drop_last() =~= hits@.take(i as int));
        let block = write_hit(&hits[i], marks);
        stdout.append(block.as_str());
        i += 1;
    }
    assert(hits@.take(i as int) =~= hits@);
    stdout.append("Tip: threadhop peek <session> --grep '");
    stdout.append(query);
    stdout.append("' shows full exchanges.\n");
    cli::print(stdout)
}

fn write_hit(hit: &CliHit, marks: &Marks) -> (block: String)
    requires
        marks.wf(),
    ensures
        block@ == hit_block(*hit, *marks),
{
    let mut block = text::take_chars(hit.session_id.as_str(), 8);
    block.append("  ");
    block.append(session_name(hit).as_str());
    block.append("  [");
    match &hit.project {
        Some(p) => block.append(p.as_str()),
        None => block.append("unknown project"),
    }
    block.append("]  ");
    match &hit.timestamp {
        Some(at) => block.append(at.as_str()),
        None => block.append("?"),
    }
    block.append("\n  ");
    block.append(clean_snippet(hit.snippet.as_str(), marks, true).as_str());
    block.append("\n\n");
    block
}

/// A cleaned snippet is one line: a space is the only white space in it.
pub proof fn snippets_stay_on_one_line(snippet: Seq<char>, marks: Marks, highlight: bool)
    ensures
        forall|i: int|
            0 <= i < cleaned(snippet, marks, highlight).len() && text::is_space(
                #[trigger] cleaned(snippet, marks, highlight)[i],
            ) ==> cleaned(snippet, marks, highlight)[i] == ' ',
{
    let around = if highlight {
        "**"@
    } else {
        Seq::empty()
    };
    text::collapsed_texts_hold_only_spaces(
        replaced(replaced(snippet, marks.start@, around), marks.end@, around),
    );
}

/// A text without the pattern is left as it is. The first occurrence is
/// replaced, what is in front of it stays, and so on behind it.
pub proof fn replacing_goes_by_occurrence(s: Seq<char>, from: Seq<char>, to: Seq<char>, k: int)
    requires
        from.len() > 0,
        0 <= k <= s.len(),
        forall|i: int| 0 <= i < k ==> !#[trigger] text::occurs_at(s, from, i),
    ensures
        text::occurs_at(s, from, k) ==> replaced(s, from, to) == s.take(k) + to + replaced(
            s.skip(k + from.len()),
            from,
            to,
        ),
        k == s.len() ==> replaced(s, from, to) == s,
    decreases k,
{
    if k == 0 {
        assert(s.take(0) + to =~= to);
    } else {
        let rest = s.skip(1);
        assert(!text::occurs_at(s, from, 0));
        assert forall|i: int| 0 <= i < k - 1 implies !#[trigger] text::occurs_at(rest, from, i) by {
            assert(!text::occurs_at(s, from, i + 1));
            if text::occurs_at(rest, from, i) {
                assert(rest.subrange(i, i + from.len()) =~= s.subrange(i + 1, i + 1 + from.len()));
            }
        }
        replacing_goes_by_occurrence(rest, from, to, k - 1);
        if text::occurs_at(s, from, k) {
            assert(rest.subrange(k - 1, k - 1 + from.len()) =~= s.subrange(k, k + from.len()));
            assert(rest.skip(k - 1 + from.len()) =~= s.skip(k + from.len()));
            let tail = replaced(s.skip(k + from.len()), from, to);
            assert(seq![s[0]] + (rest.take(k - 1) + to + tail) =~= s.take(k) + to + tail);
        }
        if k == s.len() {
            assert(seq![s[0]] + rest =~= s);
        }
    }
}

/// A snippet in which nothing is marked keeps all its characters but white
/// space, whether matches are shown or not.
pub proof fn unmarked_snippets_are_kept(snippet: Seq<char>, marks: Marks, highlight: bool)
    requires
        marks.wf(),
        forall|i: int| !#[trigger] text::occurs_at(snippet, marks.start@, i),
        forall|i: int| !#[trigger] text::occurs_at(snippet, marks.end@, i),
    ensures
        text::solid(cleaned(snippet, marks, highlight)) == text::solid(snippet),
        text::is_tidy(cleaned(snippet, marks, highlight)),
{
    let around = if highlight {
        "**"@
    } else {
        Seq::empty()
    };
    replacing_goes_by_occurrence(snippet, marks.start@, around, snippet.len() as int);
    replacing_goes_by_occurrence(snippet, marks.end@, around, snippet.len() as int);
    text::collapsing_keeps_the_rest(snippet);
    text::collapsed_texts_are_tidy(snippet);
}

/// A match is shown between two stars on either side, or without its marks
/// where matches are not highlighted; the words around it stay.
pub proof fn matches_are_starred(
    before: Seq<char>,
    found: Seq<char>,
    after: Seq<char>,
    start: char,
    end: char,
    marks: Marks,
)
    requires
        marks.start@ == seq![start],
        marks.end@ == seq![end],
        start != end,
        start != '*',
        end != '*',
        !before.contains(start),
        !before.contains(end),
        !found.contains(start),
        !found.contains(end),
        !after.contains(start),
        !after.contains(end),
    ensures
        ({
            let snippet = before + seq![start] + found + seq![end] + after;
            &&& cleaned(snippet, marks, true) == text::collapse(
                before + seq!['*', '*'] + found + seq!['*', '*'] + after,
            )
            &&& cleaned(snippet, marks, false) == text::collapse(before + found + after)
        }),
{
    reveal_strlit("**");
    assert("**"@ =~= seq!['*', '*']);
    let none = Seq::<char>::empty();
    let stars = seq!['*', '*'];
    let snippet = before + seq![start] + found + seq![end] + after;
    one_mark_replaced(before, found + seq![end] + after, start, stars);
    one_mark_replaced(before, found + seq![end] + after, start, none);
    assert(snippet =~= before + seq![start] + (found + seq![end] + after));
    let shown = before + stars + (found + seq![end] + after);
    let bare = before + none + (found + seq![end] + after);
    one_mark_replaced(before + stars + found, after, end, stars);
    one_mark_replaced(before + found, after, end, none);
    assert(shown =~= before + stars + found + seq![end] + after);
    assert(bare =~= before + found + seq![end] + after);
    assert(before + found + none + after =~= before + found + after);
}

proof fn one_mark_replaced(before: Seq<char>, after: Seq<char>, mark: char, to: Seq<char>)
    requires
        !before.contains(mark),
        !after.contains(mark),
    ensures
        replaced(before + seq![mark] + after, seq![mark], to) == before + to + after,
{
    let s = before + seq![mark] + after;
    let k = before.len() as int;
    assert forall|i: int| 0 <= i < k implies !#[trigger] text::occurs_at(s, seq![mark], i) by {
        if text::occurs_at(s, seq![mark], i) {
            assert(s.subrange(i, i + 1)[0] == before[i]);
        }
    }
    assert(s.subrange(k, k + 1) =~= seq![mark]);
    replacing_goes_by_occurrence(s, seq![mark], to, k);
    assert(s.skip(k + 1) =~= after);
    assert forall|i: int| 0 <= i < after.len() implies !#[trigger] text::occurs_at(
        after,
        seq![mark],
        i,
    ) by {
        if text::occurs_at(after, seq![mark], i) {
            assert(after.subrange(i, i + 1)[0] == after[i]);
        }
    }
    replacing_goes_by_occurrence(after, seq![mark], to, after.len() as int);
    assert(s.take(k) =~= before);
}

/// What the lines of a hit tell, in order: the start of the session's id, its
/// name, its project, the time, and the snippet.
pub open spec fn hit_parts(hit: CliHit, marks: Marks) -> Seq<Seq<char>> {
    let name = match hit.custom_name {
        Some(name) => name@,
        None => text::first_chars(hit.session_id@, 8),
    };
    let project = match hit.project {
        Some(p) => p@,
        None => "unknown project"@,
    };
    let time = match hit.timestamp {
        Some(at) => at@,
        None => "?"@,
    };
    seq![
        text::first_chars(hit.session_id@, 8),
        name,
        project,
        time,
        cleaned(hit.snippet@, marks, true),
    ]
}

/// The block of a hit tells all that is known of it, in order, and nothing else,
/// and ends with an empty line.
pub proof fn blocks_tell_the_hit(hit: CliHit, marks: Marks)
    ensures
        text::in_order(hit_block(hit, marks), hit_parts(hit, marks)),
        hit_block(hit, marks).len() >= 2,
        hit_block(hit, marks).skip(hit_block(hit, marks).len() - 2) == seq!['\n', '\n'],
        ({
            let parts = hit_parts(hit, marks);
            hit_block(hit, marks).len() == 13 + parts[0].len() + parts[1].len() + parts[2].len()
                + parts[3].len() + parts[4].len()
        }),
{
    reveal_strlit("  ");
    reveal_strlit("  [");
    reveal_strlit("]  ");
    reveal_strlit("\n  ");
    reveal_strlit("\n\n");
    let parts = hit_parts(hit, marks);
    let none = Seq::<char>::empty();
    text::holds_five(
        none,
        parts[0],
        "  "@,
        parts[1],
        "  ["@,
        parts[2],
        "]  "@,
        parts[3],
        "\n  "@,
        parts[4],
        "\n\n"@,
    );
    assert(none + parts[0] =~= parts[0]);
    assert(parts =~= seq![parts[0], parts[1], parts[2], parts[3], parts[4]]);
    let block = hit_block(hit, marks);
    assert(block == parts[0] + "  "@ + parts[1] + "  ["@ + parts[2] + "]  "@ + parts[3] + "\n  "@
        + parts[4] + "\n\n"@);
    assert(block.skip(block.len() - 2) =~= seq!['\n', '\n']);
}

/// The line under the hits.
pub open spec fn tip_line(query: Seq<char>) -> Seq<char> {
    "Tip: threadhop peek <session> --grep '"@ + query + "' shows full exchanges.\n"@
}

/// Every hit is printed, in the order of the index: what is printed for one more
/// hit is what was printed for the others, then the new hit's block, and the
/// tip, which comes once and last.
pub proof fn every_hit_is_printed(query: Seq<char>, hits: Seq<CliHit>, hit: CliHit, marks: Marks)
    ensures
        hits.len() == 0 ==> searched(query, seq![hit], marks) == hit_block(hit, marks) + tip_line(
            query,
        ),
        hits.len() > 0 ==> {
            let before = searched(query, hits, marks);
            let after = searched(query, hits.push(hit), marks);
            let blocks = before.len() - tip_line(query).len();
            &&& 0 <= blocks
            &&& before.skip(blocks) == tip_line(query)
            &&& after == before.take(blocks) + hit_block(hit, marks) + tip_line(query)
        },
{
    let tip = tip_line(query);
    let blocks = hit_blocks(hits, marks);
    let more = hits.push(hit);
    assert(more.drop_last() =~= hits);
    assert(seq![hit].drop_last() =~= Seq::<CliHit>::empty());
    reveal_with_fuel(hit_blocks, 2);
    assert(hit_blocks(seq![hit], marks) =~= hit_block(hit, marks));
    assert(searched(query, seq![hit], marks) =~= hit_block(hit, marks) + tip);
    if hits.len() > 0 {
        assert(searched(query, hits, marks) =~= blocks + tip);
        assert((blocks + tip).take(blocks.len() as int) =~= blocks);
        assert((blocks + tip).skip(blocks.len() as int) =~= tip);
        assert(searched(query, more, marks) =~= blocks + hit_block(hit, marks) + tip);
    }
}

/// Where nothing was found, the query is named, and there is no tip.
pub proof fn finding_nothing_is_said(query: Seq<char>, marks: Marks)
    ensures
        text::in_order(searched(query, Seq::empty(), marks), seq![query]),
        searched(query, Seq::empty(), marks).len() == query.len() + 19,
{
    reveal_strlit("No matches for '");
    reveal_strlit("'.\n");
    text::holds_one("No matches for '"@, query, "'.\n"@);
}

/// In JSON a hit keeps its session, its project, its time and its message as
/// they are, goes by its session's name or else by the start of its id, and
/// shows its snippet without any mark of a match.
pub proof fn json_keeps_the_hit(hit: CliHit, marks: Marks)
    ensures
        json_hit(hit, marks).session_id == hit.session_id@,
        json_hit(hit, marks).uuid == hit.uuid@,
        json_hit(hit, marks).project == text::opt_view(hit.project),
        json_hit(hit, marks).timestamp == text::opt_view(hit.timestamp),
        match hit.custom_name {
            Some(name) => json_hit(hit, marks).session_name == name@,
            None => json_hit(hit, marks).session_name == text::first_chars(hit.session_id@, 8),
        },
        json_hit(hit, marks).snippet == cleaned(hit.snippet@, marks, false),
{
}

/// What was written as JSON is printed on a line of its own, and an empty list
/// stands for what could not be written.
pub proof fn json_is_one_line(written: Seq<char>)
    ensures
        json_text(Some(written)) == written.push('\n'),
        json_text(None) == seq!['[', ']', '\n'],
{
    reveal_strlit("\n");
    reveal_strlit("[]\n");
    assert(written + "\n"@ =~= written.push('\n'));
    assert("[]\n"@ =~= seq!['[', ']', '\n']);
}

/// The index is asked for the query as it was typed; a project is asked for
/// besides, as one more word.
pub proof fn projects_are_one_more_word(query: Seq<char>, project: Seq<char>)
    ensures
        indexed_query(query, None) == query,
        query.is_prefix_of(indexed_query(query, Some(project))),
        indexed_query(query, Some(project)).skip(query.len() as int) == seq![
            ' ',
            'p',
            'r',
            'o',
            'j',
            'e',
            'c',
            't',
            ':',
        ] + project,
{
    reveal_strlit(" project:");
    let whole = indexed_query(query, Some(project));
    assert(whole.take(query.len() as int) =~= query);
    assert(whole.skip(query.len() as int) =~= seq![
        ' ',
        'p',
        'r',
        'o',
        'j',
        'e',
        'c',
        't',
        ':',
    ] + project);
}

} // verus!
