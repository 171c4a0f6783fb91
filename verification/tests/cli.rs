//! The subcommands.

use threadhop_tui::cli::peek::{
    choose_transcript, choose_window, cmd_peek, format_indices, grep_exchanges, parse_range,
    peek_transcript, print_window, Exchange,
};
use threadhop_tui::cli::prepare::{cmd_prepare, Action, Event, Handoff};
use threadhop_tui::cli::receive::{cmd_receive, Found};
use threadhop_tui::cli::search::{
    clean_snippet, cmd_search, json_hits, raw_query, session_name, CliHit, Marks,
};
use threadhop_tui::cli::{
    display_name_and_project, find_session_path, resolve_session_prefix, resume, run,
    session_id_of_file, CliCommand, Output, Reply, Step, StoredSession,
};
use threadhop_tui::event::ProjectDir;

fn texts(items: &[&str]) -> Vec<String> {
    items.iter().map(|s| s.to_string()).collect()
}

fn projects() -> Vec<ProjectDir> {
    vec![
        ProjectDir {
            name: Some("-Users-alice-alpha".to_string()),
            files: Some(texts(&["aaaa1111.jsonl", "agent-zzz.jsonl"])),
        },
        ProjectDir {
            name: Some("-Users-alice-beta".to_string()),
            files: Some(texts(&["aaab2222.jsonl"])),
        },
    ]
}

#[test]
fn find_session_path_locates_transcript() {
    let projects = projects();
    let (at, file) = find_session_path(&projects, "aaaa1111").unwrap();
    let found = format!("{}/{file}", projects[at].name.as_deref().unwrap());
    assert!(found.ends_with("-Users-alice-alpha/aaaa1111.jsonl"));
    assert!(find_session_path(&projects, "missing").is_none());
}

#[test]
fn a_directory_with_an_unreadable_name_holds_transcripts_too() {
    let mut dirs = projects();
    dirs[1].name = None;
    assert_eq!(
        find_session_path(&dirs, "aaab2222"),
        Some((1, "aaab2222.jsonl".to_string()))
    );
}

fn files() -> Vec<String> {
    texts(&["aaaa1111.jsonl", "agent-zzz.jsonl", "aaab2222.jsonl"])
}

#[test]
fn resolve_prefix_exact_match_wins() {
    assert_eq!(resolve_session_prefix(&files(), &vec![], "aaaa1111"), vec!["aaaa1111"]);
    let longer = texts(&["aaaa1111-more"]);
    assert_eq!(resolve_session_prefix(&files(), &longer, "aaaa1111"), vec!["aaaa1111"]);
}

#[test]
fn resolve_prefix_unique_and_ambiguous() {
    assert_eq!(resolve_session_prefix(&files(), &vec![], "aaab"), vec!["aaab2222"]);
    let ambiguous = resolve_session_prefix(&files(), &vec![], "aaa");
    assert_eq!(ambiguous, vec!["aaaa1111", "aaab2222"]);
    assert!(resolve_session_prefix(&files(), &vec![], "zzz").is_empty());
}

#[test]
fn resolve_prefix_skips_agent_files_and_merges_db_rows() {
    assert!(resolve_session_prefix(&files(), &vec![], "agent").is_empty());
    let stored = texts(&["dbonly99"]);
    assert_eq!(resolve_session_prefix(&files(), &stored, "dbonly"), vec!["dbonly99"]);
}

#[test]
fn resolve_prefix_tolerates_unmigrated_db() {
    assert_eq!(resolve_session_prefix(&files(), &vec![], "aaab"), vec!["aaab2222"]);
}

#[test]
fn a_session_in_both_places_is_one_session() {
    let stored = texts(&["b2", "aaab2222", "a0"]);
    assert_eq!(resolve_session_prefix(&files(), &stored, "aaab"), vec!["aaab2222"]);
    assert_eq!(
        resolve_session_prefix(&files(), &stored, ""),
        vec!["a0", "aaaa1111", "aaab2222", "b2"]
    );
}

#[test]
fn only_transcripts_name_sessions() {
    assert_eq!(session_id_of_file("a.b.jsonl").as_deref(), Some("a.b"));
    assert_eq!(session_id_of_file("agent.jsonl").as_deref(), Some("agent"));
    assert_eq!(session_id_of_file("agent-.jsonl"), None);
    assert_eq!(session_id_of_file(".jsonl"), None);
    assert_eq!(session_id_of_file("notes.json"), None);
    assert_eq!(session_id_of_file("jsonl"), None);
}

#[test]
fn display_name_falls_back_to_short_id_and_path_project() {
    let directory = Some("-Users-alice-alpha".to_string());
    let (name, project) = display_name_and_project(&None, "aaaa1111-rest-of-uuid", &directory);
    assert_eq!(name, "aaaa1111");
    assert_eq!(project.as_deref(), Some("-Users-alice-alpha"));
}

#[test]
fn a_stored_session_is_shown_as_it_is_stored() {
    let stored = Some(StoredSession { custom_name: Some("mine".to_string()), project: None });
    let directory = Some("dir".to_string());
    assert_eq!(
        display_name_and_project(&stored, "aaaa1111-rest", &directory),
        ("mine".to_string(), None)
    );
    let unnamed = Some(StoredSession { custom_name: None, project: Some("p".to_string()) });
    assert_eq!(
        display_name_and_project(&unnamed, "aaaa1111-rest", &directory),
        ("aaaa1111".to_string(), Some("p".to_string()))
    );
}

fn peek_command(last: Option<i64>, range: Option<&str>, grep: Option<&str>) -> CliCommand {
    CliCommand::Peek {
        session_ref: "aaab".to_string(),
        last,
        range: range.map(|s| s.to_string()),
        grep: grep.map(|s| s.to_string()),
    }
}

fn search_command(json: bool) -> CliCommand {
    CliCommand::Search {
        query: "migration".to_string(),
        project: Some("threadhop".to_string()),
        limit: 5,
        json,
    }
}

fn handoff_command() -> CliCommand {
    CliCommand::Handoff {
        session: "41f3a2b8-and-more".to_string(),
        tail: 3,
        tail_budget: -1,
        model: "haiku".to_string(),
    }
}

fn receive_command() -> CliCommand {
    CliCommand::Receive { ticket: "tk_ab12cd34".to_string() }
}

#[test]
fn each_command_asks_for_something_first() {
    assert_eq!(run(&peek_command(None, None, None)), Step::ListSessions);
    assert_eq!(
        run(&search_command(false)),
        Step::SearchIndex { query: "migration project:threadhop".to_string(), limit: 5 }
    );
    assert_eq!(
        run(&handoff_command()),
        Step::FindTranscript { session_id: "41f3a2b8-and-more".to_string() }
    );
    assert_eq!(
        run(&receive_command()),
        Step::FindTicket { ticket: "tk_ab12cd34".to_string() }
    );
}

fn sessions_reply() -> Reply {
    Reply::Sessions { projects: "/p".to_string(), files: files(), stored: vec![] }
}

fn exchanges_reply(n: usize) -> Reply {
    Reply::Exchanges {
        session_id: "aaab2222".to_string(),
        display_name: "mine".to_string(),
        project: None,
        exchanges: exchanges(n),
    }
}

#[test]
fn peek_goes_from_the_session_to_its_end() {
    let cmd = peek_command(Some(1), None, None);
    assert_eq!(
        resume(&cmd, sessions_reply()),
        Step::FindTranscript { session_id: "aaab2222".to_string() }
    );
    let found = Reply::Transcript {
        session_id: "aaab2222".to_string(),
        projects: "/p".to_string(),
        found: Some("/p/b/aaab2222.jsonl".to_string()),
        stored: None,
    };
    assert_eq!(
        resume(&cmd, found),
        Step::LoadExchanges {
            session_id: "aaab2222".to_string(),
            path: "/p/b/aaab2222.jsonl".to_string()
        }
    );
    assert_eq!(
        resume(&cmd, exchanges_reply(3)),
        Step::Done(Output {
            stdout: "[From \"mine\" — unknown project — t3a..t3b — exchange 3 of 3]\n\n## 3\n"
                .to_string(),
            stderr: String::new(),
            code: 0
        })
    );
}

#[test]
fn the_window_that_was_asked_for_reaches_peek() {
    let ended = |cmd: &CliCommand| match resume(cmd, exchanges_reply(3)) {
        Step::Done(output) => (output.code, output.stdout.matches("## ").count()),
        step => panic!("{step:?}"),
    };
    assert_eq!(ended(&peek_command(None, None, None)), (0, 3));
    assert_eq!(ended(&peek_command(None, Some("2:3"), None)), (0, 2));
    assert_eq!(ended(&peek_command(None, Some("9:9"), None)), (1, 0));
    assert_eq!(ended(&peek_command(None, None, Some("turn 2"))), (0, 1));
    assert_eq!(ended(&peek_command(None, None, Some("("))), (2, 0));
}

#[test]
fn search_ends_in_words_or_in_json() {
    let reply = || Reply::Hits { hits: vec![hit(None)], marks: marks() };
    match resume(&search_command(false), reply()) {
        Step::Done(output) => {
            assert_eq!(output.code, 0);
            assert!(output.stdout.ends_with("--grep 'migration' shows full exchanges.\n"));
        }
        step => panic!("{step:?}"),
    }
    match resume(&search_command(true), reply()) {
        Step::WriteJson(rows) => assert_eq!(rows[0].snippet, "one two three"),
        step => panic!("{step:?}"),
    }
    let printed = |text: &str| {
        Step::Done(Output { stdout: text.to_string(), stderr: String::new(), code: 0 })
    };
    assert_eq!(
        resume(&search_command(true), Reply::Json(Some("[1]".to_string()))),
        printed("[1]\n")
    );
    assert_eq!(resume(&search_command(true), Reply::Json(None)), printed("[]\n"));
}

#[test]
fn a_handoff_takes_its_settings_along() {
    assert_eq!(
        resume(&handoff_command(), Reply::Handoff(Event::Exchanges { count: 9 })),
        Step::Handoff {
            stdout: String::new(),
            stderr: String::new(),
            next: Action::FitTail { tail: 3, budget: 0 }
        }
    );
    assert_eq!(
        resume(&handoff_command(), Reply::Handoff(Event::Summary(Err("boom".to_string())))),
        Step::Done(Output {
            stdout: String::new(),
            stderr: "threadhop handoff: boom\n".to_string(),
            code: 1
        })
    );
}

#[test]
fn a_command_hears_only_what_it_asked_for() {
    let ticket = || Reply::Ticket(Found::Nowhere { directory: "/t".to_string() });
    assert_eq!(
        resume(&receive_command(), ticket()),
        Step::Done(Output {
            stdout: String::new(),
            stderr: "Ticket not found: tk_ab12cd34 (looked in /t)\n".to_string(),
            code: 1
        })
    );
    assert_eq!(resume(&peek_command(None, None, None), ticket()), Step::Nothing);
    assert_eq!(resume(&handoff_command(), ticket()), Step::Nothing);
    assert_eq!(resume(&receive_command(), sessions_reply()), Step::Nothing);
    assert_eq!(resume(&search_command(false), Reply::Json(None)), Step::Nothing);
}

// ---- peek ----------------------------------------------------------------------

#[test]
fn parse_range_accepts_one_based_inclusive() {
    assert_eq!(parse_range("2:3"), Some((2, 3)));
    assert_eq!(parse_range(" 1:1 "), Some((1, 1)));
}

#[test]
fn parse_range_rejects_malformed_specs() {
    assert_eq!(parse_range("3-5"), None);
    assert_eq!(parse_range("0:3"), None);
    assert_eq!(parse_range("5:2"), None);
    assert_eq!(parse_range("a:b"), None);
    assert_eq!(parse_range(":3"), None);
    assert_eq!(parse_range("3:"), None);
}

#[test]
fn parse_range_rejects_signs_inner_space_and_giants() {
    assert_eq!(parse_range("+1:2"), None);
    assert_eq!(parse_range("1 :2"), None);
    assert_eq!(parse_range("1:2:3"), None);
    assert_eq!(parse_range("1:99999999999999999999999"), None);
    assert_eq!(parse_range("007:0010"), Some((7, 10)));
}

#[test]
fn format_indices_contiguous_and_sparse() {
    assert_eq!(format_indices(&[]), "-");
    assert_eq!(format_indices(&[4]), "4");
    assert_eq!(format_indices(&[2, 3, 4]), "2-4");
    assert_eq!(format_indices(&[2, 5, 9]), "2,5,9");
}

#[test]
fn different_windows_have_different_labels() {
    let windows: [&[usize]; 8] =
        [&[], &[1], &[1, 2], &[1, 3], &[12], &[1, 2, 3], &[2, 3], &[1, 2, 4]];
    for (i, a) in windows.iter().enumerate() {
        for (j, b) in windows.iter().enumerate() {
            assert_eq!(format_indices(a) == format_indices(b), i == j, "{a:?} {b:?}");
        }
    }
}

#[test]
fn format_indices_notices_repetition_and_descent() {
    assert_eq!(format_indices(&[3, 3]), "3,3");
    assert_eq!(format_indices(&[3, 2]), "3,2");
    assert_eq!(format_indices(&[usize::MAX, 0]), format!("{},0", usize::MAX));
}

fn exchange(n: usize) -> Exchange {
    Exchange {
        first_timestamp: if n == 1 { None } else { Some(format!("t{n}a")) },
        last_timestamp: if n == 4 { None } else { Some(format!("t{n}b")) },
        text: format!("turn {n}"),
        rendered: format!("## {n}"),
    }
}

fn exchanges(n: usize) -> Vec<Exchange> {
    (1..=n).map(exchange).collect()
}

#[test]
fn a_window_is_printed_under_its_header() {
    let out = print_window(&exchanges(4), &vec![1, 2], "mine", &Some("proj".to_string()));
    assert_eq!(
        out,
        "[From \"mine\" — proj — t2a..t2b — exchanges 1-2 of 4]\n\n## 1\n\n## 2\n"
    );
    let one = print_window(&exchanges(4), &vec![4], "mine", &None);
    assert_eq!(one, "[From \"mine\" — unknown project — t4a..? — exchange 4 of 4]\n\n## 4\n");
}

fn window(last: Option<i64>, range: Option<&str>) -> Result<Vec<usize>, Output> {
    choose_window("aaaa1111", 7, last, &range.map(|s| s.to_string()), &None)
}

#[test]
fn the_last_five_are_the_default() {
    assert_eq!(window(None, None), Ok(vec![3, 4, 5, 6, 7]));
    assert_eq!(window(Some(5), None), window(None, None));
    assert_eq!(window(Some(2), None), window(None, Some("6:7")));
    assert_eq!(window(Some(99), None), Ok(vec![1, 2, 3, 4, 5, 6, 7]));
    assert_eq!(window(Some(i64::MAX), None), Ok(vec![1, 2, 3, 4, 5, 6, 7]));
}

#[test]
fn a_range_is_cut_to_the_session() {
    assert_eq!(window(None, Some("6:40")), Ok(vec![6, 7]));
    let out = window(None, Some("8:9")).unwrap_err();
    assert_eq!(out.code, 1);
    assert_eq!(
        out.stderr,
        "threadhop peek: --range 8:9 is out of bounds — session has 7 exchange(s).\n"
    );
    let out = window(None, Some("x")).unwrap_err();
    assert_eq!(out.code, 2);
    assert_eq!(
        out.stderr,
        "threadhop peek: invalid --range 'x' (expected A:B with 1 <= A <= B, 1-based inclusive).\n"
    );
}

#[test]
fn a_window_of_none_is_refused() {
    for n in [0, -3, i64::MIN] {
        let out = window(Some(n), None).unwrap_err();
        assert_eq!(out.code, 2);
        assert_eq!(out.stderr, "threadhop peek: --last must be >= 1.\n");
    }
}

#[test]
fn matches_are_chosen_in_order() {
    let flags = Some(("p".to_string(), Ok(vec![false, true, false, true])));
    assert_eq!(choose_window("aaaa1111", 4, None, &None, &flags), Ok(vec![2, 4]));
    let none = Some(("p".to_string(), Ok(vec![false; 4])));
    let out = choose_window("aaaa1111", 4, None, &None, &none).unwrap_err();
    assert_eq!(
        (out.code, out.stderr.as_str()),
        (1, "threadhop peek: no exchanges match 'p' in session aaaa1111 (4 exchanges scanned).\n")
    );
}

#[test]
fn patterns_are_regular_expressions_without_case() {
    let mut all = exchanges(3);
    all[1].text = "the Retry used a BACKOFF".to_string();
    assert_eq!(grep_exchanges("retry.*backoff", &all), Ok(vec![false, true, false]));
    assert_eq!(grep_exchanges("TURN [13]", &all), Ok(vec![true, false, true]));
    let out = peek_transcript(
        &all,
        "aaaa1111-rest",
        "mine",
        &None,
        None,
        &None,
        &Some("retry.*backoff".to_string()),
    );
    assert_eq!(out.code, 0);
    assert_eq!(
        out.stdout,
        "[From \"mine\" — unknown project — t2a..t2b — exchange 2 of 3]\n\n## 2\n"
    );
}

#[test]
fn a_malformed_pattern_is_an_error() {
    let refused = grep_exchanges("(", &exchanges(2)).unwrap_err();
    assert!(refused.contains("unclosed group"), "{refused}");
    let out = peek_transcript(
        &exchanges(2),
        "aaaa1111",
        "mine",
        &None,
        None,
        &None,
        &Some("(".to_string()),
    );
    assert_eq!(out.code, 2);
    assert_eq!(out.stderr, format!("threadhop peek: invalid --grep regex: {refused}\n"));
    assert_eq!(out.stdout, "");
}

#[test]
fn a_pattern_that_takes_too_much_room_is_an_error() {
    let refused = grep_exchanges("\\w{5000}\\w{5000}", &exchanges(1)).unwrap_err();
    assert!(refused.contains("size limit"), "{refused}");
}

#[test]
fn an_empty_session_is_an_error() {
    let out = peek_transcript(
        &vec![],
        "aaaa1111-rest",
        "mine",
        &None,
        None,
        &None,
        &Some("(".to_string()),
    );
    assert_eq!(out.code, 1);
    assert_eq!(
        out.stderr,
        "threadhop peek: session aaaa1111 has no user/assistant exchanges \
         (may be empty or contain only tool output).\n"
    );
}

#[test]
fn peek_wants_exactly_one_session() {
    assert_eq!(cmd_peek("aaab", "/p", &files(), &vec![]), Ok("aaab2222".to_string()));
    let none = cmd_peek("zzz", "/p", &files(), &vec![]).unwrap_err();
    assert_eq!(
        (none.code, none.stderr.as_str()),
        (1, "threadhop peek: no session matches 'zzz' (searched /p and the ThreadHop DB).\n")
    );
    let many = cmd_peek("aaa", "/p", &files(), &vec![]).unwrap_err();
    assert_eq!(
        (many.code, many.stderr.as_str()),
        (
            2,
            "threadhop peek: 'aaa' is ambiguous — 2 sessions match:\n  aaaa1111\n  aaab2222\n"
        )
    );
}

#[test]
fn peek_prefers_the_transcript_on_disk() {
    let disk = Some("/p/a.jsonl".to_string());
    let stored = Some("/old/a.jsonl".to_string());
    assert_eq!(
        choose_transcript("a", "/p", disk, stored.clone()),
        Ok("/p/a.jsonl".to_string())
    );
    assert_eq!(choose_transcript("a", "/p", None, stored), Ok("/old/a.jsonl".to_string()));
    let out = choose_transcript("a", "/p", None, None).unwrap_err();
    assert_eq!(
        (out.code, out.stderr.as_str()),
        (1, "threadhop peek: no transcript found for session a under /p.\n")
    );
}

// ---- search --------------------------------------------------------------------

fn marks() -> Marks {
    Marks { start: "\u{2}".to_string(), end: "\u{3}".to_string() }
}

#[test]
fn clean_snippet_highlights_or_strips_sentinels() {
    let raw = "found \u{2}term\u{3} here";
    assert_eq!(clean_snippet(raw, &marks(), true), "found **term** here");
    assert_eq!(clean_snippet(raw, &marks(), false), "found term here");
}

#[test]
fn clean_snippet_collapses_whitespace() {
    assert_eq!(clean_snippet("a\n  b\tc", &marks(), false), "a b c");
}

#[test]
fn longer_marks_are_found_from_left_to_right() {
    let marks = Marks { start: "<<".to_string(), end: ">>".to_string() };
    assert_eq!(clean_snippet("<<<a>>>", &marks, true), "**<a**>");
}

fn hit(name: Option<&str>) -> CliHit {
    CliHit {
        session_id: "aaaa1111-rest".to_string(),
        custom_name: name.map(|s| s.to_string()),
        project: None,
        timestamp: Some("2026-01-02".to_string()),
        snippet: "one \u{2}two\u{3}\nthree".to_string(),
        uuid: "u1".to_string(),
    }
}

#[test]
fn hits_are_printed_in_blocks() {
    let out = cmd_search("two", &vec![hit(None)], &marks());
    assert_eq!(
        out.stdout,
        "aaaa1111  aaaa1111  [unknown project]  2026-01-02\n  one **two** three\n\n\
         Tip: threadhop peek <session> --grep 'two' shows full exchanges.\n"
    );
    assert_eq!((out.stderr.as_str(), out.code), ("", 0));
    assert_eq!(session_name(&hit(Some("mine"))), "mine");
}

#[test]
fn no_hits_are_no_error() {
    let out = cmd_search("two", &vec![], &marks());
    assert_eq!((out.stdout.as_str(), out.code), ("No matches for 'two'.\n", 0));
}

#[test]
fn json_rows_carry_plain_snippets() {
    let rows = json_hits(&vec![hit(Some("mine"))], &marks());
    assert_eq!(rows.len(), 1);
    assert_eq!(rows[0].session_id, "aaaa1111-rest");
    assert_eq!(rows[0].session_name, "mine");
    assert_eq!(rows[0].project, None);
    assert_eq!(rows[0].timestamp.as_deref(), Some("2026-01-02"));
    assert_eq!(rows[0].snippet, "one two three");
    assert_eq!(rows[0].uuid, "u1");
}

#[test]
fn a_project_becomes_a_filter_of_the_query() {
    assert_eq!(raw_query("a b", &Some("p".to_string())), "a b project:p");
    assert_eq!(raw_query("a b", &None), "a b");
}

// ---- handoff and receive ---------------------------------------------------------

fn handoff() -> Handoff {
    Handoff {
        session: "41f3a2b8-and-more".to_string(),
        tail: 3,
        tail_budget: -1,
        model: "haiku".to_string(),
    }
}

fn said(event: Event) -> (String, String, Action) {
    let r = cmd_prepare(&handoff(), event);
    (r.stdout, r.stderr, r.next)
}

fn error(message: &str) -> (String, String, Action) {
    (String::new(), format!("threadhop handoff: {message}\n"), Action::Finish { code: 1 })
}

fn quietly(next: Action) -> (String, String, Action) {
    (String::new(), String::new(), next)
}

#[test]
fn a_handoff_goes_from_step_to_step() {
    let path = Some("/p/t.jsonl".to_string());
    assert_eq!(
        said(Event::Transcript { path, projects: "/p".to_string() }),
        quietly(Action::LoadExchanges { path: "/p/t.jsonl".to_string() })
    );
    assert_eq!(
        said(Event::Exchanges { count: 9 }),
        quietly(Action::FitTail { tail: 3, budget: 0 })
    );
    assert_eq!(said(Event::TailFitted { dropped: 0 }), quietly(Action::OpenDatabase));
    assert_eq!(
        said(Event::TailFitted { dropped: 2 }),
        (
            String::new(),
            "threadhop handoff: dropped 2 oldest tail exchange(s) to fit --tail-budget -1.\n"
                .to_string(),
            Action::OpenDatabase
        )
    );
    assert_eq!(
        said(Event::Database { path: "/db".to_string(), error: None }),
        quietly(Action::EnsureTable)
    );
    assert_eq!(
        said(Event::StateTable { error: None, head_is_empty: false }),
        quietly(Action::Summarize { model: "haiku".to_string() })
    );
    assert_eq!(
        said(Event::Summary(Ok("sum".to_string()))),
        quietly(Action::WriteTicket { summary: Some("sum".to_string()) })
    );
    assert_eq!(
        said(Event::Ticket { id: "tk_1".to_string(), written: Ok("/t/tk_1.md".to_string()) }),
        (
            "/t/tk_1.md\nPaste in the target chat: !threadhop receive tk_1\n  \
             (or: threadhop receive tk_1)\n"
                .to_string(),
            String::new(),
            Action::Finish { code: 0 }
        )
    );
}

#[test]
fn a_short_session_is_handed_over_without_the_model() {
    assert_eq!(
        said(Event::StateTable { error: None, head_is_empty: true }),
        (
            String::new(),
            "threadhop handoff: session too short to summarize — skipping the LLM call.\n"
                .to_string(),
            Action::WriteTicket { summary: None }
        )
    );
}

#[test]
fn a_failed_handoff_writes_no_ticket() {
    let boom = || Some("boom".to_string());
    assert_eq!(
        said(Event::Transcript { path: None, projects: "/p".to_string() }),
        error("no transcript found for session 41f3a2b8-and-more under /p.")
    );
    assert_eq!(
        said(Event::Exchanges { count: 0 }),
        error("session 41f3a2b8 has no user/assistant exchanges to transfer.")
    );
    assert_eq!(
        said(Event::Database { path: "/db".to_string(), error: boom() }),
        error("cannot open /db: boom")
    );
    assert_eq!(
        said(Event::StateTable { error: boom(), head_is_empty: true }),
        error("transfer_state setup failed: boom")
    );
    assert_eq!(said(Event::Summary(Err("boom".to_string()))), error("boom"));
    assert_eq!(
        said(Event::Ticket { id: "tk_1".to_string(), written: Err("boom".to_string()) }),
        error("ticket write failed: boom")
    );
}

#[test]
fn a_ticket_is_printed_as_it_stands() {
    let content = Ok("# ticket, no newline at the end".to_string());
    let out = cmd_receive("tk_1", Found::At { path: "/t/tk_1.md".to_string(), content });
    assert_eq!((out.stdout.as_str(), out.code), ("# ticket, no newline at the end", 0));
    let gone = cmd_receive("tk_1", Found::Nowhere { directory: "/t".to_string() });
    assert_eq!(
        (gone.stderr.as_str(), gone.code),
        ("Ticket not found: tk_1 (looked in /t)\n", 1)
    );
    let content = Err("denied".to_string());
    let locked = cmd_receive("tk_1", Found::At { path: "/t/tk_1.md".to_string(), content });
    assert_eq!(
        (locked.stderr.as_str(), locked.code),
        ("Ticket not readable: /t/tk_1.md (denied)\n", 1)
    );
}
