use rupu_cli::autoflow::wrap::wrap_retained_serve_plain;
use rupu_cli::autoflow::issue_ref::{
    format_issue_ref, issue_display_ref, issue_url, parse_issue_ref_text, tracker_as_str,
    tracker_from_str, IssueRef, IssueRefError, IssueTracker,
};
use rupu_cli::autoflow::outcome::{
    choose_outcome, extract_balanced_json_candidate, json_outcome_text, locate_outcome_record,
    markdown_fenced_blocks, OutcomeRecordError, OutputContract,
};
use rupu_cli::autoflow::shape::{
    compact_join, format_count, human_tracker_name, short_locator, short_run_id, short_url_like,
    tracker_name_from_issue_ref, truncate_for_table, truncate_text,
};
use rupu_cli::number::{i64_to_string, parse_i64, parse_u64, u64_to_string, IntErrorKind};
use rupu_cli::text::{join_strings, str_contains, trim_str};

#[test]
fn counts_get_thousands_separators() {
    assert_eq!(format_count(0), "0");
    assert_eq!(format_count(999), "999");
    assert_eq!(format_count(1000), "1,000");
    assert_eq!(format_count(1234567), "1,234,567");
    assert_eq!(format_count(u64::MAX), "18,446,744,073,709,551,615");
}

#[test]
fn truncation_marks_the_cut_with_an_ellipsis() {
    assert_eq!(truncate_text("hello", 5), "hello");
    assert_eq!(truncate_text("hello world", 5), "hell…");
    assert_eq!(truncate_text("hello", 0), "…");
    assert_eq!(truncate_for_table("  padded value  ", 6), "padde…");
    assert_eq!(truncate_for_table("  ok  ", 6), "ok");
}

#[test]
fn identifiers_are_shortened_for_tables() {
    assert_eq!(short_run_id("run_short"), "run_short");
    assert_eq!(short_run_id("run_01HZX0ABCDEFGHJKMNPQRS"), "run_01HZX0AB…MNPQRS");
    assert_eq!(short_locator("github:Section9Labs/rupu", 40), "Section9Labs/rupu");
    assert_eq!(short_locator("gitlab:group/proj", 40), "gitlab:group/proj");
    assert_eq!(short_url_like("https://example.com/a/very/long/path", 15), "example.com/a/…");
    assert_eq!(human_tracker_name("github"), "GitHub");
    assert_eq!(human_tracker_name("gitlab"), "gitlab");
    assert_eq!(tracker_name_from_issue_ref("jira:ENG/issues/7"), "Jira");
    assert_eq!(tracker_name_from_issue_ref("no-colon"), "Issue");
}

#[test]
fn compact_join_marks_the_hidden_rest() {
    let v: Vec<String> = vec!["a".into(), "b".into(), "c".into()];
    assert_eq!(compact_join(&v, 2, 80), "a, b, +1");
    assert_eq!(compact_join(&v, 5, 80), "a, b, c");
    assert_eq!(compact_join(&v, 5, 4), "a, …");
    assert_eq!(compact_join(&vec![], 5, 80), "");
    assert_eq!(join_strings(&v, " | "), "a | b | c");
}

#[test]
fn numbers_read_and_print_like_std() {
    assert_eq!(parse_i64(&['-', '4', '2']), Ok(-42));
    assert_eq!(parse_i64(&['+', '7']), Ok(7));
    assert_eq!(parse_i64(&[]), Err(IntErrorKind::Empty));
    assert_eq!(parse_i64(&['1', 'x']), Err(IntErrorKind::InvalidDigit));
    let big: Vec<char> = "9223372036854775808".chars().collect();
    assert_eq!(parse_i64(&big), Err(IntErrorKind::PosOverflow));
    let small: Vec<char> = "-9223372036854775809".chars().collect();
    assert_eq!(parse_i64(&small), Err(IntErrorKind::NegOverflow));
    let max: Vec<char> = "18446744073709551615".chars().collect();
    assert_eq!(parse_u64(&max), Ok(u64::MAX));
    assert_eq!(parse_u64(&['-', '1']), Err(IntErrorKind::InvalidDigit));
    assert_eq!(u64_to_string(1_000_000), "1000000");
    assert_eq!(i64_to_string(i64::MIN), i64::MIN.to_string());
    for s in ["0", "-0", "+5", "00012", "-", "+", "12a", "99999999999999999999"] {
        let cs: Vec<char> = s.chars().collect();
        assert_eq!(parse_i64(&cs).ok(), s.parse::<i64>().ok(), "{s}");
    }
}

#[test]
fn text_helpers_follow_str() {
    assert_eq!(trim_str("\t a b \n").into_iter().collect::<String>(), "a b");
    assert!(str_contains("autoflow serve", "flow s"));
    assert!(!str_contains("autoflow", "flows"));
}

#[test]
fn issue_refs_round_trip() {
    let r = parse_issue_ref_text("github:Section9Labs/rupu/issues/42").unwrap();
    assert_eq!(r.tracker, IssueTracker::Github);
    assert_eq!(r.project, "Section9Labs/rupu");
    assert_eq!(r.number, 42);
    assert_eq!(format_issue_ref(&r), "github:Section9Labs/rupu/issues/42");
    // The last `/issues/` splits project from number.
    let nested = parse_issue_ref_text("gitlab:a/issues/b/issues/9").unwrap();
    assert_eq!(nested.project, "a/issues/b");
    assert_eq!(nested.number, 9);
    assert_eq!(tracker_as_str(IssueTracker::Linear), "linear");
    assert_eq!(tracker_from_str("jira"), Some(IssueTracker::Jira));
    assert_eq!(tracker_from_str("GitHub"), None);
}

#[test]
fn bad_issue_refs_say_why() {
    match parse_issue_ref_text("no-colon") {
        Err(e @ IssueRefError::Invalid { .. }) => assert_eq!(e.message(), "invalid issue ref `no-colon`"),
        other => panic!("unexpected {other:?}"),
    }
    assert!(matches!(parse_issue_ref_text("github:x/pulls/1"), Err(IssueRefError::Invalid { .. })));
    match parse_issue_ref_text("bitbucket:x/issues/1") {
        Err(IssueRefError::UnknownTracker { tracker }) => assert_eq!(tracker, "bitbucket"),
        other => panic!("unexpected {other:?}"),
    }
    match parse_issue_ref_text("github:x/issues/abc") {
        Err(e @ IssueRefError::Number { .. }) => assert_eq!(e.message(), "invalid digit found in string"),
        other => panic!("unexpected {other:?}"),
    }
}

#[test]
fn issue_display_keys_and_urls() {
    let jira = IssueRef { tracker: IssueTracker::Jira, project: "acme/ENG".into(), number: 7 };
    assert_eq!(issue_display_ref(&jira), "ENG-7");
    assert_eq!(issue_url(&jira, Some("https://acme.atlassian.net/")).as_deref(), Some("https://acme.atlassian.net/browse/ENG-7"));
    assert_eq!(issue_url(&jira, None), None);
    let gh = IssueRef { tracker: IssueTracker::Github, project: "o/r".into(), number: 3 };
    assert_eq!(issue_display_ref(&gh), "3");
    assert_eq!(issue_url(&gh, None).as_deref(), Some("https://github.com/o/r/issues/3"));
    let gl = IssueRef { tracker: IssueTracker::Gitlab, project: "o/r".into(), number: 3 };
    assert_eq!(issue_url(&gl, Some("https://x")), None);
}

#[test]
fn outcome_candidates_come_from_fences_and_balanced_spans() {
    let raw = "Here you go:\n```json\n{\"decision\": \"done\"}\n```\nand ```[1]```";
    // A fence's body starts after the line that opens it; a fence with no line break ends the scan.
    assert_eq!(markdown_fenced_blocks(raw), vec!["{\"decision\": \"done\"}\n".to_string()]);
    assert_eq!(markdown_fenced_blocks("```\na\n```\n```\nb```"), vec!["a\n".to_string(), "b".to_string()]);
    assert_eq!(
        extract_balanced_json_candidate("prefix {\"a\": {\"b\": [1]}} suffix }").as_deref(),
        Some("{\"a\": {\"b\": [1]}}")
    );
    assert_eq!(extract_balanced_json_candidate("just [1, 2] here").as_deref(), Some("[1, 2]"));
    assert_eq!(extract_balanced_json_candidate("nothing"), None);
    assert_eq!(choose_outcome(&vec![false, true, true]), Some(1));
    assert_eq!(choose_outcome(&vec![false, false]), None);
}

#[test]
fn json_outcome_text_takes_the_first_candidate_that_parses() {
    assert_eq!(json_outcome_text("  {\"a\": 1}  ").as_deref(), Some("  {\"a\": 1}  "));
    // The first fence parses once trimmed, so the second is never read.
    let raw = "Result:\n```json\n{\"decision\": \"done\"}\n```\n```\n{\"decision\": \"x\"}\n```";
    assert_eq!(json_outcome_text(raw).as_deref(), Some("{\"decision\": \"done\"}"));
    let skip_bad = "```\nnot json\n```\n```\n[1, 2]\n```";
    assert_eq!(json_outcome_text(skip_bad).as_deref(), Some("[1, 2]"));
    assert_eq!(json_outcome_text("I decided {\"decision\": \"done\"} today").as_deref(), Some("{\"decision\": \"done\"}"));
    assert_eq!(json_outcome_text("no json here"), None);
}

#[test]
fn outcome_record_is_the_last_result_of_the_contract_step() {
    let contracts = vec![
        OutputContract { name: "summary".into(), from_step: "write".into() },
        OutputContract { name: "result".into(), from_step: "decide".into() },
    ];
    let steps: Vec<String> = vec!["decide".into(), "write".into(), "decide".into(), "notify".into()];
    assert_eq!(locate_outcome_record("ctl", Some("result"), &contracts, "run_1", &steps).unwrap(), (1, 2));
    match locate_outcome_record("ctl", None, &contracts, "run_1", &steps) {
        Err(e @ OutcomeRecordError::NoOutcome { .. }) => {
            assert_eq!(e.message(), "autoflow `ctl` does not declare `autoflow.outcome.output`")
        }
        other => panic!("unexpected {other:?}"),
    }
    match locate_outcome_record("ctl", Some("verdict"), &contracts, "run_1", &steps) {
        Err(e @ OutcomeRecordError::MissingContract { .. }) => {
            assert_eq!(e.message(), "workflow `ctl` missing output contract `verdict`")
        }
        other => panic!("unexpected {other:?}"),
    }
    match locate_outcome_record("ctl", Some("summary"), &contracts, "run_1", &vec!["decide".to_string()]) {
        Err(e @ OutcomeRecordError::MissingStep { .. }) => {
            assert_eq!(e.message(), "run `run_1` did not persist output for step `write`")
        }
        other => panic!("unexpected {other:?}"),
    }
}

#[test]
fn wrapping_keeps_words_on_lines_that_fit() {
    assert_eq!(wrap_retained_serve_plain("hello world foo", 11), vec!["hello world", "foo"]);
    assert_eq!(wrap_retained_serve_plain("abcdefgh", 3), vec!["abc", "def", "gh"]);
    assert_eq!(wrap_retained_serve_plain("  a \n b  ", 5), vec!["a b"]);
    assert_eq!(wrap_retained_serve_plain("anything", 0), vec![""]);
    assert_eq!(wrap_retained_serve_plain(" \t ", 4), vec![""]);
    let text = "the quick brown fox jumps over the lazy dog";
    let lines = wrap_retained_serve_plain(text, 9);
    assert!(lines.iter().all(|l| !l.is_empty() && l.chars().count() <= 9));
    let joined: String = lines.concat().chars().filter(|c| !c.is_whitespace()).collect();
    let expected: String = text.chars().filter(|c| !c.is_whitespace()).collect();
    assert_eq!(joined, expected);
}
