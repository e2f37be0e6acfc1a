use rupu_cli::cleanup::{
    cleanup_selection, ensure_output_format, session_row, sort_cleanup_rows, transcript_row, Args,
};
use rupu_cli::completion::{completion_candidates, workflow_name_candidates};
use rupu_cli::output::OutputFormat;
use rupu_cli::update::{backup_file_name, staged_checksum_line};

fn args(sessions: bool, transcripts: bool) -> Args {
    Args { older_than: None, dry_run: true, sessions, transcripts }
}

#[test]
fn cleanup_covers_both_kinds_unless_one_is_asked_for() {
    assert_eq!(cleanup_selection(&args(false, false)), (true, true));
    assert_eq!(cleanup_selection(&args(true, false)), (true, false));
    assert_eq!(cleanup_selection(&args(false, true)), (false, true));
    assert!(ensure_output_format(OutputFormat::Csv).is_ok());
}

#[test]
fn cleanup_rows_sort_by_kind_id_and_scope() {
    let rows = vec![
        transcript_row("run_b".into(), "global".into(), "t".into(), "deleted".into(), "/x/run_b.jsonl".into()),
        session_row("ses_2".into(), "project".into(), "t".into(), "would delete".into(), "archived"),
        session_row("ses_1".into(), "project".into(), "t".into(), "deleted".into(), "archived"),
        transcript_row("run_a".into(), "project".into(), "t".into(), "deleted".into(), "/x/run_a.jsonl".into()),
        transcript_row("run_a".into(), "global".into(), "t".into(), "deleted".into(), "/y/run_a.jsonl".into()),
    ];
    let sorted = sort_cleanup_rows(rows);
    let keys: Vec<(String, String, String)> =
        sorted.iter().map(|r| (r.kind.clone(), r.id.clone(), r.scope.clone())).collect();
    assert_eq!(
        keys,
        vec![
            ("session".to_string(), "ses_1".to_string(), "project".to_string()),
            ("session".to_string(), "ses_2".to_string(), "project".to_string()),
            ("transcript".to_string(), "run_a".to_string(), "global".to_string()),
            ("transcript".to_string(), "run_a".to_string(), "project".to_string()),
            ("transcript".to_string(), "run_b".to_string(), "global".to_string()),
        ]
    );
    assert_eq!(sorted[0].detail, "status archived");
}

#[test]
fn completion_lists_prefixed_names_once_in_order() {
    let names = vec!["ses_b".to_string(), "run_1".to_string(), "ses_a".to_string(), "ses_b".to_string()];
    assert_eq!(completion_candidates(&names, "ses_"), vec!["ses_a", "ses_b"]);
    assert_eq!(completion_candidates(&names, ""), vec!["run_1", "ses_a", "ses_b"]);
    let yaml = vec!["review".to_string(), "deploy".to_string()];
    let yml = vec!["build".to_string(), "review".to_string()];
    assert_eq!(workflow_name_candidates(&yaml, &yml, ""), vec!["deploy", "review", "build"]);
}

#[test]
fn updates_verify_the_staged_binary_and_back_up_the_old_one() {
    assert_eq!(staged_checksum_line("abc123"), "abc123  staged");
    assert_eq!(backup_file_name(Some("rupu")), "rupu-rupu");
    assert_eq!(backup_file_name(None), "rupu-prev");
}
