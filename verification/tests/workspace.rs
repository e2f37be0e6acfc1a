use rupu_cli::autoflow::workspace_diff::{
    head_branch, line_count, numstat_sums, origin_branch, porcelain_lines_ok, split_lines, tally_git_status,
};

fn lines_of(text: &str) -> Vec<String> {
    split_lines(text).into_iter().map(|l| l.into_iter().collect()).collect()
}

#[test]
fn lines_split_like_str_lines() {
    for text in ["", "a", "a\n", "a\r\nb", "\n\n", "x\r", "a\r\n\r\nb\n"] {
        let ours = lines_of(text);
        let std: Vec<String> = text.lines().map(String::from).collect();
        assert_eq!(ours, std, "{text:?}");
    }
    assert_eq!(line_count("one\ntwo\nthree\n"), 3);
}

#[test]
fn porcelain_status_is_tallied_by_kind() {
    let out = " M src/lib.rs\n?? notes.md\nR  old.rs -> new.rs\n D gone.rs\nA  added.rs\nMM src/lib.rs\n?? extra.txt\n";
    let t = tally_git_status(out);
    assert_eq!(t.files_changed, 6);
    assert_eq!(t.created, 3);
    assert_eq!(t.modified, 2);
    assert_eq!(t.deleted, 1);
    assert_eq!(t.renamed, 1);
    assert_eq!(t.top_files, vec!["src/lib.rs", "notes.md", "new.rs", "gone.rs"]);
    assert_eq!(t.untracked, vec!["notes.md", "extra.txt"]);
}

#[test]
fn short_and_blank_porcelain_lines_are_skipped() {
    let t = tally_git_status("M a\n\n?? \n   \r\n");
    assert_eq!(t.files_changed, 0);
    assert_eq!(t.created + t.modified + t.deleted + t.renamed, 0);
    // A rename arrow is split from the left: the last piece is what follows the
    // final arrow found that way.
    let t = tally_git_status("R  a -> -> b\n");
    assert_eq!(t.top_files, vec!["-> b"]);
}

#[test]
fn porcelain_lines_must_slice_on_char_boundaries() {
    assert!(porcelain_lines_ok(" M a.rs\n?? \u{e9}t\u{e9}.md\n"));
    assert!(porcelain_lines_ok("\u{e9}M path\n"));
    assert!(!porcelain_lines_ok("a\u{e9}b path\n"));
    assert!(!porcelain_lines_ok("\u{20ac}M path\n"));
    // Lines under four bytes are never sliced.
    assert!(porcelain_lines_ok("a\u{e9}\n"));
}

#[test]
fn numstat_sums_added_and_removed_columns() {
    let out = "3\t1\tsrc/a.rs\n-\t-\tlogo.png\n10\t0\tREADME.md\n+2\t7\tx\nbad line\n";
    assert_eq!(numstat_sums(out), (15, 8));
    assert_eq!(numstat_sums(""), (0, 0));
    assert_eq!(numstat_sums("5\n"), (5, 0));
    let big = "18446744073709551615\t0\ta\n18446744073709551615\t0\tb\n";
    assert_eq!(numstat_sums(big), (2 * u64::MAX as u128, 0));
}

#[test]
fn branches_come_from_symbolic_refs() {
    assert_eq!(origin_branch("origin/main\n").as_deref(), Some("main"));
    assert_eq!(origin_branch("origin/\n"), None);
    assert_eq!(origin_branch("upstream/main"), None);
    assert_eq!(head_branch("  feature/x \n").as_deref(), Some("feature/x"));
    assert_eq!(head_branch(" \n"), None);
}
