use brain::error::{BrainError, Fault};
use brain::local::{
    bash_content, bash_outcome, bash_timeout_ms, check_artifact_name, decimal_text, edit_replacements,
    glob_hits, grep_file, grep_hits, grep_mode, ls_entries, public_path, read_window, resolve_relative,
    select_matches, GrepMode, LocalFactory, LocalHand, StreamBuf, WalkEntry, MAX_STREAM_BYTES, grep_is_text, grep_size_ok,
};

fn hand() -> LocalHand {
    LocalFactory::new("/data").hand("ses_a")
}

#[test]
fn paths_map_into_the_workspace_and_never_escape() {
    let h = hand();
    assert!(h.resolve("a/b.txt").is_ok());
    assert!(h.resolve("/workspace/a.txt").is_ok());
    assert!(h.resolve("/home/agent/.bashrc").is_ok());
    assert!(h.resolve("/etc/passwd").is_err());
    assert!(h.resolve("../outside").is_err());
    assert!(h.resolve("a/../../outside").is_err());
}

#[test]
fn guest_paths_resolve_to_exact_workspace_paths() {
    let h = LocalHand::new("/data/", "ses_a");
    assert_eq!(h.workspace(), "/data/ses_a/workspace");
    assert_eq!(h.artifacts(), "/data/ses_a/artifacts");
    assert_eq!(h.bundles(), "/data/ses_a/bundles");
    assert_eq!(h.resolve("/workspace/a//./b.txt").unwrap(), "/data/ses_a/workspace/a/b.txt");
    assert_eq!(h.resolve("  /home/agent/x  ").unwrap(), "/data/ses_a/workspace/x");
    assert_eq!(h.resolve("/workspace").unwrap(), "/data/ses_a/workspace");
    assert_eq!(resolve_relative("./a/").unwrap(), vec!["a".to_string()]);
    assert_eq!(resolve_relative("/tmp/x"), Err(BrainError::Invalid(Fault::PathOutsideWorkspace)));
    assert_eq!(resolve_relative("a/.."), Err(BrainError::Invalid(Fault::PathEscapesWorkspace)));
    assert_eq!(public_path(""), "/workspace");
    assert_eq!(public_path("a/b"), "/workspace/a/b");
}

#[test]
fn artifact_names_are_plain() {
    assert!(check_artifact_name("report.txt").is_ok());
    assert!(check_artifact_name("a.b.c").is_ok());
    for bad in ["a/b", "a\\b", "..", "x..y"] {
        assert_eq!(check_artifact_name(bad), Err(BrainError::Invalid(Fault::ArtifactNameNotPlain)));
    }
}

#[test]
fn edits_need_exactly_one_occurrence_unless_all_are_replaced() {
    assert_eq!(edit_replacements(0, false), Err(BrainError::Invalid(Fault::OldStringNotFound)));
    assert_eq!(edit_replacements(0, true), Err(BrainError::Invalid(Fault::OldStringNotFound)));
    assert_eq!(edit_replacements(3, false), Err(BrainError::Invalid(Fault::OldStringAmbiguous { count: 3 })));
    assert_eq!(edit_replacements(3, true), Ok(3));
    assert_eq!(edit_replacements(1, false), Ok(1));
}

#[test]
fn reads_window_their_lines() {
    assert_eq!(read_window(10, 1, 2000), (1, 10));
    assert_eq!(read_window(10, 0, 3), (1, 3));
    assert_eq!(read_window(10, 4, 3), (4, 6));
    assert_eq!(read_window(10, 50, 3), (10, 10));
    assert_eq!(read_window(0, 1, 5), (1, 0));
}

#[test]
fn bash_reports_outcomes_and_output() {
    assert_eq!(bash_timeout_ms(None), 120_000);
    assert_eq!(bash_timeout_ms(Some(5)), 5);
    assert_eq!(bash_timeout_ms(Some(10_000_000)), 600_000);
    assert_eq!(bash_outcome(true, false, Some(0)), ("cancelled", true));
    assert_eq!(bash_outcome(false, true, None), ("completed", true));
    assert_eq!(bash_outcome(false, false, Some(0)), ("completed", false));
    assert_eq!(bash_outcome(false, false, Some(2)), ("completed", true));
    assert_eq!(bash_content("out", "", false, 1), "out");
    assert_eq!(bash_content("out", "err", false, 1), "out\n[stderr]\nerr");
    assert_eq!(bash_content("", "err", false, 1), "[stderr]\nerr");
    assert_eq!(bash_content("x", "", true, 1500), "[command timed out after 1500 ms]\nx");
    assert_eq!(decimal_text(0), "0");
    assert_eq!(decimal_text(18446744073709551615), "18446744073709551615");
}

fn lines(texts: &[&str]) -> Vec<String> {
    texts.iter().map(|t| t.to_string()).collect()
}

#[test]
fn grep_reports_files_counts_and_context() {
    let file = lines(&["alpha", "needle one", "beta", "gamma", "needle two"]);
    let hits = grep_hits("needle", false, &file).unwrap();
    assert_eq!(hits, vec![false, true, false, false, true]);
    assert!(grep_hits("NEEDLE", true, &file).unwrap()[1]);
    assert_eq!(grep_hits("(", false, &file), Err(BrainError::Invalid(Fault::GrepPatternInvalid)));
    assert_eq!(grep_mode("content"), GrepMode::Content);
    assert_eq!(grep_mode("count"), GrepMode::Count);
    assert_eq!(grep_mode("files"), GrepMode::Files);

    let mut out = Vec::new();
    let mut results = 0;
    assert!(!grep_file(&mut out, &mut results, "src/a.rs", &file, &hits, GrepMode::Content, 1, 10));
    assert_eq!(
        out,
        lines(&["src/a.rs:1: alpha", "src/a.rs:2: needle one", "src/a.rs:3: beta", "src/a.rs:4: gamma", "src/a.rs:5: needle two"])
    );
    assert_eq!(results, 2);

    let mut out = Vec::new();
    let mut results = 0;
    assert!(grep_file(&mut out, &mut results, "src/a.rs", &file, &hits, GrepMode::Content, 0, 1));
    assert_eq!(out, lines(&["src/a.rs:2: needle one"]));

    let mut out = Vec::new();
    let mut results = 0;
    assert!(!grep_file(&mut out, &mut results, "src/a.rs", &file, &hits, GrepMode::Count, 0, 5));
    assert!(!grep_file(&mut out, &mut results, "src/b.rs", &file, &hits, GrepMode::Files, 0, 5));
    assert!(!grep_file(&mut out, &mut results, "src/c.rs", &file, &[false; 5], GrepMode::Files, 0, 5));
    assert_eq!(out, lines(&["src/a.rs: 2", "src/b.rs"]));
    assert!(grep_file(&mut out, &mut results, "src/d.rs", &file, &hits, GrepMode::Files, 0, 2));
}

#[test]
fn glob_and_ls_respect_bounds() {
    let paths = lines(&["src/f0.rs", "src/f1.rs", "README.md", "src/f2.rs"]);
    let hits = glob_hits("**/*.rs", &paths).unwrap();
    assert_eq!(hits, vec![true, true, false, true]);
    assert_eq!(glob_hits("a[", &paths), Err(BrainError::Invalid(Fault::GlobPatternInvalid)));
    assert_eq!(select_matches(&paths, &hits, 2), (lines(&["src/f0.rs", "src/f1.rs"]), true));
    assert_eq!(select_matches(&paths, &hits, 3), (lines(&["src/f0.rs", "src/f1.rs", "src/f2.rs"]), false));
    let walk = vec![
        WalkEntry { rel: "src".into(), name: "src".into(), is_dir: true },
        WalkEntry { rel: ".git".into(), name: ".git".into(), is_dir: true },
        WalkEntry { rel: "src/a.rs".into(), name: "a.rs".into(), is_dir: false },
    ];
    assert_eq!(ls_entries(&walk, false, 10), (lines(&["src/", "src/a.rs"]), false));
    assert_eq!(ls_entries(&walk, true, 2), (lines(&["src/", ".git/"]), true));
}

#[test]
fn stream_capture_keeps_the_tail_on_a_character_boundary() {
    let mut buf = StreamBuf::new();
    buf.push("hello ");
    buf.push("world");
    assert_eq!(buf.render(), "hello world");
    assert_eq!(buf.elided, 0);

    let mut big = StreamBuf::new();
    big.push("ab");
    // 'é' takes two bytes: a cut that lands inside it moves past it.
    let filler = "é".repeat(MAX_STREAM_BYTES / 2);
    big.push(&filler);
    assert!(big.tail.len() <= MAX_STREAM_BYTES);
    assert_eq!(big.elided, 2);
    assert_eq!(big.tail, filler);
    big.push("x");
    assert_eq!(big.elided, 4);
    assert!(big.tail.ends_with("éx"));
    assert_eq!(big.tail.len(), MAX_STREAM_BYTES - 1);
    let shown = big.render();
    assert!(shown.starts_with("[first 4 bytes elided]\n"));
    assert!(shown.ends_with("éx"));
}

#[test]
fn unicode_white_space_around_a_path_is_ignored() {
    let h = hand();
    assert_eq!(h.resolve("\u{3000} a/b.txt\t\n"), h.resolve("a/b.txt"));
    assert_eq!(resolve_relative("\u{2003}/workspace/x ").map(|v| v.len()), Ok(1));
}

#[test]
fn grep_skips_large_and_binary_files() {
    assert!(grep_size_ok(2 * 1024 * 1024));
    assert!(!grep_size_ok(2 * 1024 * 1024 + 1));
    assert!(grep_is_text(b"plain text\n"));
    assert!(!grep_is_text(b"bin\0ary"));
}
