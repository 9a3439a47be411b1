use omadoctor::detector::{command_output, DetectionResult};
use omadoctor::fixer::{next_progress, progress_delay_ms, FixResult, PROGRESS_CEILING};
use omadoctor::github::{search_result, search_url, GitHubIssue, GitHubSearchResponse, SearchFailure};
use omadoctor::text::{ends_with, join, str_lt, strip_leading_char, trim};

#[test]
fn trim_removes_unicode_white_space() {
    assert_eq!(trim("  a b \n"), "a b");
    assert_eq!(trim("\u{3000}\u{85}x\u{a0}\t"), "x");
    assert_eq!(trim("   "), "");
    assert_eq!(trim(""), "");
    assert_eq!(trim("\u{200b}x"), "\u{200b}x");
    for s in ["  hi  ", "\u{2028}z\u{2029}", "\r\nq\r\n"] {
        assert_eq!(trim(s), s.trim());
    }
}

#[test]
fn small_text_helpers() {
    assert_eq!(strip_leading_char("vv1.2", 'v'), "1.2");
    assert_eq!(strip_leading_char("1.2v", 'v'), "1.2v");
    assert_eq!(join(&vec!["a".to_string(), "b".to_string(), "c".to_string()], ", "), "a, b, c");
    assert_eq!(join(&vec![], ", "), "");
    assert!(ends_with("x.toml", ".toml"));
    assert!(!ends_with("toml", ".toml"));
    assert!(str_lt("B", "a"));
    assert!(str_lt("a", "ab"));
    assert!(!str_lt("ab", "ab"));
    assert!(str_lt("z", "é"));
}

#[test]
fn command_output_joins_and_trims() {
    assert_eq!(command_output(b"  out\n", b"err  \n"), "out\nerr");
    assert_eq!(command_output(b"", b""), "");
    assert_eq!(command_output(&[0xff, b'a'], b""), "\u{fffd}a");
}

#[test]
fn detection_success_means_issue_present() {
    let found = DetectionResult::from_run(true, b"missing lib\n", b"");
    assert!(found.issue_found);
    assert_eq!(found.output, "missing lib");
    let fine = DetectionResult::from_run(false, b"", b"ok");
    assert!(!fine.issue_found);
    assert_eq!(fine.output, "ok");
    let failed = DetectionResult::not_run("No such file");
    assert!(!failed.issue_found);
    assert_eq!(failed.output, "Failed to run detection: No such file");
}

#[test]
fn fix_results() {
    let ok = FixResult::from_run(true, b"done", b"");
    assert!(ok.success);
    assert_eq!(ok.output, "done");
    let bad = FixResult::not_run("denied");
    assert!(!bad.success);
    assert_eq!(bad.output, "Failed to run fix: denied");
}

#[test]
fn progress_schedule_reaches_the_ceiling() {
    let mut p = 0;
    let mut steps = vec![];
    while p < PROGRESS_CEILING {
        let n = next_progress(p);
        assert!(n > p && n <= 95);
        steps.push(n);
        p = n;
    }
    assert_eq!(p, 95);
    assert_eq!(&steps[..4], &[3, 6, 9, 12]);
    assert_eq!(next_progress(31), 34);
    assert_eq!(next_progress(32), 34);
    assert_eq!(next_progress(94), 95);
    assert_eq!(next_progress(-5), -4);
    assert_eq!(progress_delay_ms(0), 50);
    assert_eq!(progress_delay_ms(31), 100);
    assert_eq!(progress_delay_ms(80), 150);
    assert_eq!(progress_delay_ms(81), 200);
    assert_eq!(progress_delay_ms(-1), 200);
}

#[test]
fn search_url_encodes_the_query() {
    assert_eq!(
        search_url("steam won't launch"),
        "https://api.github.com/search/issues?q=steam%20won%27t%20launch+repo:basecamp/omarchy&per_page=3"
    );
    assert_eq!(
        search_url("é-_.~A9"),
        "https://api.github.com/search/issues?q=%C3%A9-_.~A9+repo:basecamp/omarchy&per_page=3"
    );
}

#[test]
fn search_results_and_errors() {
    let issue = GitHubIssue { title: "t".into(), html_url: "u".into(), state: "open".into() };
    let ok = search_result(Ok(GitHubSearchResponse { items: vec![issue.clone()] }));
    assert!(ok.success);
    assert_eq!(ok.issues, vec![issue]);
    assert_eq!(ok.error, "");
    let e1 = search_result(Err(SearchFailure::Unreachable));
    assert!(!e1.success && e1.issues.is_empty());
    assert_eq!(e1.error, "Could not reach GitHub (offline?)");
    assert_eq!(search_result(Err(SearchFailure::HttpStatus("403 Forbidden".into()))).error, "GitHub API error: 403 Forbidden");
    assert_eq!(search_result(Err(SearchFailure::ClientSetup("tls".into()))).error, "Failed to create HTTP client: tls");
    assert_eq!(search_result(Err(SearchFailure::BadResponse("eof".into()))).error, "Failed to parse GitHub response: eof");
}
