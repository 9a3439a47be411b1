use std::io::Write;
use omadoctor::archive::{extract_fix_files, is_fix_entry_name, lands_inside_dir};

const FIXES: &str = "/home/u/.local/share/omadoctor/fixes";
use omadoctor::detector::DetectionResult;
use omadoctor::engine::{Engine, FixSource};
use omadoctor::fixer::FixResult;
use omadoctor::github::{GitHubIssue, SearchResult};
use omadoctor::issue::Issue;
use omadoctor::state::{Action, AppState, Key};
use omadoctor::view::{
    detail_layout, detection_box, fix_box, github_lines, help_bar, list_rows, safety_text,
    scan_exit_code, scan_line, scan_summary, status_label, symptoms_text, GitHubLine,
};

fn issue(id: &str, name: &str, symptoms: &[&str]) -> Issue {
    Issue {
        id: id.to_string(),
        category: "audio".to_string(),
        name: name.to_string(),
        symptoms: symptoms.iter().map(|s| s.to_string()).collect(),
        detection: format!("detect {}", id),
        fix: format!("repair {}", id),
        safe: false,
    }
}

fn engine() -> Engine {
    Engine::new(vec![FixSource {
        name: "system".to_string(),
        files: vec![vec![issue("a", "Alpha", &["no sound", "crackling"]), issue("b", "Beta", &[])]],
    }])
}

#[test]
fn new_state_is_the_empty_list_screen() {
    let s = AppState::new();
    assert!(!s.show_detail && !s.searching && !s.show_confirm && !s.fixing_in_progress);
    assert!(s.detection_result.is_none() && s.fix_result.is_none() && s.search_result.is_none());
    assert_eq!(s.poll_timeout_ms(), 100);
}

#[test]
fn fix_runs_only_after_detection_and_confirmation() {
    let mut e = engine();
    let mut s = AppState::new();
    assert_eq!(s.handle_key(&mut e, Key::Enter), Action::Nothing);
    assert!(s.show_detail);
    // No detection yet: 'f' offers nothing.
    assert_eq!(s.handle_key(&mut e, Key::Char('f')), Action::Nothing);
    assert!(!s.show_confirm);
    assert_eq!(s.handle_key(&mut e, Key::Char('d')), Action::Detect("detect a".to_string()));
    s.record_detection(DetectionResult { issue_found: true, output: String::new() });
    assert_eq!(s.handle_key(&mut e, Key::Char('f')), Action::Nothing);
    assert!(s.show_confirm);
    // While the dialog is open, other keys do nothing.
    assert_eq!(s.handle_key(&mut e, Key::Char('q')), Action::Nothing);
    assert!(s.show_confirm && s.show_detail);
    assert_eq!(s.handle_key(&mut e, Key::Char('Y')), Action::StartFix("repair a".to_string()));
    assert!(!s.show_confirm && s.fixing_in_progress);
    assert_eq!(s.fix_progress, Some(0));
    assert_eq!(s.poll_timeout_ms(), 50);
    // While fixing, nothing else starts.
    assert_eq!(s.handle_key(&mut e, Key::Char('d')), Action::Nothing);
    assert_eq!(s.handle_key(&mut e, Key::Char('g')), Action::Nothing);
    s.record_progress(60);
    assert!(!s.awaiting_fix_result());
    s.record_progress(100);
    assert!(s.awaiting_fix_result());
    assert!(s.record_fix_result(FixResult { success: true, output: "ok".into() }));
    assert!(!s.fixing_in_progress);
    // A fix result is there: no second offer.
    assert_eq!(s.handle_key(&mut e, Key::Char('f')), Action::Nothing);
    assert!(!s.show_confirm);
}

#[test]
fn fix_result_waits_for_completion() {
    let mut e = engine();
    let mut s = AppState::new();
    s.handle_key(&mut e, Key::Enter);
    s.record_detection(DetectionResult { issue_found: true, output: String::new() });
    s.handle_key(&mut e, Key::Char('f'));
    s.handle_key(&mut e, Key::Char('y'));
    s.record_progress(95);
    let before = s.clone();
    assert!(!s.record_fix_result(FixResult { success: false, output: "early".into() }));
    assert_eq!(s, before);
    assert!(s.fix_result.is_none() && s.fixing_in_progress);
    s.record_progress(100);
    assert!(s.record_fix_result(FixResult { success: false, output: "done".into() }));
    assert_eq!(s.fix_result, Some(FixResult { success: false, output: "done".into() }));
    assert!(!s.fixing_in_progress);
    // Once taken, a second result changes nothing.
    let after = s.clone();
    assert!(!s.record_fix_result(FixResult { success: true, output: "again".into() }));
    assert_eq!(s, after);
}

#[test]
fn declining_shows_manual_commands() {
    let mut e = engine();
    let mut s = AppState::new();
    s.handle_key(&mut e, Key::Enter);
    s.record_detection(DetectionResult { issue_found: true, output: String::new() });
    s.handle_key(&mut e, Key::Char('f'));
    assert_eq!(s.handle_key(&mut e, Key::Char('n')), Action::Nothing);
    assert!(!s.show_confirm && s.show_manual_commands);
    s.handle_key(&mut e, Key::Char('f'));
    assert_eq!(s.handle_key(&mut e, Key::Esc), Action::Nothing);
    assert!(!s.show_confirm && s.show_detail);
}

#[test]
fn detection_without_issue_offers_no_fix() {
    let mut e = engine();
    let mut s = AppState::new();
    s.handle_key(&mut e, Key::Enter);
    s.record_detection(DetectionResult { issue_found: false, output: String::new() });
    s.handle_key(&mut e, Key::Char('f'));
    assert!(!s.show_confirm);
}

#[test]
fn search_uses_first_symptom_or_name() {
    let mut e = engine();
    let mut s = AppState::new();
    s.handle_key(&mut e, Key::Enter);
    assert_eq!(s.handle_key(&mut e, Key::Char('g')), Action::Search("no sound".to_string()));
    assert!(s.searching);
    s.record_search(SearchResult { success: false, issues: vec![], error: "x".into() });
    assert!(!s.searching && s.search_result.is_some());
    s.handle_key(&mut e, Key::Esc);
    assert!(!s.show_detail && s.search_result.is_none());
    s.handle_key(&mut e, Key::Down);
    assert_eq!(e.selected_index, 1);
    s.handle_key(&mut e, Key::Enter);
    assert_eq!(s.handle_key(&mut e, Key::Char('g')), Action::Search("Beta".to_string()));
}

#[test]
fn quit_and_navigation() {
    let mut e = engine();
    let mut s = AppState::new();
    s.handle_key(&mut e, Key::Up);
    assert_eq!(e.selected_index, 1);
    s.handle_key(&mut e, Key::Down);
    assert_eq!(e.selected_index, 0);
    s.handle_key(&mut e, Key::Enter);
    s.handle_key(&mut e, Key::Down);
    assert_eq!(e.selected_index, 0);
    assert_eq!(s.handle_key(&mut e, Key::Char('q')), Action::Nothing);
    assert!(!s.show_detail);
    assert_eq!(s.handle_key(&mut e, Key::Char('q')), Action::Quit);
    assert_eq!(s.handle_key(&mut e, Key::Other), Action::Nothing);
    let mut empty = Engine::new(vec![]);
    let mut t = AppState::new();
    t.handle_key(&mut empty, Key::Enter);
    assert!(!t.show_detail);
}

#[test]
fn help_bar_follows_the_state() {
    let mut s = AppState::new();
    s.show_detail = true;
    assert_eq!(help_bar(&s), vec!["[g] Search GitHub  ", "[d] Detect  ", "[Esc] Back  ", "[q] Quit"]);
    s.detection_result = Some(DetectionResult { issue_found: true, output: String::new() });
    assert_eq!(help_bar(&s), vec!["[g] Search GitHub  ", "[f] Fix  ", "[d] Re-detect  ", "[Esc] Back  ", "[q] Quit"]);
    s.searching = true;
    s.fixing_in_progress = true;
    assert_eq!(help_bar(&s), vec!["[d] Re-detect  ", "[Esc] Back  ", "[q] Quit"]);
}

#[test]
fn detail_layout_grows_with_sections() {
    let mut s = AppState::new();
    assert_eq!(detail_layout(&s), vec![2, 2, 2, 3, 3, 2]);
    s.detection_result = Some(DetectionResult { issue_found: false, output: String::new() });
    s.fixing_in_progress = true;
    s.search_result = Some(SearchResult { success: true, issues: vec![], error: String::new() });
    assert_eq!(detail_layout(&s), vec![2, 2, 2, 3, 3, 2, 4, 3, 10]);
}

#[test]
fn detail_texts() {
    let i = issue("a", "Alpha", &["no sound", "crackling"]);
    assert_eq!(symptoms_text(&i), "no sound, crackling");
    assert_eq!(safety_text(true), "✓ Safe to auto-run");
    assert_eq!(safety_text(false), "✗ Manual intervention required");
    let b = detection_box(&DetectionResult { issue_found: true, output: String::new() });
    assert_eq!(b.title, "⚠️ ISSUE DETECTED — needs fixing");
    assert_eq!(b.text, "The detection command indicated this issue is present on your system.");
    assert!(!b.good);
    let c = detection_box(&DetectionResult { issue_found: false, output: "fine".into() });
    assert_eq!((c.title.as_str(), c.text.as_str(), c.good), ("✅ No issue found", "Output: fine", true));
    let f = fix_box(&FixResult { success: false, output: "boom".into() });
    assert_eq!((f.title.as_str(), f.text.as_str(), f.good), ("❌ Fix failed", "Output:\nboom", false));
    let g = fix_box(&FixResult { success: true, output: String::new() });
    assert_eq!(g.text, "The fix command completed successfully.");
}

#[test]
fn list_rows_highlight_the_selection() {
    let mut e = engine();
    e.move_down();
    let rows = list_rows(&e);
    assert_eq!(rows.len(), 2);
    assert_eq!(rows[0].text, "🔊 Alpha");
    assert!(!rows[0].highlighted && rows[1].highlighted);
}

#[test]
fn github_lines_show_at_most_three() {
    assert_eq!(github_lines(&vec![]), vec![GitHubLine::Notice("No related issues found on GitHub.".into())]);
    let mk = |t: &str, st: &str| GitHubIssue { title: t.into(), html_url: format!("https://x/{}", t), state: st.into() };
    let issues = vec![mk("a", "open"), mk("b", "closed"), mk("c", "open"), mk("d", "open")];
    let lines = github_lines(&issues);
    assert_eq!(lines[0], GitHubLine::Header("Found 3 related issue(s) on basecamp/omarchy:".into()));
    assert_eq!(lines[1], GitHubLine::Blank);
    assert_eq!(lines[2], GitHubLine::Status { number: "1. ".into(), open: true });
    assert_eq!(lines[3], GitHubLine::Title("a".into()));
    assert_eq!(lines[4], GitHubLine::Url("https://x/a".into()));
    assert_eq!(lines[5], GitHubLine::Blank);
    assert_eq!(lines[6], GitHubLine::Status { number: "2. ".into(), open: false });
    assert_eq!(lines.len(), 2 + 4 + 4 + 3);
    assert_eq!(status_label(true), "🟢 Open");
    assert_eq!(status_label(false), "🔴 Closed");
    let one = github_lines(&vec![mk("z", "OPEN")]);
    assert_eq!(one.len(), 5);
    assert_eq!(one[0], GitHubLine::Header("Found 1 related issue(s) on basecamp/omarchy:".into()));
    assert_eq!(one[2], GitHubLine::Status { number: "1. ".into(), open: false });
}

#[test]
fn scan_report_texts() {
    let mut i = issue("s", "Steam", &[]);
    i.category = "gaming".into();
    assert_eq!(scan_line(&i, true), "❌ 🎮 Steam");
    i.category = "graphics".into();
    assert_eq!(scan_line(&i, false), "✅ 🖥️ Steam");
    assert_eq!(scan_summary(2), "2 issues found. Run `omadoctor` for interactive fixes.");
    assert_eq!(scan_summary(1), "1 issues found. Run `omadoctor` for interactive fixes.");
    assert_eq!(scan_summary(0), "All systems operational. No issues found!");
    assert_eq!(scan_exit_code(0), 0);
    assert_eq!(scan_exit_code(3), 1);
}

fn zip_of(entries: &[(&str, &[u8])]) -> Vec<u8> {
    let mut w = zip::ZipWriter::new(std::io::Cursor::new(Vec::new()));
    let opts = zip::write::FileOptions::default().compression_method(zip::CompressionMethod::Stored);
    for (name, data) in entries {
        w.start_file(*name, opts).unwrap();
        w.write_all(data).unwrap();
    }
    w.finish().unwrap().into_inner()
}

#[test]
fn archive_yields_only_toml_entries() {
    let bytes = zip_of(&[("audio.toml", b"[[issue]]"), ("README.md", b"x"), ("sub/gpu.toml", b"g")]);
    let ex = extract_fix_files(bytes, FIXES);
    assert_eq!(ex.error, None);
    let names: Vec<&str> = ex.files.iter().map(|f| f.name.as_str()).collect();
    assert_eq!(names, vec!["audio.toml", "sub/gpu.toml"]);
    assert_eq!(ex.files[0].contents, b"[[issue]]".to_vec());
    assert!(is_fix_entry_name(FIXES, "a.toml") && is_fix_entry_name(FIXES, ".toml") && !is_fix_entry_name(FIXES, "a.tom"));
}

#[test]
fn archive_that_is_no_zip_is_refused() {
    let ex = extract_fix_files(b"not a zip".to_vec(), FIXES);
    assert!(ex.files.is_empty());
    assert_eq!(ex.unread, None);
    let message = ex.error.unwrap();
    assert!(message.starts_with("Failed to open zip: "));
    assert!(message.len() > "Failed to open zip: ".len());
}

#[test]
fn archive_skips_entries_that_land_outside_the_fix_directory() {
    let bytes = zip_of(&[
        ("../x.toml", b"up"),
        ("/tmp/x.toml", b"abs"),
        ("a/../b.toml", b"kept"),
        ("./c.toml", b"dot"),
        ("a/../../d.toml", b"out"),
        ("../fixes/e.toml", b"back in"),
        ("/home/u/.local/share/omadoctor/fixes/f.toml", b"absolute inside"),
        ("g\0h.toml", b"nul"),
    ]);
    let ex = extract_fix_files(bytes, FIXES);
    assert_eq!(ex.error, None);
    assert_eq!(ex.unread, None);
    let names: Vec<&str> = ex.files.iter().map(|f| f.name.as_str()).collect();
    assert_eq!(
        names,
        vec!["a/../b.toml", "./c.toml", "../fixes/e.toml", "/home/u/.local/share/omadoctor/fixes/f.toml", "g\0h.toml"]
    );
    assert_eq!(ex.files[0].contents, b"kept".to_vec());
    assert_eq!(ex.files[2].contents, b"back in".to_vec());
}

#[test]
fn landing_inside_a_directory() {
    assert!(lands_inside_dir(FIXES, "a.toml"));
    assert!(lands_inside_dir(FIXES, "sub/dir/a.toml"));
    assert!(lands_inside_dir(FIXES, "a//b/./c.toml"));
    assert!(lands_inside_dir(FIXES, "a/b/../../c.toml"));
    assert!(lands_inside_dir(FIXES, "../fixes/a.toml"));
    assert!(lands_inside_dir(FIXES, "../../omadoctor/fixes/x/a.toml"));
    assert!(lands_inside_dir(FIXES, "/home/u/.local/share/omadoctor/fixes/a.toml"));
    assert!(lands_inside_dir(FIXES, "a\0b.toml"));
    assert!(!lands_inside_dir(FIXES, ""));
    assert!(!lands_inside_dir(FIXES, "."));
    assert!(!lands_inside_dir(FIXES, "a/.."));
    assert!(!lands_inside_dir(FIXES, "../a.toml"));
    assert!(!lands_inside_dir(FIXES, "../fixes"));
    assert!(!lands_inside_dir(FIXES, "a/../../b.toml"));
    assert!(!lands_inside_dir(FIXES, "/etc/a.toml"));
    assert!(!lands_inside_dir(FIXES, "../fixes2/a.toml"));
    // The root has no parent.
    assert!(lands_inside_dir("/", "../../etc/a.toml"));
    // Relative directories keep the ".." that climbs above their start.
    assert!(lands_inside_dir("fixes", "../fixes/a.toml"));
    assert!(!lands_inside_dir("../d", "../../d/a.toml"));
    assert!(lands_inside_dir("../d", "../d/a.toml"));
    assert!(!lands_inside_dir("fixes", "/fixes/a.toml"));
    assert!(!is_fix_entry_name(FIXES, "../a.toml"));
    assert!(is_fix_entry_name(FIXES, "dir/a.toml"));
}

#[test]
fn archive_reports_the_entry_it_could_not_read() {
    let mut bytes = zip_of(&[("a.toml", b"AAAA"), ("b.toml", b"BBBBBBBB"), ("c.toml", b"CC")]);
    let at = bytes.windows(8).position(|w| w == b"BBBBBBBB").unwrap();
    bytes[at] = b'X';
    let ex = extract_fix_files(bytes, FIXES);
    let names: Vec<&str> = ex.files.iter().map(|f| f.name.as_str()).collect();
    assert_eq!(names, vec!["a.toml"]);
    assert_eq!(ex.unread, Some("b.toml".to_string()));
    let message = ex.error.unwrap();
    assert!(message.starts_with("Failed to read from zip: "));
    assert!(message.len() > "Failed to read from zip: ".len());
}

#[test]
fn archive_contents_are_the_entry_bytes() {
    let big: Vec<u8> = (0..5000u32).map(|i| (i % 251) as u8).collect();
    let mut w = zip::ZipWriter::new(std::io::Cursor::new(Vec::new()));
    let opts = zip::write::FileOptions::default().compression_method(zip::CompressionMethod::Deflated);
    w.start_file("big.toml", opts).unwrap();
    w.write_all(&big).unwrap();
    w.start_file("empty.toml", opts).unwrap();
    let bytes = w.finish().unwrap().into_inner();
    let ex = extract_fix_files(bytes, FIXES);
    assert_eq!(ex.error, None);
    assert_eq!(ex.files.len(), 2);
    assert_eq!(ex.files[0].contents, big);
    assert!(ex.files[1].contents.is_empty());
}
