//! What the screens and the scan report say: the texts, which parts are
//! shown, and in which order. Drawing them is left to the terminal front end.
use vstd::prelude::*;
use crate::detector::DetectionResult;
use crate::engine::Engine;
use crate::fixer::FixResult;
use crate::github::GitHubIssue;
use crate::issue::{listed_name, Issue};
use crate::state::AppState;
use crate::text::{decimal, join, joined, push_decimal, push_str, to_owned_string};

verus! {

// ---------------------------------------------------------------------------
// The list screen
// ---------------------------------------------------------------------------

/// One row of the issue list.
#[derive(Debug, Clone, PartialEq, Eq)]
pub struct ListRow {
    pub text: String,
    pub highlighted: bool,
}

/// The rows of the issue list: each issue's listed name, the selected one highlighted.
pub fn list_rows(engine: &Engine) -> (rows: Vec<ListRow>)
    ensures
        rows@.len() == engine.issues@.len(),
        forall|i: int|
            0 <= i < rows@.len() ==> {
                &&& (#[trigger] rows@[i]).text@ == listed_name(engine.issues@[i])
                &&& rows@[i].highlighted == (i == engine.selected_index)
            },
{
    let n = engine.issues.len();
    let mut rows: Vec<ListRow> = Vec::new();
    for i in 0..n
        invariant
            n == engine.issues@.len(),
            rows@.len() == i,
            forall|k: int|
                0 <= k < i ==> {
                    &&& (#[trigger] rows@[k]).text@ == listed_name(engine.issues@[k])
                    &&& rows@[k].highlighted == (k == engine.selected_index)
                },
    {
        let text = engine.issues[i].display_name();
        rows.push(ListRow { text, highlighted: i == engine.selected_index });
    }
    rows
}

// ---------------------------------------------------------------------------
// The detail screen
// ---------------------------------------------------------------------------

/// The texts of the help bar of the detail screen.
pub open spec fn help_items(s: AppState) -> Seq<Seq<char>> {
    let search = if !s.searching {
        seq!["[g] Search GitHub  "@]
    } else {
        seq![]
    };
    let fix = if s.detection_result is Some && s.detection_result->0.issue_found
        && !s.fixing_in_progress && s.fix_result is None {
        seq!["[f] Fix  "@]
    } else {
        seq![]
    };
    let detect = if s.detection_result is Some || s.fix_result is Some {
        "[d] Re-detect  "@
    } else {
        "[d] Detect  "@
    };
    search + fix + seq![detect, "[Esc] Back  "@, "[q] Quit"@]
}

/// The help bar of the detail screen: which keys do something now.
pub fn help_bar(s: &AppState) -> (items: Vec<String>)
    ensures
        items@.map_values(|t: String| t@) == help_items(*s),
{
    let mut items: Vec<String> = Vec::new();
    if !s.searching {
        items.push(to_owned_string("[g] Search GitHub  "));
    }
    let offer_fix = match &s.detection_result {
        Some(d) => d.issue_found && !s.fixing_in_progress && s.fix_result.is_none(),
        None => false,
    };
    if offer_fix {
        items.push(to_owned_string("[f] Fix  "));
    }
    if s.detection_result.is_some() || s.fix_result.is_some() {
        items.push(to_owned_string("[d] Re-detect  "));
    } else {
        items.push(to_owned_string("[d] Detect  "));
    }
    items.push(to_owned_string("[Esc] Back  "));
    items.push(to_owned_string("[q] Quit"));
    assert(items@.map_values(|t: String| t@) =~= help_items(*s));
    items
}

/// The heights of the rows of the detail screen: name, category, symptoms,
/// detection command, fix command, safety, then one row for each of the
/// detection result, the running fix, the fix result, the running search
/// and the search result that is there.
pub open spec fn detail_heights(s: AppState) -> Seq<u16> {
    seq![2u16, 2u16, 2u16, 3u16, 3u16, 2u16] + (if s.detection_result is Some {
        seq![4u16]
    } else {
        seq![]
    }) + (if s.fixing_in_progress {
        seq![3u16]
    } else {
        seq![]
    }) + (if s.fix_result is Some {
        seq![4u16]
    } else {
        seq![]
    }) + (if s.searching {
        seq![3u16]
    } else {
        seq![]
    }) + (if s.search_result is Some {
        seq![10u16]
    } else {
        seq![]
    })
}

/// One when `b` holds, else zero.
pub open spec fn present(b: bool) -> int {
    if b {
        1
    } else {
        0
    }
}

/// The detail screen has its six fixed rows and one row more for each
/// section that is there; while a search runs, its notice has a row of
/// height 3 right after the rows of the detection and the fix.
pub proof fn lemma_detail_rows(s: AppState)
    ensures
        detail_heights(s).len() == 6 + present(s.detection_result is Some) + present(
            s.fixing_in_progress,
        ) + present(s.fix_result is Some) + present(s.searching) + present(s.search_result is Some),
        detail_heights(s).take(6) == seq![2u16, 2u16, 2u16, 3u16, 3u16, 2u16],
        s.searching ==> detail_heights(s)[6 + present(s.detection_result is Some) + present(
            s.fixing_in_progress,
        ) + present(s.fix_result is Some)] == 3,
{
    assert(detail_heights(s).take(6) =~= seq![2u16, 2u16, 2u16, 3u16, 3u16, 2u16]);
}

/// The row heights of the detail screen for `s`.
pub fn detail_layout(s: &AppState) -> (heights: Vec<u16>)
    ensures
        heights@ == detail_heights(*s),
        heights@.len() == 6 + present(s.detection_result is Some) + present(s.fixing_in_progress)
            + present(s.fix_result is Some) + present(s.searching) + present(
            s.search_result is Some,
        ),
        s.searching ==> heights@[6 + present(s.detection_result is Some) + present(
            s.fixing_in_progress,
        ) + present(s.fix_result is Some)] == 3,
{
    let mut h: Vec<u16> = Vec::new();
    h.push(2);
    h.push(2);
    h.push(2);
    h.push(3);
    h.push(3);
    h.push(2);
    if s.detection_result.is_some() {
        h.push(4);
    }
    if s.fixing_in_progress {
        h.push(3);
    }
    if s.fix_result.is_some() {
        h.push(4);
    }
    if s.searching {
        h.push(3);
    }
    if s.search_result.is_some() {
        h.push(10);
    }
    assert(h@ =~= detail_heights(*s));
    h
}

/// The symptoms of an issue, separated by ", ".
pub fn symptoms_text(issue: &Issue) -> (text: String)
    ensures
        text@ == joined(issue.symptoms@.map_values(|p: String| p@), ", "@),
{
    join(&issue.symptoms, ", ")
}

/// What the detail screen says about running the fix unattended.
pub fn safety_text(safe: bool) -> (text: &'static str)
    ensures
        text@ == (if safe {
            "✓ Safe to auto-run"@
        } else {
            "✗ Manual intervention required"@
        }),
{
    if safe {
        "✓ Safe to auto-run"
    } else {
        "✗ Manual intervention required"
    }
}

/// A boxed result on the detail screen; `good` boxes are green, others red.
#[derive(Debug, Clone, PartialEq, Eq)]
pub struct ResultBox {
    pub title: String,
    pub text: String,
    pub good: bool,
}

/// The box for a detection result.
pub open spec fn detection_box_spec(r: DetectionResult) -> (Seq<char>, Seq<char>, bool) {
    if r.issue_found {
        (
            "⚠️ ISSUE DETECTED — needs fixing"@,
            if r.output@.len() == 0 {
                "The detection command indicated this issue is present on your system."@
            } else {
                "Output: "@ + r.output@
            },
            false,
        )
    } else {
        (
            "✅ No issue found"@,
            if r.output@.len() == 0 {
                "The detection command indicated no issue on your system."@
            } else {
                "Output: "@ + r.output@
            },
            true,
        )
    }
}

/// The box for a fix result.
pub open spec fn fix_box_spec(r: FixResult) -> (Seq<char>, Seq<char>, bool) {
    if r.success {
        (
            "✅ Fix applied successfully!"@,
            if r.output@.len() == 0 {
                "The fix command completed successfully."@
            } else {
                "Output:\n"@ + r.output@
            },
            true,
        )
    } else {
        (
            "❌ Fix failed"@,
            if r.output@.len() == 0 {
                "The fix command returned an error."@
            } else {
                "Output:\n"@ + r.output@
            },
            false,
        )
    }
}

fn output_or(empty_text: &str, prefix: &str, output: &String) -> (text: String)
    ensures
        text@ == (if output@.len() == 0 {
            empty_text@
        } else {
            prefix@ + output@
        }),
{
    if output.as_str().is_empty() {
        to_owned_string(empty_text)
    } else {
        let mut t = to_owned_string(prefix);
        push_str(&mut t, output.as_str());
        t
    }
}

/// A detection box is green exactly when no issue was found, and whenever
/// the command printed something the box shows "Output: " and that output,
/// found or not.
pub proof fn lemma_detection_box_shows_output(r: DetectionResult)
    ensures
        detection_box_spec(r).2 == !r.issue_found,
        r.output@.len() > 0 ==> detection_box_spec(r).1 == "Output: "@ + r.output@,
{
}

/// A fix box is green exactly when the fix succeeded, and whenever the
/// command printed something the box shows "Output:" and that output.
pub proof fn lemma_fix_box_follows_success(r: FixResult)
    ensures
        fix_box_spec(r).2 == r.success,
        r.output@.len() > 0 ==> fix_box_spec(r).1 == "Output:\n"@ + r.output@,
{
}

/// The box that shows a detection result.
pub fn detection_box(r: &DetectionResult) -> (b: ResultBox)
    ensures
        (b.title@, b.text@, b.good) == detection_box_spec(*r),
        b.good == !r.issue_found,
        r.output@.len() > 0 ==> b.text@ == "Output: "@ + r.output@,
{
    if r.issue_found {
        ResultBox {
            title: to_owned_string("⚠️ ISSUE DETECTED — needs fixing"),
            text: output_or(
                "The detection command indicated this issue is present on your system.",
                "Output: ",
                &r.output,
            ),
            good: false,
        }
    } else {
        ResultBox {
            title: to_owned_string("✅ No issue found"),
            text: output_or(
                "The detection command indicated no issue on your system.",
                "Output: ",
                &r.output,
            ),
            good: true,
        }
    }
}

/// The box that shows a fix result.
pub fn fix_box(r: &FixResult) -> (b: ResultBox)
    ensures
        (b.title@, b.text@, b.good) == fix_box_spec(*r),
        b.good == r.success,
        r.output@.len() > 0 ==> b.text@ == "Output:\n"@ + r.output@,
{
    if r.success {
        ResultBox {
            title: to_owned_string("✅ Fix applied successfully!"),
            text: output_or("The fix command completed successfully.", "Output:\n", &r.output),
            good: true,
        }
    } else {
        ResultBox {
            title: to_owned_string("❌ Fix failed"),
            text: output_or("The fix command returned an error.", "Output:\n", &r.output),
            good: false,
        }
    }
}

// ---------------------------------------------------------------------------
// The search results
// ---------------------------------------------------------------------------

/// One line of the search results box.
#[derive(Debug, Clone, PartialEq, Eq)]
pub enum GitHubLine {
    /// Said when nothing was found.
    Notice(String),
    /// The count of issues shown.
    Header(String),
    /// An empty separating line.
    Blank,
    /// An issue's position ("1. ") and whether it is open.
    Status { number: String, open: bool },
    /// An issue's title.
    Title(String),
    /// An issue's address.
    Url(String),
}

/// The content of a line of the search results box, by its view.
pub enum ShownLine {
    Notice(Seq<char>),
    Header(Seq<char>),
    Blank,
    Status(Seq<char>, bool),
    Title(Seq<char>),
    Url(Seq<char>),
}

impl View for GitHubLine {
    type V = ShownLine;

    open spec fn view(&self) -> ShownLine {
        match self {
            GitHubLine::Notice(t) => ShownLine::Notice(t@),
            GitHubLine::Header(t) => ShownLine::Header(t@),
            GitHubLine::Blank => ShownLine::Blank,
            GitHubLine::Status { number, open } => ShownLine::Status(number@, *open),
            GitHubLine::Title(t) => ShownLine::Title(t@),
            GitHubLine::Url(t) => ShownLine::Url(t@),
        }
    }
}

/// At most this many issues are shown.
pub open spec fn shown_count(n: nat) -> nat {
    if n < 3 {
        n
    } else {
        3
    }
}

/// The lines for the issue at position `i` (from 0) of `shown` issues.
pub open spec fn issue_lines(issue: GitHubIssue, i: nat, shown: nat) -> Seq<ShownLine> {
    seq![
        ShownLine::Status(decimal(i + 1) + ". "@, issue.state@ == "open"@),
        ShownLine::Title(issue.title@),
        ShownLine::Url(issue.html_url@),
    ] + if i + 1 < shown {
        seq![ShownLine::Blank]
    } else {
        seq![]
    }
}

/// The lines for the first `k` of `shown` issues.
pub open spec fn issues_lines(issues: Seq<GitHubIssue>, k: nat, shown: nat) -> Seq<ShownLine>
    decreases k,
{
    if k == 0 {
        seq![]
    } else {
        issues_lines(issues, (k - 1) as nat, shown) + issue_lines(
            issues[k - 1],
            (k - 1) as nat,
            shown,
        )
    }
}

/// The lines of the search results box for `issues`.
pub open spec fn github_lines_spec(issues: Seq<GitHubIssue>) -> Seq<ShownLine> {
    if issues.len() == 0 {
        seq![ShownLine::Notice("No related issues found on GitHub."@)]
    } else {
        let shown = shown_count(issues.len());
        seq![
            ShownLine::Header(
                "Found "@ + decimal(shown) + " related issue(s) on basecamp/omarchy:"@,
            ),
            ShownLine::Blank,
        ] + issues_lines(issues, shown, shown)
    }
}

/// The symbol and word for an issue's state.
pub fn status_label(open: bool) -> (label: &'static str)
    ensures
        label@ == (if open {
            "🟢 Open"@
        } else {
            "🔴 Closed"@
        }),
{
    if open {
        "🟢 Open"
    } else {
        "🔴 Closed"
    }
}

/// The lines of the search results box: a notice when nothing was found,
/// else a count and the first three issues with their state, title and address.
pub fn github_lines(issues: &Vec<GitHubIssue>) -> (lines: Vec<GitHubLine>)
    ensures
        lines@.map_values(|l: GitHubLine| l@) == github_lines_spec(issues@),
{
    let mut lines: Vec<GitHubLine> = Vec::new();
    if issues.len() == 0 {
        lines.push(GitHubLine::Notice(to_owned_string("No related issues found on GitHub.")));
        assert(lines@.map_values(|l: GitHubLine| l@) =~= github_lines_spec(issues@));
        return lines;
    }
    let shown: usize = if issues.len() < 3 { issues.len() } else { 3 };
    let mut header = to_owned_string("Found ");
    push_decimal(&mut header, shown as u64);
    push_str(&mut header, " related issue(s) on basecamp/omarchy:");
    lines.push(GitHubLine::Header(header));
    lines.push(GitHubLine::Blank);
    let ghost head = lines@.map_values(|l: GitHubLine| l@);
    for i in 0..shown
        invariant
            shown == shown_count(issues@.len()),
            shown <= issues@.len(),
            lines@.map_values(|l: GitHubLine| l@) == head + issues_lines(
                issues@,
                i as nat,
                shown as nat,
            ),
    {
        let issue = &issues[i];
        let ghost before = lines@.map_values(|l: GitHubLine| l@);
        let mut number = String::new();
        push_decimal(&mut number, (i + 1) as u64);
        push_str(&mut number, ". ");
        let open = crate::text::str_eq(issue.state.as_str(), "open");
        lines.push(GitHubLine::Status { number, open });
        lines.push(GitHubLine::Title(issue.title.clone()));
        lines.push(GitHubLine::Url(issue.html_url.clone()));
        if i + 1 < shown {
            lines.push(GitHubLine::Blank);
        }
        assert(lines@.map_values(|l: GitHubLine| l@) =~= before + issue_lines(
            issues@[i as int],
            i as nat,
            shown as nat,
        ));
        assert(issues_lines(issues@, (i + 1) as nat, shown as nat) == issues_lines(
            issues@,
            i as nat,
            shown as nat,
        ) + issue_lines(issues@[i as int], i as nat, shown as nat));
        assert(lines@.map_values(|l: GitHubLine| l@) =~= head + issues_lines(
            issues@,
            (i + 1) as nat,
            shown as nat,
        ));
    }
    assert(lines@.map_values(|l: GitHubLine| l@) =~= github_lines_spec(issues@));
    lines
}

// ---------------------------------------------------------------------------
// The scan report
// ---------------------------------------------------------------------------

/// The report line for one issue of a scan, as the README shows it: a cross
/// when the issue was found (a check mark when not), then the issue's listed
/// name (its icon and its name).
pub open spec fn scan_line_spec(issue: Issue, found: bool) -> Seq<char> {
    (if found {
        "❌ "@
    } else {
        "✅ "@
    }) + listed_name(issue)
}

/// The report line for one issue of a scan.
pub fn scan_line(issue: &Issue, found: bool) -> (line: String)
    ensures
        line@ == scan_line_spec(*issue, found),
{
    let mut line = if found {
        to_owned_string("❌ ")
    } else {
        to_owned_string("✅ ")
    };
    push_str(&mut line, issue.display_name().as_str());
    line
}

/// The closing line of a scan that found `issues_found` issues, as the README shows it.
pub open spec fn scan_summary_spec(issues_found: nat) -> Seq<char> {
    if issues_found > 0 {
        decimal(issues_found) + " issues found. Run `omadoctor` for interactive fixes."@
    } else {
        "All systems operational. No issues found!"@
    }
}

/// The closing line of a scan.
pub fn scan_summary(issues_found: usize) -> (line: String)
    ensures
        line@ == scan_summary_spec(issues_found as nat),
{
    if issues_found > 0 {
        let mut line = String::new();
        push_decimal(&mut line, issues_found as u64);
        push_str(&mut line, " issues found. Run `omadoctor` for interactive fixes.");
        line
    } else {
        to_owned_string("All systems operational. No issues found!")
    }
}

/// The exit status of a scan: 1 when it found an issue, else 0.
pub fn scan_exit_code(issues_found: usize) -> (code: i32)
    ensures
        code == (if issues_found > 0 { 1i32 } else { 0i32 }),
{
    if issues_found > 0 {
        1
    } else {
        0
    }
}

} // verus!
