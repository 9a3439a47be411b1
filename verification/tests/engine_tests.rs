use omadoctor::engine::{fix_file_order, is_toml_file, Engine, FixSource};
use omadoctor::issue::{Issue, IssueFile};

fn issue(id: &str, name: &str, category: &str) -> Issue {
    Issue {
        id: id.to_string(),
        category: category.to_string(),
        name: name.to_string(),
        symptoms: vec![format!("{} symptom", name)],
        detection: format!("check-{}", id),
        fix: format!("fix-{}", id),
        safe: true,
    }
}

fn source(name: &str, files: Vec<Vec<Issue>>) -> FixSource {
    FixSource { name: name.to_string(), files }
}

#[test]
fn icon_for_known_and_unknown_categories() {
    assert_eq!(Issue::icon_for_category("gaming"), "🎮");
    assert_eq!(Issue::icon_for_category("video-conferencing"), "📹");
    assert_eq!(Issue::icon_for_category("graphics"), "🖥️");
    assert_eq!(Issue::icon_for_category("audio"), "🔊");
    assert_eq!(Issue::icon_for_category("display"), "🖥️");
    assert_eq!(Issue::icon_for_category("network"), "🔧");
    assert_eq!(Issue::icon_for_category(""), "🔧");
    assert_eq!(Issue::icon_for_category("Gaming"), "🔧");
}

#[test]
fn display_name_puts_icon_before_name() {
    let i = issue("steam", "Steam won't launch", "gaming");
    assert_eq!(i.display_name(), "🎮 Steam won't launch");
    let j = issue("x", "Other", "misc");
    assert_eq!(j.display_name(), "🔧 Other");
}

#[test]
fn issue_file_holds_its_issues() {
    let f = IssueFile { issue: vec![issue("a", "A", "audio")] };
    assert_eq!(f.issue.len(), 1);
    assert_eq!(f.issue[0].id, "a");
}

#[test]
fn earlier_source_overrides_later_one() {
    let user = source("user-local", vec![vec![issue("audio", "User audio", "audio")]]);
    let system = source(
        "system",
        vec![vec![issue("audio", "System audio", "audio"), issue("gpu", "GPU driver", "graphics")]],
    );
    let engine = Engine::new(vec![user, system]);
    assert_eq!(engine.total_loaded, 2);
    assert_eq!(engine.issues.len(), 2);
    assert_eq!(engine.issues[0].name, "GPU driver");
    assert_eq!(engine.issues[1].name, "User audio");
    assert_eq!(engine.loaded_from, vec!["user-local (1 fixes)".to_string(), "system (1 fixes)".to_string()]);
    assert_eq!(engine.selected_index, 0);
}

#[test]
fn within_a_source_the_first_file_wins() {
    let src = source(
        "development",
        vec![vec![issue("a", "First", "audio")], vec![issue("a", "Second", "audio"), issue("b", "Beta", "gaming")]],
    );
    let engine = Engine::new(vec![src]);
    let names: Vec<&str> = engine.issues.iter().map(|i| i.name.as_str()).collect();
    assert_eq!(names, vec!["Beta", "First"]);
    assert_eq!(engine.loaded_from, vec!["development (2 fixes)".to_string()]);
}

#[test]
fn sources_adding_nothing_are_not_listed() {
    let a = source("user-local", vec![]);
    let b = source("system", vec![vec![issue("x", "X", "audio")]]);
    let c = source("development", vec![vec![issue("x", "X again", "audio")]]);
    let engine = Engine::new(vec![a, b, c]);
    assert_eq!(engine.loaded_from, vec!["system (1 fixes)".to_string()]);
    assert_eq!(engine.issues.len(), 1);
    assert_eq!(engine.issues[0].name, "X");
}

#[test]
fn issues_are_ordered_by_name_bytewise() {
    let src = source(
        "system",
        vec![vec![
            issue("1", "zoom", "video-conferencing"),
            issue("2", "Audio", "audio"),
            issue("3", "Zoom", "video-conferencing"),
            issue("4", "audio", "audio"),
            issue("5", "Éclair", "display"),
        ]],
    );
    let engine = Engine::new(vec![src]);
    let names: Vec<&str> = engine.issues.iter().map(|i| i.name.as_str()).collect();
    assert_eq!(names, vec!["Audio", "Zoom", "audio", "zoom", "Éclair"]);
}

#[test]
fn ten_fixes_label_uses_two_digits() {
    let issues: Vec<Issue> = (0..10).map(|k| issue(&format!("id{}", k), &format!("n{}", k), "audio")).collect();
    let engine = Engine::new(vec![source("system", vec![issues])]);
    assert_eq!(engine.loaded_from, vec!["system (10 fixes)".to_string()]);
    assert_eq!(engine.total_loaded, 10);
}

#[test]
fn empty_engine_has_no_selection() {
    let mut engine = Engine::new(vec![]);
    assert!(engine.issues.is_empty());
    assert!(engine.loaded_from.is_empty());
    assert!(engine.selected_issue().is_none());
    engine.move_up();
    assert_eq!(engine.selected_index, 0);
    engine.move_down();
    assert_eq!(engine.selected_index, 0);
}

#[test]
fn selection_wraps_both_ways() {
    let src = source("system", vec![vec![issue("a", "A", "audio"), issue("b", "B", "audio"), issue("c", "C", "audio")]]);
    let mut engine = Engine::new(vec![src]);
    assert_eq!(engine.selected_issue().unwrap().name, "A");
    engine.move_up();
    assert_eq!(engine.selected_index, 2);
    assert_eq!(engine.selected_issue().unwrap().name, "C");
    engine.move_down();
    assert_eq!(engine.selected_index, 0);
    engine.move_down();
    engine.move_down();
    assert_eq!(engine.selected_index, 2);
    engine.move_up();
    assert_eq!(engine.selected_index, 1);
}

#[test]
fn down_then_up_returns_to_the_same_row() {
    let src = source("system", vec![vec![issue("a", "A", "audio"), issue("b", "B", "audio")]]);
    let mut engine = Engine::new(vec![src]);
    for start in 0..2 {
        engine.selected_index = start;
        engine.move_down();
        engine.move_up();
        assert_eq!(engine.selected_index, start);
        engine.move_up();
        engine.move_down();
        assert_eq!(engine.selected_index, start);
    }
}

#[test]
fn toml_file_names() {
    assert!(is_toml_file("audio.toml"));
    assert!(is_toml_file("a.b.toml"));
    assert!(!is_toml_file(".toml"));
    assert!(!is_toml_file("audio.TOML"));
    assert!(!is_toml_file("audio.toml.bak"));
    assert!(!is_toml_file("toml"));
    assert!(!is_toml_file(""));
}

#[test]
fn fix_files_are_read_in_name_order() {
    let names: Vec<String> = vec!["b.toml", "README.md", "a.toml", ".toml", "C.toml", "dir"]
        .into_iter()
        .map(|s| s.to_string())
        .collect();
    assert_eq!(fix_file_order(&names), vec![4, 2, 0]);
    assert!(fix_file_order(&vec![]).is_empty());
}

#[test]
fn as_many_moves_down_as_rows_return_to_the_start() {
    let issues: Vec<Issue> = (0..4).map(|k| issue(&format!("id{}", k), &format!("n{}", k), "audio")).collect();
    let mut engine = Engine::new(vec![source("system", vec![issues])]);
    for start in 0..4 {
        engine.selected_index = start;
        for _ in 0..4 {
            engine.move_down();
            assert!(engine.selected_index < 4 && engine.selected_issue().is_some());
        }
        assert_eq!(engine.selected_index, start);
        for _ in 0..7 {
            engine.move_up();
            assert!(engine.selected_index < 4);
        }
        assert_eq!(engine.selected_index, (start + 1) % 4);
    }
}

#[test]
fn equal_fix_file_names_keep_listing_order() {
    let names: Vec<String> = vec!["b.toml", "a.toml", "b.toml", "a.toml"].into_iter().map(String::from).collect();
    assert_eq!(fix_file_order(&names), vec![1, 3, 0, 2]);
}
