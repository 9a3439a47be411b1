use omadoctor::github::{
    choose_current_version, compare_versions, parse_u32, update_check_from_release, version_parts, Asset, Release,
    UpdateCheckResult,
};

fn chars(s: &str) -> Vec<char> {
    s.chars().collect()
}

#[test]
fn parse_u32_follows_str_parse() {
    for s in ["0", "42", "+7", "007", "4294967295", "4294967296", "", "+", "-1", "1a", " 1", "99999999999"] {
        assert_eq!(parse_u32(&chars(s)), s.parse::<u32>().ok(), "input {:?}", s);
    }
}

#[test]
fn version_parts_skip_non_numbers() {
    assert_eq!(version_parts("1.2.3"), vec![1, 2, 3]);
    assert_eq!(version_parts("1..3"), vec![1, 3]);
    assert_eq!(version_parts("1.2-beta.4"), vec![1, 4]);
    assert_eq!(version_parts(""), Vec::<u32>::new());
    assert_eq!(version_parts("."), Vec::<u32>::new());
    assert_eq!(version_parts("10.20."), vec![10, 20]);
}

#[test]
fn compare_versions_examples() {
    assert!(compare_versions("0.2.0", "0.1.9"));
    assert!(compare_versions("1.10", "1.9"));
    assert!(!compare_versions("1.9", "1.10"));
    assert!(!compare_versions("1.0", "1.0.0"));
    assert!(!compare_versions("1.0.0", "1.0"));
    assert!(compare_versions("1.0.1", "1.0"));
    assert!(!compare_versions("1.0", "1.0"));
    assert!(!compare_versions("", ""));
    assert!(compare_versions("1", ""));
    assert!(!compare_versions("abc", "0"));
}

#[test]
fn compare_versions_is_a_strict_order_on_examples() {
    let vs = ["0.1", "0.1.0", "0.2", "1.0", "1.0.1", "1.10", "2", "x.3"];
    for a in vs {
        assert!(!compare_versions(a, a));
        for b in vs {
            assert!(!(compare_versions(a, b) && compare_versions(b, a)));
            for c in vs {
                if compare_versions(a, b) && compare_versions(b, c) {
                    assert!(compare_versions(a, c));
                }
            }
        }
    }
}

fn release(tag: &str, assets: &[(&str, &str)]) -> Release {
    Release {
        tag_name: tag.to_string(),
        assets: assets
            .iter()
            .map(|(n, u)| Asset { name: n.to_string(), browser_download_url: u.to_string() })
            .collect(),
    }
}

#[test]
fn newer_release_with_fixes_zip_is_an_update() {
    let r = release("v0.2.0", &[("notes.txt", "u1"), ("fixes.zip", "u2"), ("fixes.zip", "u3")]);
    let res = update_check_from_release("v0.1.0", Some(r));
    assert_eq!(
        res,
        UpdateCheckResult {
            update_available: true,
            download_url: Some("u2".to_string()),
            new_version: Some("v0.2.0".to_string()),
            current_version: "v0.1.0".to_string(),
        }
    );
}

#[test]
fn newer_release_without_fixes_zip_is_no_update() {
    let r = release("vv1.0", &[("other.zip", "u")]);
    let res = update_check_from_release("0.9", Some(r));
    assert!(!res.update_available);
    assert_eq!(res.download_url, None);
    assert_eq!(res.new_version, Some("vv1.0".to_string()));
}

#[test]
fn older_or_equal_release_is_no_update() {
    let res = update_check_from_release("0.1.0", Some(release("v0.1", &[("fixes.zip", "u")])));
    assert_eq!(res, UpdateCheckResult::no_update("0.1.0"));
    let res2 = update_check_from_release("1.0", None);
    assert!(!res2.update_available && res2.download_url.is_none() && res2.new_version.is_none());
    assert_eq!(res2.current_version, "1.0");
}

#[test]
fn current_version_prefers_system_then_user_then_program() {
    assert_eq!(choose_current_version(Some(" v1.2.0\n".into()), Some("0.9".into()), "0.1.0"), "v1.2.0");
    assert_eq!(choose_current_version(None, Some("\t0.9\n".into()), "0.1.0"), "0.9");
    assert_eq!(choose_current_version(None, None, "0.1.0"), "0.1.0");
    assert_eq!(choose_current_version(Some("\n".into()), Some("0.9".into()), "0.1.0"), "");
}
