use openseal::project::{
    answer_is_yes, dependency_candidates, detect_dependencies, ignore_covers_output,
    ignore_mentions_manifest, is_project_root, output_ignore_rule, plan_dependencies, DepAction,
    DepInfo, DirEntry,
};

fn entries(names: &[(&str, bool)]) -> Vec<DirEntry> {
    names.iter().map(|(n, l)| DirEntry { name: n.to_string(), is_symlink: *l }).collect()
}

#[test]
fn project_root_indicators() {
    assert!(is_project_root(&entries(&[("src", false), ("Cargo.toml", false)])));
    assert!(is_project_root(&entries(&[(".git", false)])));
    assert!(is_project_root(&entries(&[(".opensealignore", false)])));
    assert!(!is_project_root(&entries(&[("README.md", false), ("notes", false)])));
    assert!(!is_project_root(&entries(&[])));
}

#[test]
fn node_dependencies_detected() {
    assert_eq!(
        detect_dependencies(&entries(&[("package.json", false), ("node_modules", false)])),
        Some(DepInfo::NodeJs { exists: true })
    );
    assert_eq!(
        detect_dependencies(&entries(&[("package.json", false), ("node_modules", true)])),
        Some(DepInfo::NodeJs { exists: false })
    );
}

#[test]
fn python_dependencies_detected() {
    assert_eq!(
        detect_dependencies(&entries(&[("requirements.txt", false), (".venv", false)])),
        Some(DepInfo::Python { exists: true })
    );
    assert_eq!(
        detect_dependencies(&entries(&[("requirements.txt", false)])),
        Some(DepInfo::Python { exists: false })
    );
    assert_eq!(detect_dependencies(&entries(&[("main.go", false)])), None);
}

#[test]
fn dependency_plans() {
    assert_eq!(plan_dependencies(true, false, None), DepAction::LinkHint);
    assert_eq!(plan_dependencies(true, true, None), DepAction::UseExisting);
    let missing = DepInfo::NodeJs { exists: false };
    assert_eq!(plan_dependencies(false, false, Some(missing)), DepAction::Install(missing));
    assert_eq!(plan_dependencies(false, false, Some(DepInfo::Python { exists: true })), DepAction::Nothing);
    assert_eq!(plan_dependencies(false, false, None), DepAction::Nothing);
}

#[test]
fn yes_no_answers() {
    assert!(answer_is_yes("  y\n", false));
    assert!(answer_is_yes("Yes", false));
    assert!(!answer_is_yes("no", true));
    assert!(answer_is_yes("\n", true));
    assert!(!answer_is_yes("", false));
    assert!(answer_is_yes("\u{a0}\n", true));
    assert!(answer_is_yes("\u{2003}y\u{3000}", false));
    assert!(!answer_is_yes("\u{a0}n", true));
}

#[test]
fn ignore_rules_keep_unicode_white_space() {
    assert!(!ignore_covers_output("dist/\u{a0}\n".as_bytes(), "dist"));
    assert!(ignore_covers_output(b"\tdist/  \r\n", "dist"));
}

#[test]
fn dependency_candidate_lists() {
    assert_eq!(dependency_candidates(Some("vendor".to_string())), vec!["vendor"]);
    assert_eq!(dependency_candidates(None), vec!["node_modules", "venv", ".venv", "env"]);
}

#[test]
fn output_ignore_rules() {
    assert_eq!(output_ignore_rule("./dist//"), b"./dist/".to_vec());
    assert!(ignore_covers_output(b"node_modules/\n  dist/ \n", "dist"));
    assert!(ignore_covers_output(b"dist\n", "dist/"));
    assert!(!ignore_covers_output(b"# dist/\nbuild/\n", "dist"));
}

#[test]
fn manifest_rule_detection() {
    assert!(ignore_mentions_manifest(b"node_modules/\nopenseal.json\n"));
    assert!(!ignore_mentions_manifest(b"node_modules/\n"));
    assert!(!ignore_mentions_manifest(b""));
}
