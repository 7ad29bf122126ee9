use para_audit::audit::{get_violations, names_near_duplicate};
use para_audit::report::{audit, fix_commands, propose_fixes, select_level};
use para_audit::taxonomy::TreeError;
use para_audit::{Entry, Fix, Violation};

fn file(name: &str) -> Entry {
    Entry { name: name.to_string(), is_dir: false, is_file: true, is_symlink: false, text: None, children: vec![] }
}

fn dir(name: &str, children: Vec<Entry>) -> Entry {
    Entry { name: name.to_string(), is_dir: true, is_file: false, is_symlink: false, text: None, children }
}

fn metadata(text: &str) -> Entry {
    Entry { name: "para.yaml".to_string(), is_dir: false, is_file: true, is_symlink: false, text: Some(text.to_string()), children: vec![] }
}

fn good_module(name: &str) -> Entry {
    dir(name, vec![file("README.md"), metadata("tags: [work]\n")])
}

fn home(projects: Vec<Entry>) -> Entry {
    dir("h", vec![dir("projects", projects), dir("areas", vec![]), dir("resources", vec![]), dir("archive", vec![])])
}

fn violations(h: &Entry) -> Vec<Violation> {
    get_violations("/h", h).unwrap()
}

#[test]
fn clean_tree_has_no_violations() {
    let h = home(vec![good_module("alpha")]);
    assert_eq!(violations(&h), vec![]);
}

#[test]
fn bare_roots_have_no_clutter() {
    let h = home(vec![]);
    assert_eq!(violations(&h), vec![]);
}

#[test]
fn stray_entry_under_home_is_root_clutter() {
    let mut h = home(vec![good_module("alpha")]);
    h.children.push(file("notes.txt"));
    assert_eq!(violations(&h), vec![Violation::RootDirClutter("/h/notes.txt".to_string())]);
}

#[test]
fn stray_file_under_root_is_module_dir_clutter() {
    let h = home(vec![good_module("alpha"), file("loose.md")]);
    assert_eq!(violations(&h), vec![Violation::ModDirClutter("/h/projects/loose.md".to_string())]);
}

#[test]
fn missing_root_is_unreadable() {
    let h = dir("h", vec![dir("projects", vec![]), dir("areas", vec![]), dir("archive", vec![])]);
    assert_eq!(get_violations("/h", &h), Err(TreeError::UnreadableRoot("/h/resources".to_string())));
}

#[test]
fn plain_names_are_valid() {
    let h = home(vec![good_module("abc_123"), good_module("zz9")]);
    assert_eq!(violations(&h), vec![]);
}

#[test]
fn names_with_forbidden_characters_fire_once() {
    for name in ["My Project", "foo-x", "a.b", "Upper", "two words"] {
        let h = home(vec![good_module(name)]);
        let found: Vec<Violation> = violations(&h).into_iter().filter(|v| matches!(v, Violation::ModDirName(_))).collect();
        assert_eq!(found, vec![Violation::ModDirName(format!("/h/projects/{}", name))]);
    }
}

#[test]
fn module_missing_both_files_reports_two() {
    let h = home(vec![dir("alpha", vec![file("notes.md")])]);
    let v = violations(&h);
    let missing: Vec<&Violation> = v.iter().filter(|v| matches!(v, Violation::ModRequiredFileMissing { .. })).collect();
    assert_eq!(missing.len(), 2);
    assert!(v.contains(&Violation::ModRequiredFileMissing { file: "README.md".to_string(), module: "/h/projects/alpha".to_string() }));
    assert!(v.contains(&Violation::ModRequiredFileMissing { file: "para.yaml".to_string(), module: "/h/projects/alpha".to_string() }));
}

#[test]
fn empty_module_reports_empty_and_missing_files() {
    let h = home(vec![dir("alpha", vec![])]);
    let v = violations(&h);
    let empties = v.iter().filter(|v| matches!(v, Violation::EmptyModule(_))).count();
    let missing = v.iter().filter(|v| matches!(v, Violation::ModRequiredFileMissing { .. })).count();
    assert_eq!(empties, 1);
    assert_eq!(missing, 2);
    assert!(v.contains(&Violation::EmptyModule("/h/projects/alpha".to_string())));
    assert!(v.contains(&Violation::NoTags("/h/projects/alpha/para.yaml".to_string())));
}

#[test]
fn long_separator_variants_are_duplicates() {
    let h = home(vec![good_module("projectnotesarchive_old"), good_module("projectnotesarchive-old")]);
    let v = violations(&h);
    let dups: Vec<&Violation> = v.iter().filter(|v| matches!(v, Violation::DuplicateModules(..))).collect();
    assert_eq!(dups, vec![&Violation::DuplicateModules(
        "/h/projects/projectnotesarchive_old".to_string(),
        "/h/projects/projectnotesarchive-old".to_string(),
    )]);
}

#[test]
fn separator_variants_are_duplicates() {
    let h = home(vec![good_module("foo_bar"), good_module("foo-bar")]);
    let v = violations(&h);
    let dups: Vec<&Violation> = v.iter().filter(|v| matches!(v, Violation::DuplicateModules(..))).collect();
    assert_eq!(dups, vec![&Violation::DuplicateModules("/h/projects/foo_bar".to_string(), "/h/projects/foo-bar".to_string())]);
}

#[test]
fn near_duplicate_names() {
    assert!(names_near_duplicate("foo_bar", "foo-bar"));
    assert!(names_near_duplicate("a.b c", "a_b-c"));
    assert!(!names_near_duplicate("alpha", "zzz999"));
    assert!(!names_near_duplicate("garden", "gardens_old"));
}

#[test]
fn unrelated_names_are_not_duplicates() {
    let h = home(vec![good_module("alpha"), good_module("zzz999")]);
    assert_eq!(violations(&h), vec![]);
}

#[test]
fn duplicates_across_roots() {
    let h = dir("h", vec![
        dir("projects", vec![good_module("garden")]),
        dir("areas", vec![good_module("garden")]),
        dir("resources", vec![]),
        dir("archive", vec![]),
    ]);
    assert_eq!(violations(&h), vec![Violation::DuplicateModules("/h/projects/garden".to_string(), "/h/areas/garden".to_string())]);
}

fn module_with_files(n: usize) -> Entry {
    let mut children = vec![file("README.md"), metadata("tags: [big]\n")];
    for i in 0..n - 2 {
        children.push(file(&format!("f{}", i)));
    }
    dir("big", children)
}

#[test]
fn thousand_entries_is_not_oversized() {
    let h = home(vec![module_with_files(1000)]);
    assert_eq!(violations(&h), vec![]);
}

#[test]
fn thousand_and_one_entries_is_oversized() {
    let h = home(vec![module_with_files(1001)]);
    assert_eq!(violations(&h), vec![Violation::TooManyFiles { module: "/h/projects/big".to_string(), filecount: 1001 }]);
}

#[test]
fn denied_entries_anywhere_are_reported() {
    let m = dir("web", vec![file("README.md"), metadata("tags: [js]\n"), dir("node_modules", vec![file("x.js")]), file("package-lock.json")]);
    let mut h = home(vec![m]);
    h.children[0].children[0].children[2].children.push(dir("tmp", vec![]));
    let v = violations(&h);
    assert_eq!(v, vec![
        Violation::DisallowedFile { path: "/h/projects/web/node_modules/tmp".to_string(), is_dir: true },
        Violation::DisallowedFile { path: "/h/projects/web/node_modules".to_string(), is_dir: true },
        Violation::DisallowedFile { path: "/h/projects/web/package-lock.json".to_string(), is_dir: false },
    ]);
}

#[test]
fn symlinks_are_not_followed() {
    let link = Entry { name: "venv".to_string(), is_dir: true, is_file: false, is_symlink: true, text: None, children: vec![file(".git")] };
    let m = dir("py", vec![file("README.md"), metadata("tags: [py]\n"), link]);
    let v = violations(&home(vec![m]));
    assert_eq!(v, vec![Violation::DisallowedFile { path: "/h/projects/py/venv".to_string(), is_dir: true }]);
}

#[test]
fn tags_absent_empty_or_malformed_report_no_tags() {
    for text in ["tags: []\n", "open: [code]\n", "tags: [unclosed\n", "tags: [1, 2]\n"] {
        let m = dir("alpha", vec![file("README.md"), metadata(text)]);
        let v = violations(&home(vec![m]));
        assert_eq!(v, vec![Violation::NoTags("/h/projects/alpha/para.yaml".to_string())], "{}", text);
    }
}

#[test]
fn levels_of_each_kind() {
    let p = || "/p".to_string();
    assert_eq!(Violation::RootDirClutter(p()).level(), 1);
    assert_eq!(Violation::ModDirClutter(p()).level(), 1);
    assert_eq!(Violation::EmptyModule(p()).level(), 1);
    assert_eq!(Violation::DuplicateModules(p(), p()).level(), 1);
    assert_eq!(Violation::ModDirName(p()).level(), 2);
    assert_eq!(Violation::DisallowedFile { path: p(), is_dir: false }.level(), 2);
    assert_eq!(Violation::ModRequiredFileMissing { file: p(), module: p() }.level(), 3);
    assert_eq!(Violation::TooManyFiles { module: p(), filecount: 1001 }.level(), 3);
    assert_eq!(Violation::NoTags(p()).level(), 4);
}

fn one_of_each() -> Vec<Violation> {
    let p = || "/h/x".to_string();
    vec![
        Violation::RootDirClutter(p()),
        Violation::ModDirClutter(p()),
        Violation::ModDirName(p()),
        Violation::ModRequiredFileMissing { file: "README.md".to_string(), module: p() },
        Violation::DisallowedFile { path: p(), is_dir: true },
        Violation::EmptyModule(p()),
        Violation::DuplicateModules(p(), p()),
        Violation::TooManyFiles { module: p(), filecount: 2000 },
        Violation::NoTags(p()),
    ]
}

#[test]
fn level_one_shows_only_the_most_severe() {
    let shown = select_level(&one_of_each(), 1);
    assert_eq!(shown.len(), 4);
    for v in &shown {
        assert!(matches!(v, Violation::RootDirClutter(_) | Violation::ModDirClutter(_) | Violation::EmptyModule(_) | Violation::DuplicateModules(..)));
    }
}

#[test]
fn level_four_shows_everything() {
    assert_eq!(select_level(&one_of_each(), 4), one_of_each());
}

#[test]
fn audit_counts_all_and_shows_by_level() {
    let h = home(vec![dir("Bad-Name", vec![])]);
    let report = audit("/h", &h, 1).unwrap();
    assert_eq!(report.total, 5);
    assert_eq!(report.shown, vec![Violation::EmptyModule("/h/projects/Bad-Name".to_string())]);
}

#[test]
fn audit_is_repeatable() {
    let h = home(vec![dir("Bad-Name", vec![]), good_module("foo_bar"), good_module("foo-bar")]);
    let first = violations(&h);
    let second = violations(&h);
    assert_eq!(first, second);
}

#[test]
fn fixes_of_each_kind() {
    let p = |s: &str| s.to_string();
    assert_eq!(Violation::RootDirClutter(p("/h/junk")).fix(), Fix::MoveFile(p("/h/junk")));
    assert_eq!(Violation::EmptyModule(p("/h/projects/e")).fix(), Fix::Delete { path: p("/h/projects/e"), recursive: true });
    assert_eq!(Violation::DuplicateModules(p("/a"), p("/b")).fix(), Fix::Manual);
    assert_eq!(Violation::TooManyFiles { module: p("/a"), filecount: 1001 }.fix(), Fix::Manual);
    assert_eq!(Violation::NoTags(p("/a/para.yaml")).fix(), Fix::EditFile(p("/a/para.yaml")));
}

#[test]
fn rename_fix_lowercases_and_underscores() {
    let cmd = Violation::ModDirName("/h/projects/My Project".to_string()).fix().command("/h");
    assert_eq!(cmd, "mv \"/h/projects/My Project\" \"/h/projects/my_project\"\n");
    let cmd = Violation::ModDirName("/h/areas/Foo-Bar.v2".to_string()).fix().command("/h");
    assert_eq!(cmd, "mv \"/h/areas/Foo-Bar.v2\" \"/h/areas/foo_bar_v2\"\n");
}

#[test]
fn fix_command_lines() {
    let cmds = fix_commands(&one_of_each(), "/h", 10);
    assert_eq!(cmds, vec![
        "mv \"/h/x\" \"/h/projects/CLUTTER/x\"\n".to_string(),
        "mv \"/h/x\" \"/h/projects/CLUTTER/x\"\n".to_string(),
        "mv \"/h/x\" \"/h/x\"\n".to_string(),
        "touch \"/h/x/README.md\"\n".to_string(),
        "rm -rf \"/h/x\"\n".to_string(),
        "rm -rf \"/h/x\"\n".to_string(),
        String::new(),
        String::new(),
        "vim /h/x\n".to_string(),
    ]);
}

#[test]
fn plain_file_is_removed_without_recursion() {
    let f = Fix::Delete { path: "/h/a/.gitignore".to_string(), recursive: false };
    assert_eq!(f.command("/h"), "rm \"/h/a/.gitignore\"\n");
}

#[test]
fn propose_fixes_filters_by_level() {
    let h = home(vec![dir("Bad-Name", vec![])]);
    let lines = propose_fixes("/h", &h, 2).unwrap();
    assert_eq!(lines, vec![
        "mv \"/h/projects/Bad-Name\" \"/h/projects/bad_name\"\n".to_string(),
        "rm -rf \"/h/projects/Bad-Name\"\n".to_string(),
    ]);
}
