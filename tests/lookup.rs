use para_audit::paths::{dir_prefix_of, file_name_of, join_path, repo_dir_name};
use para_audit::search::{contains_text, find_module, find_root, list_rooted_modules, search_by_tag, search_modules};
use para_audit::violation::{rename_command, underscore_separators};
use para_audit::{get_module_paths, get_module_tags, get_root_paths, visit_all, Entry};

fn file(name: &str) -> Entry {
    Entry { name: name.to_string(), is_dir: false, is_file: true, is_symlink: false, text: None, children: vec![] }
}

fn dir(name: &str, children: Vec<Entry>) -> Entry {
    Entry { name: name.to_string(), is_dir: true, is_file: false, is_symlink: false, text: None, children }
}

fn tagged(name: &str, tags: &str) -> Entry {
    let meta = Entry { name: "para.yaml".to_string(), is_dir: false, is_file: true, is_symlink: false, text: Some(tags.to_string()), children: vec![] };
    dir(name, vec![file("README.md"), meta])
}

fn sample() -> Entry {
    dir("h", vec![
        dir("projects", vec![tagged("alpha", "tags: [work, rust]\n"), file("stray")]),
        dir("areas", vec![tagged("health", "tags:\n  - life\n  - work\n")]),
        dir("resources", vec![]),
        dir("archive", vec![tagged("old", "open: [code, .]\n")]),
    ])
}

#[test]
fn root_paths_are_fixed() {
    assert_eq!(get_root_paths("/h"), vec!["/h/projects", "/h/areas", "/h/resources", "/h/archive"]);
}

#[test]
fn module_paths_skip_files() {
    assert_eq!(get_module_paths("/h", &sample()).unwrap(), vec!["/h/projects/alpha", "/h/areas/health", "/h/archive/old"]);
}

#[test]
fn walk_visits_children_first() {
    let t = dir("m", vec![dir("a", vec![file("x")]), file("b")]);
    let paths: Vec<String> = visit_all(&"/m".to_string(), &t).into_iter().map(|v| v.path).collect();
    assert_eq!(paths, vec!["/m/a/x", "/m/a", "/m/b", "/m"]);
}

#[test]
fn roots_are_found_by_name() {
    assert_eq!(find_root("/h", "areas"), Some("/h/areas".to_string()));
    assert_eq!(find_root("/h", "inbox"), None);
}

#[test]
fn modules_are_found_by_exact_name() {
    assert_eq!(find_module("/h", &sample(), "health").unwrap(), Some("/h/areas/health".to_string()));
    assert_eq!(find_module("/h", &sample(), "heal").unwrap(), None);
}

#[test]
fn rooted_modules_are_listed() {
    assert_eq!(list_rooted_modules("/h", &sample(), "projects").unwrap(), vec!["/h/projects/alpha"]);
    assert_eq!(list_rooted_modules("/h", &sample(), "resources").unwrap(), Vec::<String>::new());
    assert_eq!(list_rooted_modules("/h", &sample(), "inbox"), Err("invalid root: inbox".to_string()));
}

#[test]
fn modules_are_found_by_tag() {
    assert_eq!(search_by_tag("/h", &sample(), "work").unwrap(), vec!["/h/projects/alpha", "/h/areas/health"]);
    assert_eq!(search_by_tag("/h", &sample(), "rust").unwrap(), vec!["/h/projects/alpha"]);
    assert_eq!(search_by_tag("/h", &sample(), "none").unwrap(), Vec::<String>::new());
}

#[test]
fn module_tags_are_read_in_order() {
    assert_eq!(get_module_tags(&tagged("a", "tags: [b, a, 3, c]\n")), vec!["b", "a", "c"]);
    assert_eq!(get_module_tags(&dir("a", vec![])), Vec::<String>::new());
}

#[test]
fn path_components() {
    assert_eq!(file_name_of("/h/projects/My Project"), "My Project");
    assert_eq!(dir_prefix_of("/h/projects/My Project"), "/h/projects/");
    assert_eq!(file_name_of("plain"), "plain");
    assert_eq!(join_path("/h", "x"), "/h/x");
}

#[test]
fn separators_become_underscores() {
    assert_eq!(underscore_separators("a-b c.d_e"), "a_b_c_d_e");
    assert_eq!(rename_command("/h/areas/X", "y"), "mv \"/h/areas/X\" \"/h/areas/y\"\n");
}

fn bits(x: f64) -> u64 {
    x.to_bits()
}

#[test]
fn text_containment() {
    assert!(contains_text("garden_plans", "plan"));
    assert!(contains_text("abc", ""));
    assert!(contains_text("abc", "abc"));
    assert!(!contains_text("abc", "abcd"));
    assert!(!contains_text("abc", "bd"));
}

#[test]
fn search_puts_tag_hits_first_then_name_hits() {
    let h = dir("h", vec![
        dir("projects", vec![tagged("alpha", "tags: [health]\n"), tagged("healthy_meals", "tags: [food]\n")]),
        dir("areas", vec![tagged("health", "tags: [life]\n")]),
        dir("resources", vec![]),
        dir("archive", vec![]),
    ]);
    assert_eq!(
        search_modules("/h", &h, "health", bits(0.8)).unwrap(),
        vec!["/h/projects/alpha", "/h/projects/healthy_meals", "/h/areas/health"]
    );
    assert_eq!(search_modules("/h", &h, "zzzz", bits(0.8)).unwrap(), Vec::<String>::new());
}

#[test]
fn exact_precision_keeps_only_substring_hits() {
    let h = dir("h", vec![
        dir("projects", vec![tagged("garden", "tags: [x]\n"), tagged("gardens", "tags: [x]\n")]),
        dir("areas", vec![]),
        dir("resources", vec![]),
        dir("archive", vec![]),
    ]);
    assert_eq!(search_modules("/h", &h, "gardn", bits(1.0)).unwrap(), Vec::<String>::new());
    assert_eq!(search_modules("/h", &h, "gardens", bits(1.0)).unwrap(), vec!["/h/projects/gardens"]);
    assert_eq!(search_modules("/h", &h, "gardn", bits(0.8)).unwrap(), vec!["/h/projects/garden", "/h/projects/gardens"]);
}

#[test]
fn repository_directory_names() {
    assert_eq!(repo_dir_name("https://example.com/me/tool.git"), "tool");
    assert_eq!(repo_dir_name("git@host:me/tool"), "tool");
    assert_eq!(repo_dir_name("https://example.com/me/odd.git.git"), "odd");
    assert_eq!(repo_dir_name("plain"), "plain");
}
