use para_audit::stats::{at_least, by_count_descending, count_names, extension_of, get_all_tags, stats};
use para_audit::Entry;

fn file(name: &str) -> Entry {
    Entry { name: name.to_string(), is_dir: false, is_file: true, is_symlink: false, text: None, children: vec![] }
}

fn dir(name: &str, children: Vec<Entry>) -> Entry {
    Entry { name: name.to_string(), is_dir: true, is_file: false, is_symlink: false, text: None, children }
}

fn tagged(name: &str, tags: &str) -> Entry {
    let meta = Entry { name: "para.yaml".to_string(), is_dir: false, is_file: true, is_symlink: false, text: Some(tags.to_string()), children: vec![] };
    dir(name, vec![file("README.md"), meta])
}

fn owned(v: &[(&str, u32)]) -> Vec<(String, u32)> {
    v.iter().map(|(s, n)| (s.to_string(), *n)).collect()
}

#[test]
fn names_are_counted_in_first_order() {
    let names: Vec<String> = ["b", "a", "b", "c", "b", "a"].iter().map(|s| s.to_string()).collect();
    assert_eq!(count_names(&names), owned(&[("b", 3), ("a", 2), ("c", 1)]));
    assert_eq!(count_names(&vec![]), vec![]);
}

#[test]
fn counts_filter_and_sort() {
    let counts = owned(&[("a", 1), ("b", 7), ("c", 3), ("d", 5)]);
    assert_eq!(at_least(&counts, 3), owned(&[("b", 7), ("c", 3), ("d", 5)]));
    assert_eq!(by_count_descending(&counts), owned(&[("b", 7), ("d", 5), ("c", 3), ("a", 1)]));
}

#[test]
fn extensions_follow_the_last_period() {
    assert_eq!(extension_of("main.rs"), "rs");
    assert_eq!(extension_of("a.tar.gz"), "gz");
    assert_eq!(extension_of(".bashrc"), "none");
    assert_eq!(extension_of("Makefile"), "none");
    assert_eq!(extension_of("odd."), "");
}

#[test]
fn tags_are_totalled_over_modules() {
    let h = dir("h", vec![
        dir("projects", vec![tagged("a", "tags: [work, rust]\n"), tagged("b", "tags: [work]\n")]),
        dir("areas", vec![tagged("c", "tags: [life, work]\n")]),
        dir("resources", vec![]),
        dir("archive", vec![]),
    ]);
    assert_eq!(get_all_tags("/h", &h).unwrap(), owned(&[("work", 3), ("rust", 1), ("life", 1)]));
}

#[test]
fn stats_count_entries_and_extensions() {
    let h = dir("h", vec![
        dir("projects", vec![dir("m", vec![file("a.rs"), file("b.rs"), file("notes.md"), file("LICENSE")])]),
        dir("areas", vec![]),
        dir("resources", vec![]),
        dir("archive", vec![]),
    ]);
    let st = stats("/h", &h, 1);
    assert_eq!(st.total, 10);
    assert_eq!(st.extensions[0], ("rs".to_string(), 2));
    assert_eq!(st.extensions.len(), 3);
    let st = stats("/h", &h, 2);
    assert_eq!(st.extensions, owned(&[("rs", 2)]));
}

#[test]
fn dangling_links_are_no_files() {
    let dangling = Entry { name: "gone.rs".to_string(), is_dir: false, is_file: false, is_symlink: true, text: None, children: vec![] };
    let h = dir("h", vec![
        dir("projects", vec![dir("m", vec![file("a.rs"), dangling])]),
        dir("areas", vec![]),
        dir("resources", vec![]),
        dir("archive", vec![]),
    ]);
    let st = stats("/h", &h, 1);
    assert_eq!(st.total, 8);
    assert_eq!(st.extensions, owned(&[("rs", 1)]));
}
