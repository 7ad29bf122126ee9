//! The rule set: nine checks over a snapshot of the home tree.
use vstd::prelude::*;
use crate::meta::{METADATA_FILE, module_tags, get_module_tags};
use crate::paths::{join, join_path};
use crate::seqs::{flat_map, lemma_flat_map_step, lemma_flat_map_all};
use crate::taxonomy::{
    is_root_name, is_root_name_exec, root_path, root_entry, root_index, roots_readable, has_root,
    modules_of, module_entry, module_in, lemma_modules_in, module_list, module_views, root_index_of,
    root_name_of, ModuleAt, TreeError,
};
use crate::text::{has_invalid_name_char, class_matches, INVALID_NAME_CLASS, jaro_bits, jaro_bits_of};
use crate::tree::{Entry, walk, visit_all, visit_views, descendant_count};
use crate::violation::{Violation, ViolationView, violation_views, underscored, underscore_separators};

verus! {

broadcast use vstd::std_specs::vec::group_vec_axioms;

/// The name of the description file every module must hold.
pub const README_FILE: &'static str = "README.md";

/// Above this many entries below it, a module is oversized.
pub const MAX_MODULE_ENTRIES: usize = 1000;

/// The bits of the `f64` 0.96. Jaro similarities are not negative, and the
/// bits of non-negative doubles are ordered as the doubles are, so a
/// similarity exceeds 0.96 exactly when its bits exceed these.
pub const DUPLICATE_SIMILARITY_BITS: u64 = 0x3FEE_B851_EB85_1EB8;

/// The name of the `k`-th file every module must hold.
pub open spec fn required_file(k: int) -> Seq<char> {
    if k == 0 { README_FILE@ } else { METADATA_FILE@ }
}

/// The `k`-th of the names that may stand nowhere in the tree.
pub open spec fn denied_name(k: int) -> Seq<char> {
    if k == 0 {
        ".git"@
    } else if k == 1 {
        ".svn"@
    } else if k == 2 {
        "package-lock.json"@
    } else if k == 3 {
        ".gitignore"@
    } else if k == 4 {
        "node_modules"@
    } else if k == 5 {
        "venv"@
    } else if k == 6 {
        "build"@
    } else if k == 7 {
        "target"@
    } else if k == 8 {
        ".mypy_cache"@
    } else if k == 9 {
        "__pycache__"@
    } else {
        "tmp"@
    }
}

pub const N_DENIED: usize = 11;

pub open spec fn is_denied(name: Seq<char>) -> bool {
    exists|k: int| 0 <= k < N_DENIED && name == #[trigger] denied_name(k)
}

/// Whether the directory `e` holds an entry named `name`.
pub open spec fn has_child(e: Entry, name: Seq<char>) -> bool {
    exists|i: int| 0 <= i < e.children@.len() && (#[trigger] e.children@[i]).name@ == name
}

/// Clutter under home: every entry that is not one of the roots.
pub open spec fn root_clutter(home_path: Seq<char>, home: Entry) -> Seq<ViolationView> {
    flat_map(home.children@, |c: Entry| if is_root_name(c.name@) {
        Seq::<ViolationView>::empty()
    } else {
        seq![ViolationView::RootDirClutter(join(home_path, c.name@))]
    })
}

/// Clutter under the `k`-th root: every entry that is no directory.
pub open spec fn root_dir_clutter(home_path: Seq<char>, home: Entry, k: int) -> Seq<ViolationView> {
    flat_map(root_entry(home, k).children@, |c: Entry| if c.is_dir {
        Seq::<ViolationView>::empty()
    } else {
        seq![ViolationView::ModDirClutter(join(root_path(home_path, k), c.name@))]
    })
}

pub open spec fn module_dir_clutter(home_path: Seq<char>, home: Entry) -> Seq<ViolationView> {
    root_dir_clutter(home_path, home, 0) + root_dir_clutter(home_path, home, 1)
        + root_dir_clutter(home_path, home, 2) + root_dir_clutter(home_path, home, 3)
}

/// A module whose name holds a character that a module name may not hold.
pub open spec fn name_finding(home: Entry, m: (Seq<char>, int, int)) -> Seq<ViolationView> {
    if has_invalid_name_char(module_entry(home, m).name@) {
        seq![ViolationView::ModDirName(m.0)]
    } else {
        Seq::empty()
    }
}

pub open spec fn name_violations(home: Entry, mods: Seq<(Seq<char>, int, int)>) -> Seq<ViolationView> {
    flat_map(mods, |m: (Seq<char>, int, int)| name_finding(home, m))
}

/// What the module `e` at `path` lacks: entries, each required file, tags.
pub open spec fn module_findings(path: Seq<char>, e: Entry) -> Seq<ViolationView> {
    (if e.children@.len() == 0 { seq![ViolationView::EmptyModule(path)] } else { Seq::empty() })
        + (if has_child(e, required_file(0)) {
        Seq::empty()
    } else {
        seq![ViolationView::ModRequiredFileMissing { file: required_file(0), module: path }]
    }) + (if has_child(e, required_file(1)) {
        Seq::empty()
    } else {
        seq![ViolationView::ModRequiredFileMissing { file: required_file(1), module: path }]
    }) + (if module_tags(e).len() == 0 {
        seq![ViolationView::NoTags(join(path, METADATA_FILE@))]
    } else {
        Seq::empty()
    })
}

pub open spec fn module_violations(home: Entry, mods: Seq<(Seq<char>, int, int)>) -> Seq<ViolationView> {
    flat_map(mods, |m: (Seq<char>, int, int)| module_findings(m.0, module_entry(home, m)))
}

/// Every entry of the whole tree whose name is denied.
pub open spec fn disallowed(home_path: Seq<char>, home: Entry) -> Seq<ViolationView> {
    flat_map(walk(home_path, home), |v: (Seq<char>, Seq<char>, bool, bool)| if is_denied(v.1) {
        seq![ViolationView::DisallowedFile { path: v.0, is_dir: v.2 }]
    } else {
        Seq::empty()
    })
}

/// Whether two module names are nearly the same: the Jaro similarity of the
/// names, with hyphens, spaces and periods read as underscores, exceeds 0.96.
/// Names that differ only in such separators always are.
pub fn names_near_duplicate(a: &str, b: &str) -> (r: bool)
    ensures
        r == (jaro_bits_of(underscored(a@), underscored(b@)) > DUPLICATE_SIMILARITY_BITS),
        underscored(a@) == underscored(b@) ==> r,
{
    let na = underscore_separators(a);
    let nb = underscore_separators(b);
    jaro_bits(na.as_str(), nb.as_str()) > DUPLICATE_SIMILARITY_BITS
}

/// Two modules whose names are nearly the same.
pub open spec fn near_duplicates(home: Entry, a: (Seq<char>, int, int), b: (Seq<char>, int, int)) -> bool {
    a.0 != b.0 && jaro_bits_of(underscored(module_entry(home, a).name@), underscored(module_entry(home, b).name@))
        > DUPLICATE_SIMILARITY_BITS
}

pub open spec fn pair_finding(home: Entry, mods: Seq<(Seq<char>, int, int)>, i: int, j: int) -> Seq<ViolationView> {
    if near_duplicates(home, mods[i], mods[j]) {
        seq![ViolationView::DuplicateModules(mods[i].0, mods[j].0)]
    } else {
        Seq::empty()
    }
}

/// The duplicates found pairing the `i`-th module with itself and those after it.
pub open spec fn duplicate_row(home: Entry, mods: Seq<(Seq<char>, int, int)>, i: int) -> Seq<ViolationView> {
    flat_map(Seq::new((mods.len() - i) as nat, |d: int| i + d), |j: int| pair_finding(home, mods, i, j))
}

pub open spec fn duplicate_violations(home: Entry, mods: Seq<(Seq<char>, int, int)>) -> Seq<ViolationView> {
    flat_map(Seq::new(mods.len(), |i: int| i), |i: int| duplicate_row(home, mods, i))
}

/// A module with more than the allowed number of entries below it.
pub open spec fn size_finding(path: Seq<char>, e: Entry) -> Seq<ViolationView> {
    if descendant_count(path, e) > MAX_MODULE_ENTRIES {
        seq![ViolationView::TooManyFiles { module: path, filecount: descendant_count(path, e) }]
    } else {
        Seq::empty()
    }
}

pub open spec fn size_violations(home: Entry, mods: Seq<(Seq<char>, int, int)>) -> Seq<ViolationView> {
    flat_map(mods, |m: (Seq<char>, int, int)| size_finding(m.0, module_entry(home, m)))
}

/// Every violation of the tree `home` found at `home_path`, check by check.
pub open spec fn audit_of(home_path: Seq<char>, home: Entry) -> Seq<ViolationView> {
    let mods = modules_of(home_path, home);
    root_clutter(home_path, home) + module_dir_clutter(home_path, home) + name_violations(home, mods)
        + module_violations(home, mods) + disallowed(home_path, home) + duplicate_violations(home, mods)
        + size_violations(home, mods)
}

/// Appends the violations of `more` to `out`.
fn append_violations(out: &mut Vec<Violation>, more: Vec<Violation>)
    ensures
        violation_views(final(out)@) == violation_views(old(out)@) + violation_views(more@),
{
    let mut more = more;
    let ghost added = more@;
    out.append(&mut more);
    assert(violation_views(out@) =~= violation_views(old(out)@) + violation_views(added));
}

/// The entries under home that are not roots.
pub fn root_clutter_of(home_path: &str, home: &Entry) -> (r: Vec<Violation>)
    ensures
        violation_views(r@) == root_clutter(home_path@, *home),
{
    let ghost f = |c: Entry| if is_root_name(c.name@) {
        Seq::<ViolationView>::empty()
    } else {
        seq![ViolationView::RootDirClutter(join(home_path@, c.name@))]
    };
    let mut r: Vec<Violation> = Vec::new();
    let mut i: usize = 0;
    while i < home.children.len()
        invariant
            i <= home.children@.len(),
            forall|c: Entry| #[trigger] f(c) == if is_root_name(c.name@) {
                Seq::<ViolationView>::empty()
            } else {
                seq![ViolationView::RootDirClutter(join(home_path@, c.name@))]
            },
            violation_views(r@) == flat_map(home.children@.take(i as int), f),
        decreases home.children@.len() - i,
    {
        proof {
            lemma_flat_map_step(home.children@, f, i as int);
        }
        let c = &home.children[i];
        let ghost before = r@;
        if !is_root_name_exec(&c.name) {
            r.push(Violation::RootDirClutter(join_path(home_path, c.name.as_str())));
            assert(violation_views(r@) =~= violation_views(before) + f(*c));
        } else {
            assert(violation_views(r@) =~= violation_views(before) + f(*c));
        }
        i = i + 1;
    }
    proof {
        lemma_flat_map_all(home.children@, f);
    }
    r
}

/// The entries under the `k`-th root that are no directories.
fn root_dir_clutter_of(home_path: &str, home: &Entry, k: usize, ri: usize) -> (r: Vec<Violation>)
    requires
        k < 4,
        ri < home.children@.len(),
        ri == root_index(*home, k as int),
    ensures
        violation_views(r@) == root_dir_clutter(home_path@, *home, k as int),
{
    let root = &home.children[ri];
    let rp = join_path(home_path, root_name_of(k));
    let ghost f = |c: Entry| if c.is_dir {
        Seq::<ViolationView>::empty()
    } else {
        seq![ViolationView::ModDirClutter(join(root_path(home_path@, k as int), c.name@))]
    };
    let mut r: Vec<Violation> = Vec::new();
    let mut i: usize = 0;
    while i < root.children.len()
        invariant
            i <= root.children@.len(),
            *root == root_entry(*home, k as int),
            rp@ == root_path(home_path@, k as int),
            forall|c: Entry| #[trigger] f(c) == if c.is_dir {
                Seq::<ViolationView>::empty()
            } else {
                seq![ViolationView::ModDirClutter(join(root_path(home_path@, k as int), c.name@))]
            },
            violation_views(r@) == flat_map(root.children@.take(i as int), f),
        decreases root.children@.len() - i,
    {
        proof {
            lemma_flat_map_step(root.children@, f, i as int);
        }
        let c = &root.children[i];
        let ghost before = r@;
        if !c.is_dir {
            r.push(Violation::ModDirClutter(join_path(rp.as_str(), c.name.as_str())));
        }
        assert(violation_views(r@) =~= violation_views(before) + f(*c));
        i = i + 1;
    }
    proof {
        lemma_flat_map_all(root.children@, f);
    }
    r
}

/// The modules `mods` of `home` all lead to entries of the tree.
pub open spec fn modules_in(home: Entry, mods: Seq<ModuleAt>) -> bool {
    forall|j: int| 0 <= j < mods.len() ==> module_in(home, #[trigger] mods[j]@)
}

/// Whether a module name holds a character that module names may not hold.
pub fn invalid_module_name(name: &str) -> (r: bool)
    ensures
        r == has_invalid_name_char(name@),
{
    match class_matches(INVALID_NAME_CLASS, name) {
        Some(b) => b,
        None => false,
    }
}

/// The modules whose names are invalid.
fn name_violations_of(home: &Entry, mods: &Vec<ModuleAt>) -> (r: Vec<Violation>)
    requires
        modules_in(*home, mods@),
    ensures
        violation_views(r@) == name_violations(*home, module_views(mods@)),
{
    let ghost ms = module_views(mods@);
    let ghost f = |m: (Seq<char>, int, int)| name_finding(*home, m);
    let mut r: Vec<Violation> = Vec::new();
    let mut i: usize = 0;
    while i < mods.len()
        invariant
            i <= mods@.len(),
            ms == module_views(mods@),
            modules_in(*home, mods@),
            forall|m: (Seq<char>, int, int)| #[trigger] f(m) == name_finding(*home, m),
            violation_views(r@) == flat_map(ms.take(i as int), f),
        decreases mods@.len() - i,
    {
        proof {
            lemma_flat_map_step(ms, f, i as int);
            assert(module_in(*home, mods@[i as int]@));
        }
        let m = &mods[i];
        let e = &home.children[m.root].children[m.index];
        let ghost before = r@;
        if invalid_module_name(e.name.as_str()) {
            r.push(Violation::ModDirName(m.path.clone()));
        }
        assert(violation_views(r@) =~= violation_views(before) + f(ms[i as int]));
        i = i + 1;
    }
    proof {
        lemma_flat_map_all(ms, f);
    }
    r
}

/// Whether the directory `e` holds an entry named `name`.
fn has_child_exec(e: &Entry, name: &str) -> (r: bool)
    ensures
        r == has_child(*e, name@),
{
    let n = String::from_str(name);
    match crate::taxonomy::find_named(&e.children, &n) {
        Some(_) => true,
        None => false,
    }
}

/// What the module `e` at `path` lacks: entries, each required file, tags.
pub fn module_findings_of(path: &String, e: &Entry) -> (r: Vec<Violation>)
    ensures
        violation_views(r@) == module_findings(path@, *e),
{
    let mut r: Vec<Violation> = Vec::new();
    if e.children.len() == 0 {
        r.push(Violation::EmptyModule(path.clone()));
    }
    if !has_child_exec(e, README_FILE) {
        r.push(Violation::ModRequiredFileMissing { file: String::from_str(README_FILE), module: path.clone() });
    }
    if !has_child_exec(e, METADATA_FILE) {
        r.push(Violation::ModRequiredFileMissing { file: String::from_str(METADATA_FILE), module: path.clone() });
    }
    let tags = get_module_tags(e);
    if tags.len() == 0 {
        r.push(Violation::NoTags(join_path(path.as_str(), METADATA_FILE)));
    }
    assert(violation_views(r@) =~= module_findings(path@, *e));
    r
}

/// What each module lacks, module by module.
fn module_violations_of(home: &Entry, mods: &Vec<ModuleAt>) -> (r: Vec<Violation>)
    requires
        modules_in(*home, mods@),
    ensures
        violation_views(r@) == module_violations(*home, module_views(mods@)),
{
    let ghost ms = module_views(mods@);
    let ghost f = |m: (Seq<char>, int, int)| module_findings(m.0, module_entry(*home, m));
    let mut r: Vec<Violation> = Vec::new();
    let mut i: usize = 0;
    while i < mods.len()
        invariant
            i <= mods@.len(),
            ms == module_views(mods@),
            modules_in(*home, mods@),
            forall|m: (Seq<char>, int, int)| #[trigger] f(m) == module_findings(m.0, module_entry(*home, m)),
            violation_views(r@) == flat_map(ms.take(i as int), f),
        decreases mods@.len() - i,
    {
        proof {
            lemma_flat_map_step(ms, f, i as int);
            assert(module_in(*home, mods@[i as int]@));
        }
        let m = &mods[i];
        let e = &home.children[m.root].children[m.index];
        let found = module_findings_of(&m.path, e);
        append_violations(&mut r, found);
        i = i + 1;
    }
    proof {
        lemma_flat_map_all(ms, f);
    }
    r
}

/// The number of entries below the module `e` at `path`, where
/// that exceeds the limit.
pub fn size_finding_of(path: &String, e: &Entry) -> (r: Vec<Violation>)
    ensures
        violation_views(r@) == size_finding(path@, *e),
{
    let seen = visit_all(path, e);
    let mut r: Vec<Violation> = Vec::new();
    let below = seen.len() - 1;
    if below > MAX_MODULE_ENTRIES {
        r.push(Violation::TooManyFiles { module: path.clone(), filecount: below as u64 });
    }
    assert(violation_views(r@) =~= size_finding(path@, *e));
    r
}

/// The oversized modules.
fn size_violations_of(home: &Entry, mods: &Vec<ModuleAt>) -> (r: Vec<Violation>)
    requires
        modules_in(*home, mods@),
    ensures
        violation_views(r@) == size_violations(*home, module_views(mods@)),
{
    let ghost ms = module_views(mods@);
    let ghost f = |m: (Seq<char>, int, int)| size_finding(m.0, module_entry(*home, m));
    let mut r: Vec<Violation> = Vec::new();
    let mut i: usize = 0;
    while i < mods.len()
        invariant
            i <= mods@.len(),
            ms == module_views(mods@),
            modules_in(*home, mods@),
            forall|m: (Seq<char>, int, int)| #[trigger] f(m) == size_finding(m.0, module_entry(*home, m)),
            violation_views(r@) == flat_map(ms.take(i as int), f),
        decreases mods@.len() - i,
    {
        proof {
            lemma_flat_map_step(ms, f, i as int);
            assert(module_in(*home, mods@[i as int]@));
        }
        let m = &mods[i];
        let e = &home.children[m.root].children[m.index];
        let found = size_finding_of(&m.path, e);
        append_violations(&mut r, found);
        i = i + 1;
    }
    proof {
        lemma_flat_map_all(ms, f);
    }
    r
}

/// The `k`-th of the names that may stand nowhere in the tree.
fn denied_name_of(k: usize) -> (r: &'static str)
    requires
        k < N_DENIED,
    ensures
        r@ == denied_name(k as int),
{
    if k == 0 {
        ".git"
    } else if k == 1 {
        ".svn"
    } else if k == 2 {
        "package-lock.json"
    } else if k == 3 {
        ".gitignore"
    } else if k == 4 {
        "node_modules"
    } else if k == 5 {
        "venv"
    } else if k == 6 {
        "build"
    } else if k == 7 {
        "target"
    } else if k == 8 {
        ".mypy_cache"
    } else if k == 9 {
        "__pycache__"
    } else {
        "tmp"
    }
}

/// Whether `name` may stand nowhere in the tree.
pub fn is_denied_name(name: &String) -> (r: bool)
    ensures
        r == is_denied(name@),
{
    let mut k: usize = 0;
    while k < N_DENIED
        invariant
            k <= N_DENIED,
            forall|j: int| 0 <= j < k ==> name@ != #[trigger] denied_name(j),
        decreases N_DENIED - k,
    {
        let d = String::from_str(denied_name_of(k));
        if *name == d {
            return true;
        }
        k = k + 1;
    }
    false
}

/// Every entry of the whole tree whose name is denied.
fn disallowed_of(home_path: &String, home: &Entry) -> (r: Vec<Violation>)
    ensures
        violation_views(r@) == disallowed(home_path@, *home),
{
    let seen = visit_all(home_path, home);
    let ghost vs = visit_views(seen@);
    let ghost f = |v: (Seq<char>, Seq<char>, bool, bool)| if is_denied(v.1) {
        seq![ViolationView::DisallowedFile { path: v.0, is_dir: v.2 }]
    } else {
        Seq::<ViolationView>::empty()
    };
    let mut r: Vec<Violation> = Vec::new();
    let mut i: usize = 0;
    while i < seen.len()
        invariant
            i <= seen@.len(),
            vs == visit_views(seen@),
            forall|v: (Seq<char>, Seq<char>, bool, bool)| #[trigger] f(v) == if is_denied(v.1) {
                seq![ViolationView::DisallowedFile { path: v.0, is_dir: v.2 }]
            } else {
                Seq::<ViolationView>::empty()
            },
            violation_views(r@) == flat_map(vs.take(i as int), f),
        decreases seen@.len() - i,
    {
        proof {
            lemma_flat_map_step(vs, f, i as int);
        }
        let v = &seen[i];
        let ghost before = r@;
        if is_denied_name(&v.name) {
            r.push(Violation::DisallowedFile { path: v.path.clone(), is_dir: v.is_dir });
        }
        assert(violation_views(r@) =~= violation_views(before) + f(vs[i as int]));
        i = i + 1;
    }
    proof {
        lemma_flat_map_all(vs, f);
    }
    r
}

/// The pairs of the `i`-th module with itself and the modules after it whose
/// names are nearly the same.
fn duplicate_row_of(home: &Entry, mods: &Vec<ModuleAt>, i: usize) -> (r: Vec<Violation>)
    requires
        modules_in(*home, mods@),
        i < mods@.len(),
    ensures
        violation_views(r@) == duplicate_row(*home, module_views(mods@), i as int),
{
    let ghost ms = module_views(mods@);
    let ghost idx = Seq::new((ms.len() - i) as nat, |d: int| i + d);
    let ghost f = |j: int| pair_finding(*home, ms, i as int, j);
    let a = &mods[i];
    proof {
        assert(module_in(*home, mods@[i as int]@));
    }
    let ea = &home.children[a.root].children[a.index];
    let mut r: Vec<Violation> = Vec::new();
    let mut j: usize = i;
    while j < mods.len()
        invariant
            i <= j <= mods@.len(),
            ms == module_views(mods@),
            modules_in(*home, mods@),
            idx == Seq::new((ms.len() - i) as nat, |d: int| i + d),
            *a == mods@[i as int],
            *ea == module_entry(*home, ms[i as int]),
            forall|k: int| #[trigger] f(k) == pair_finding(*home, ms, i as int, k),
            violation_views(r@) == flat_map(idx.take(j - i), f),
        decreases mods@.len() - j,
    {
        proof {
            lemma_flat_map_step(idx, f, j - i);
            assert(module_in(*home, mods@[j as int]@));
        }
        let b = &mods[j];
        let eb = &home.children[b.root].children[b.index];
        let ghost before = r@;
        if !(a.path == b.path) && names_near_duplicate(ea.name.as_str(), eb.name.as_str()) {
            r.push(Violation::DuplicateModules(a.path.clone(), b.path.clone()));
        }
        assert(idx[j - i] == j);
        assert(violation_views(r@) =~= violation_views(before) + f(idx[j - i]));
        j = j + 1;
    }
    proof {
        lemma_flat_map_all(idx, f);
    }
    r
}

/// Every pair of modules whose names are nearly the same, each pair once.
fn duplicate_violations_of(home: &Entry, mods: &Vec<ModuleAt>) -> (r: Vec<Violation>)
    requires
        modules_in(*home, mods@),
    ensures
        violation_views(r@) == duplicate_violations(*home, module_views(mods@)),
{
    let ghost ms = module_views(mods@);
    let ghost idx = Seq::new(ms.len(), |i: int| i);
    let ghost f = |i: int| duplicate_row(*home, ms, i);
    let mut r: Vec<Violation> = Vec::new();
    let mut i: usize = 0;
    while i < mods.len()
        invariant
            i <= mods@.len(),
            ms == module_views(mods@),
            modules_in(*home, mods@),
            idx == Seq::new(ms.len(), |i: int| i),
            forall|k: int| #[trigger] f(k) == duplicate_row(*home, ms, k),
            violation_views(r@) == flat_map(idx.take(i as int), f),
        decreases mods@.len() - i,
    {
        proof {
            lemma_flat_map_step(idx, f, i as int);
        }
        let row = duplicate_row_of(home, mods, i);
        append_violations(&mut r, row);
        assert(idx[i as int] == i);
        i = i + 1;
    }
    proof {
        lemma_flat_map_all(idx, f);
    }
    r
}

/// Every violation of the tree `home` found at `home_path`: clutter under
/// home and under each root, invalid module names, what each module lacks,
/// denied entries anywhere, near-duplicate module names, and oversized
/// modules. A root that is missing or no directory cannot be read, and then
/// nothing is reported but that root.
pub fn get_violations(home_path: &str, home: &Entry) -> (r: Result<Vec<Violation>, TreeError>)
    ensures
        r matches Ok(v) ==> roots_readable(*home) && violation_views(v@) == audit_of(home_path@, *home),
        r matches Err(TreeError::UnreadableRoot(p)) ==> exists|k: int|
            0 <= k < 4 && !has_root(*home, k) && p@ == #[trigger] root_path(home_path@, k),
        r is Err <==> !roots_readable(*home),
{
    let mods = match module_list(home_path, home) {
        Ok(m) => m,
        Err(e) => {
            return Err(e);
        },
    };
    proof {
        lemma_modules_in(home_path@, *home);
        assert forall|j: int| 0 <= j < mods@.len() implies module_in(*home, #[trigger] mods@[j]@) by {
            assert(module_views(mods@)[j] == mods@[j]@);
        }
    }
    let mut out = root_clutter_of(home_path, home);
    let mut k: usize = 0;
    while k < 4
        invariant
            k <= 4,
            roots_readable(*home),
            violation_views(out@) == root_clutter(home_path@, *home) + if k == 0 {
                Seq::empty()
            } else if k == 1 {
                root_dir_clutter(home_path@, *home, 0)
            } else if k == 2 {
                root_dir_clutter(home_path@, *home, 0) + root_dir_clutter(home_path@, *home, 1)
            } else if k == 3 {
                root_dir_clutter(home_path@, *home, 0) + root_dir_clutter(home_path@, *home, 1)
                    + root_dir_clutter(home_path@, *home, 2)
            } else {
                module_dir_clutter(home_path@, *home)
            },
        decreases 4 - k,
    {
        assert(has_root(*home, k as int));
        let ri = match root_index_of(home_path, home, k) {
            Ok(i) => i,
            Err(p) => {
                return Err(TreeError::UnreadableRoot(p));
            },
        };
        let more = root_dir_clutter_of(home_path, home, k, ri);
        let ghost before = violation_views(out@);
        append_violations(&mut out, more);
        assert(violation_views(out@) =~= before + root_dir_clutter(home_path@, *home, k as int));
        k = k + 1;
    }
    let hp = String::from_str(home_path);
    append_violations(&mut out, name_violations_of(home, &mods));
    append_violations(&mut out, module_violations_of(home, &mods));
    append_violations(&mut out, disallowed_of(&hp, home));
    append_violations(&mut out, duplicate_violations_of(home, &mods));
    append_violations(&mut out, size_violations_of(home, &mods));
    assert(violation_views(out@) =~= audit_of(home_path@, *home));
    Ok(out)
}

} // verus!
