//! The four roots under the home directory and the modules one level below.
use vstd::prelude::*;
use crate::paths::{join, join_path};
use crate::tree::Entry;

verus! {

/// The name of the `k`-th root.
pub open spec fn root_name(k: int) -> Seq<char> {
    if k == 0 {
        "projects"@
    } else if k == 1 {
        "areas"@
    } else if k == 2 {
        "resources"@
    } else {
        "archive"@
    }
}

pub open spec fn is_root_name(name: Seq<char>) -> bool {
    exists|k: int| 0 <= k < 4 && name == #[trigger] root_name(k)
}

/// The path of the `k`-th root under `home`.
pub open spec fn root_path(home: Seq<char>, k: int) -> Seq<char> {
    join(home, root_name(k))
}

pub open spec fn root_paths(home: Seq<char>) -> Seq<Seq<char>> {
    seq![root_path(home, 0), root_path(home, 1), root_path(home, 2), root_path(home, 3)]
}

pub open spec fn string_views(v: Seq<String>) -> Seq<Seq<char>> {
    v.map_values(|s: String| s@)
}

/// The name of the `k`-th root.
pub fn root_name_of(k: usize) -> (r: &'static str)
    requires
        k < 4,
    ensures
        r@ == root_name(k as int),
{
    if k == 0 {
        "projects"
    } else if k == 1 {
        "areas"
    } else if k == 2 {
        "resources"
    } else {
        "archive"
    }
}

/// Whether `name` is the name of one of the four roots.
pub fn is_root_name_exec(name: &String) -> (r: bool)
    ensures
        r == is_root_name(name@),
{
    let mut k: usize = 0;
    while k < 4
        invariant
            k <= 4,
            forall|j: int| 0 <= j < k ==> name@ != #[trigger] root_name(j),
        decreases 4 - k,
    {
        let n = String::from_str(root_name_of(k));
        if *name == n {
            return true;
        }
        k = k + 1;
    }
    false
}

/// The paths of the four roots under `home`, whether they exist or not.
pub fn get_root_paths(home: &str) -> (r: Vec<String>)
    ensures
        string_views(r@) == root_paths(home@),
{
    let mut r: Vec<String> = Vec::new();
    let mut k: usize = 0;
    while k < 4
        invariant
            k <= 4,
            r@.len() == k,
            forall|j: int| 0 <= j < k ==> (#[trigger] r@[j])@ == root_path(home@, j),
        decreases 4 - k,
    {
        r.push(join_path(home, root_name_of(k)));
        k = k + 1;
    }
    assert(string_views(r@) =~= root_paths(home@));
    r
}

/// `i` is the first of the entries `cs` named `name`.
pub open spec fn first_named(cs: Seq<Entry>, name: Seq<char>, i: int) -> bool {
    0 <= i < cs.len() && cs[i].name@ == name && forall|j: int| 0 <= j < i ==> (#[trigger] cs[j]).name@ != name
}

/// The home directory holds the `k`-th root, and it is a directory.
pub open spec fn has_root(home: Entry, k: int) -> bool {
    exists|i: int| first_named(home.children@, root_name(k), i) && home.children@[i].is_dir
}

/// The home directory holds all four roots as directories.
pub open spec fn roots_readable(home: Entry) -> bool {
    forall|k: int| 0 <= k < 4 ==> #[trigger] has_root(home, k)
}

/// The index among the children of `home` of the `k`-th root.
pub open spec fn root_index(home: Entry, k: int) -> int {
    choose|i: int| first_named(home.children@, root_name(k), i)
}

pub open spec fn root_entry(home: Entry, k: int) -> Entry {
    home.children@[root_index(home, k)]
}

/// The first entry of `cs` named `name`, if any.
pub fn find_named(cs: &Vec<Entry>, name: &String) -> (r: Option<usize>)
    ensures
        r matches Some(i) ==> first_named(cs@, name@, i as int),
        r is None ==> forall|j: int| 0 <= j < cs@.len() ==> (#[trigger] cs@[j]).name@ != name@,
{
    let mut i: usize = 0;
    while i < cs.len()
        invariant
            i <= cs@.len(),
            forall|j: int| 0 <= j < i ==> (#[trigger] cs@[j]).name@ != name@,
        decreases cs@.len() - i,
    {
        if cs[i].name == *name {
            return Some(i);
        }
        i = i + 1;
    }
    None
}

pub proof fn lemma_first_named_unique(cs: Seq<Entry>, name: Seq<char>, i: int, j: int)
    requires
        first_named(cs, name, i),
        first_named(cs, name, j),
    ensures
        i == j,
{
}

/// A module found in the tree: its path, the index of its root among the
/// children of home, and its own index among the children of that root.
pub struct ModuleAt {
    pub path: String,
    pub root: usize,
    pub index: usize,
}

impl View for ModuleAt {
    type V = (Seq<char>, int, int);

    open spec fn view(&self) -> Self::V {
        (self.path@, self.root as int, self.index as int)
    }
}

pub open spec fn module_views(v: Seq<ModuleAt>) -> Seq<(Seq<char>, int, int)> {
    v.map_values(|m: ModuleAt| m@)
}

/// The modules among the first `n` children of the `k`-th root.
pub open spec fn root_modules(home_path: Seq<char>, home: Entry, k: int, n: int) -> Seq<(Seq<char>, int, int)>
    decreases n,
{
    if n <= 0 {
        seq![]
    } else {
        let c = root_entry(home, k).children@[n - 1];
        root_modules(home_path, home, k, n - 1) + if c.is_dir {
            seq![(join(root_path(home_path, k), c.name@), root_index(home, k), n - 1)]
        } else {
            seq![]
        }
    }
}

pub open spec fn all_root_modules(home_path: Seq<char>, home: Entry, k: int) -> Seq<(Seq<char>, int, int)> {
    root_modules(home_path, home, k, root_entry(home, k).children@.len() as int)
}

/// The modules of every root, the roots in their fixed order and the modules
/// of each in the order of its entries.
pub open spec fn modules_of(home_path: Seq<char>, home: Entry) -> Seq<(Seq<char>, int, int)> {
    all_root_modules(home_path, home, 0) + all_root_modules(home_path, home, 1)
        + all_root_modules(home_path, home, 2) + all_root_modules(home_path, home, 3)
}

/// The entry of a module of `home`.
pub open spec fn module_entry(home: Entry, m: (Seq<char>, int, int)) -> Entry {
    home.children@[m.1].children@[m.2]
}

/// A root that cannot be read.
#[derive(Debug, PartialEq, Eq)]
pub enum TreeError {
    UnreadableRoot(String),
}

/// The index among the children of `home` of the `k`-th root, or the root's
/// path where it is missing or no directory.
pub fn root_index_of(home_path: &str, home: &Entry, k: usize) -> (r: Result<usize, String>)
    requires
        k < 4,
    ensures
        r matches Ok(i) ==> has_root(*home, k as int) && i == root_index(*home, k as int),
        r matches Err(p) ==> !has_root(*home, k as int) && p@ == root_path(home_path@, k as int),
{
    let name = String::from_str(root_name_of(k));
    match find_named(&home.children, &name) {
        Some(i) => {
            proof {
                let c = choose|c: int| first_named(home.children@, root_name(k as int), c);
                lemma_first_named_unique(home.children@, root_name(k as int), i as int, c);
            }
            if home.children[i].is_dir {
                Ok(i)
            } else {
                proof {
                    assert forall|j: int| first_named(home.children@, root_name(k as int), j)
                        implies !home.children@[j].is_dir by {
                        lemma_first_named_unique(home.children@, root_name(k as int), i as int, j);
                    }
                }
                Err(join_path(home_path, root_name_of(k)))
            }
        },
        None => Err(join_path(home_path, root_name_of(k))),
    }
}

/// The modules of the `k`-th root, whose index among the children of home is `ri`.
pub fn root_modules_of(home_path: &str, home: &Entry, k: usize, ri: usize) -> (r: Vec<ModuleAt>)
    requires
        k < 4,
        ri < home.children@.len(),
        ri == root_index(*home, k as int),
    ensures
        module_views(r@) == all_root_modules(home_path@, *home, k as int),
{
    let mut out: Vec<ModuleAt> = Vec::new();
    let root = &home.children[ri];
    let rp = join_path(home_path, root_name_of(k));
    let mut n: usize = 0;
    while n < root.children.len()
        invariant
            ri == root_index(*home, k as int),
            ri < home.children@.len(),
            *root == home.children@[ri as int],
            rp@ == root_path(home_path@, k as int),
            n <= root.children@.len(),
            module_views(out@) == root_modules(home_path@, *home, k as int, n as int),
        decreases root.children@.len() - n,
    {
        let c = &root.children[n];
        let ghost before = out@;
        if c.is_dir {
            out.push(ModuleAt { path: join_path(rp.as_str(), c.name.as_str()), root: ri, index: n });
            assert(module_views(out@) =~= module_views(before) + seq![out@.last()@]);
        } else {
            assert(module_views(out@) =~= module_views(before));
        }
        assert(module_views(out@) =~= root_modules(home_path@, *home, k as int, n + 1));
        n = n + 1;
    }
    out
}

/// The modules of the tree `home` found at `home_path`: the directories one
/// level below each root, the roots in their fixed order. A root that is
/// missing or no directory cannot be read and is reported.
pub fn module_list(home_path: &str, home: &Entry) -> (r: Result<Vec<ModuleAt>, TreeError>)
    ensures
        r matches Ok(v) ==> roots_readable(*home) && module_views(v@) == modules_of(home_path@, *home),
        r matches Err(TreeError::UnreadableRoot(p)) ==> exists|k: int|
            0 <= k < 4 && !has_root(*home, k) && p@ == #[trigger] root_path(home_path@, k),
{
    let mut out: Vec<ModuleAt> = Vec::new();
    let mut k: usize = 0;
    while k < 4
        invariant
            k <= 4,
            forall|j: int| 0 <= j < k ==> #[trigger] has_root(*home, j),
            module_views(out@) == if k == 0 {
                Seq::empty()
            } else if k == 1 {
                all_root_modules(home_path@, *home, 0)
            } else if k == 2 {
                all_root_modules(home_path@, *home, 0) + all_root_modules(home_path@, *home, 1)
            } else if k == 3 {
                all_root_modules(home_path@, *home, 0) + all_root_modules(home_path@, *home, 1)
                    + all_root_modules(home_path@, *home, 2)
            } else {
                modules_of(home_path@, *home)
            },
        decreases 4 - k,
    {
        let ri = match root_index_of(home_path, home, k) {
            Ok(i) => i,
            Err(p) => {
                return Err(TreeError::UnreadableRoot(p));
            },
        };
        let more = root_modules_of(home_path, home, k, ri);
        let ghost start = module_views(out@);
        let mut more = more;
        let ghost added = more@;
        out.append(&mut more);
        assert(module_views(out@) =~= start + module_views(added));
        k = k + 1;
    }
    Ok(out)
}

/// The paths of the modules of the tree `home` found at `home_path`, or the
/// root that cannot be read.
pub fn get_module_paths(home_path: &str, home: &Entry) -> (r: Result<Vec<String>, TreeError>)
    ensures
        r matches Ok(v) ==> roots_readable(*home)
            && string_views(v@) == modules_of(home_path@, *home).map_values(|m: (Seq<char>, int, int)| m.0),
        r is Err <==> !roots_readable(*home),
{
    match module_list(home_path, home) {
        Ok(mods) => {
            let mut r: Vec<String> = Vec::new();
            let mut i: usize = 0;
            while i < mods.len()
                invariant
                    i <= mods@.len(),
                    r@.len() == i,
                    forall|j: int| 0 <= j < i ==> (#[trigger] r@[j])@ == mods@[j].path@,
                decreases mods@.len() - i,
            {
                r.push(mods[i].path.clone());
                i = i + 1;
            }
            assert(string_views(r@) =~= module_views(mods@).map_values(|m: (Seq<char>, int, int)| m.0));
            Ok(r)
        },
        Err(e) => Err(e),
    }
}


/// The indices of a module lead to an entry of the tree.
pub open spec fn module_in(home: Entry, m: (Seq<char>, int, int)) -> bool {
    0 <= m.1 < home.children@.len() && 0 <= m.2 < home.children@[m.1].children@.len()
}

/// A module of the `k`-th root: a directory among its children, at the path
/// joined from the root's path and the module's name.
pub open spec fn module_of_root(home_path: Seq<char>, home: Entry, m: (Seq<char>, int, int), k: int) -> bool {
    module_in(home, m) && m.1 == root_index(home, k) && m.0 == join(root_path(home_path, k), module_entry(home, m).name@)
        && module_entry(home, m).is_dir
}

pub proof fn lemma_root_modules_in(home_path: Seq<char>, home: Entry, k: int, n: int)
    requires
        0 <= k < 4,
        has_root(home, k),
        0 <= n <= root_entry(home, k).children@.len(),
    ensures
        forall|j: int| 0 <= j < root_modules(home_path, home, k, n).len()
            ==> module_of_root(home_path, home, #[trigger] root_modules(home_path, home, k, n)[j], k),
    decreases n,
{
    let i = choose|i: int| first_named(home.children@, root_name(k), i) && home.children@[i].is_dir;
    assert(first_named(home.children@, root_name(k), root_index(home, k)));
    if n > 0 {
        lemma_root_modules_in(home_path, home, k, n - 1);
        let prev = root_modules(home_path, home, k, n - 1);
        let all = root_modules(home_path, home, k, n);
        assert forall|j: int| 0 <= j < all.len() implies module_of_root(home_path, home, #[trigger] all[j], k) by {
            if j < prev.len() {
                assert(all[j] == prev[j]);
            }
        }
    }
}

/// Every module of a readable tree is a module of one of the four roots.
pub proof fn lemma_modules_in(home_path: Seq<char>, home: Entry)
    requires
        roots_readable(home),
    ensures
        forall|j: int| 0 <= j < modules_of(home_path, home).len()
            ==> module_in(home, #[trigger] modules_of(home_path, home)[j]),
{
    let a = all_root_modules(home_path, home, 0);
    let b = all_root_modules(home_path, home, 1);
    let c = all_root_modules(home_path, home, 2);
    let d = all_root_modules(home_path, home, 3);
    assert(has_root(home, 0) && has_root(home, 1) && has_root(home, 2) && has_root(home, 3));
    lemma_root_modules_in(home_path, home, 0, root_entry(home, 0).children@.len() as int);
    lemma_root_modules_in(home_path, home, 1, root_entry(home, 1).children@.len() as int);
    lemma_root_modules_in(home_path, home, 2, root_entry(home, 2).children@.len() as int);
    lemma_root_modules_in(home_path, home, 3, root_entry(home, 3).children@.len() as int);
    let all = modules_of(home_path, home);
    assert forall|j: int| 0 <= j < all.len() implies module_in(home, #[trigger] all[j]) by {
        if j < a.len() {
            assert(all[j] == a[j]);
            assert(module_of_root(home_path, home, a[j], 0));
        } else if j < a.len() + b.len() {
            assert(all[j] == b[j - a.len()]);
            assert(module_of_root(home_path, home, b[j - a.len()], 1));
        } else if j < a.len() + b.len() + c.len() {
            assert(all[j] == c[j - a.len() - b.len()]);
            assert(module_of_root(home_path, home, c[j - a.len() - b.len()], 2));
        } else {
            assert(all[j] == d[j - a.len() - b.len() - c.len()]);
            assert(module_of_root(home_path, home, d[j - a.len() - b.len() - c.len()], 3));
        }
    }
}

} // verus!
