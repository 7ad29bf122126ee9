//! A snapshot of a directory tree and the depth-first walk over it.
use vstd::prelude::*;
use crate::paths::{join, join_path};

verus! {

broadcast use vstd::std_specs::vec::group_vec_axioms;

/// One entry of a directory tree: a file, a directory or a symbolic link.
/// `is_dir` tells whether the entry leads to a directory, `is_file` whether
/// it leads to a regular file (through a link too; a dangling link leads to
/// neither); `text` holds the contents of a file where they were read; the
/// children of a directory are listed in `children`.
pub struct Entry {
    pub name: String,
    pub is_dir: bool,
    pub is_file: bool,
    pub is_symlink: bool,
    pub text: Option<String>,
    pub children: Vec<Entry>,
}

/// An entry met by the walk: its path, its name, and whether it leads to a
/// directory or to a regular file.
pub struct Visit {
    pub path: String,
    pub name: String,
    pub is_dir: bool,
    pub is_file: bool,
}

impl View for Visit {
    type V = (Seq<char>, Seq<char>, bool, bool);

    open spec fn view(&self) -> Self::V {
        (self.path@, self.name@, self.is_dir, self.is_file)
    }
}

pub open spec fn visit_views(v: Seq<Visit>) -> Seq<(Seq<char>, Seq<char>, bool, bool)> {
    v.map_values(|x: Visit| x@)
}

/// The walk descends into directories, never through a symbolic link.
pub open spec fn descends(e: Entry) -> bool {
    e.is_dir && !e.is_symlink
}

/// Every entry of the tree at `path`, each once, the children of a
/// directory before the directory itself.
pub open spec fn walk(path: Seq<char>, e: Entry) -> Seq<(Seq<char>, Seq<char>, bool, bool)>
    decreases e, 1int, 0int,
{
    let here = seq![(path, e.name@, e.is_dir, e.is_file)];
    if descends(e) {
        walk_from(path, e, 0) + here
    } else {
        here
    }
}

/// The number of entries below `e`: every entry of its walk but itself.
pub open spec fn descendant_count(path: Seq<char>, e: Entry) -> int {
    walk(path, e).len() - 1
}

/// The walks of the children of `e` from the `i`-th on, one after the other.
pub open spec fn walk_from(path: Seq<char>, e: Entry, i: int) -> Seq<(Seq<char>, Seq<char>, bool, bool)>
    decreases e, 0int, e.children@.len() - i,
{
    if 0 <= i < e.children@.len() {
        let c = e.children@[i];
        walk(join(path, c.name@), c) + walk_from(path, e, i + 1)
    } else {
        seq![]
    }
}

fn walk_into(path: &String, e: &Entry, out: &mut Vec<Visit>)
    ensures
        visit_views(final(out)@) == visit_views(old(out)@) + walk(path@, *e),
    decreases e, 1int, 0int,
{
    if e.is_dir && !e.is_symlink {
        walk_children(path, e, 0, out);
    }
    let v = Visit { path: path.clone(), name: e.name.clone(), is_dir: e.is_dir, is_file: e.is_file };
    let ghost before = out@;
    out.push(v);
    assert(visit_views(out@) =~= visit_views(before) + seq![v@]);
    assert(visit_views(final(out)@) =~= visit_views(old(out)@) + walk(path@, *e));
}

fn walk_children(path: &String, e: &Entry, i: usize, out: &mut Vec<Visit>)
    requires
        i <= e.children@.len(),
    ensures
        visit_views(final(out)@) == visit_views(old(out)@) + walk_from(path@, *e, i as int),
    decreases e, 0int, e.children@.len() - i,
{
    if i < e.children.len() {
        let c = &e.children[i];
        let p = join_path(path.as_str(), c.name.as_str());
        walk_into(&p, c, out);
        walk_children(path, e, i + 1, out);
        assert(visit_views(final(out)@) =~= visit_views(old(out)@) + walk_from(path@, *e, i as int));
    } else {
        assert(visit_views(final(out)@) =~= visit_views(old(out)@) + walk_from(path@, *e, i as int));
    }
}

/// Walks the tree `e` found at `path` and returns every entry of it, each
/// once, the children of a directory before the directory itself. Symbolic
/// links are returned but not followed.
pub fn visit_all(path: &String, e: &Entry) -> (r: Vec<Visit>)
    ensures
        visit_views(r@) == walk(path@, *e),
{
    let mut out: Vec<Visit> = Vec::new();
    walk_into(path, e, &mut out);
    assert(visit_views(Seq::<Visit>::empty()) =~= Seq::empty());
    out
}

} // verus!
