//! Properties that hold of every tree the audit is run on.
use vstd::prelude::*;
use crate::audit::{
    module_violations, disallowed, duplicate_violations, duplicate_row, pair_finding, size_violations,
    root_clutter, module_dir_clutter, root_dir_clutter, name_finding, name_violations, module_findings,
    size_finding, has_child, required_file, audit_of, MAX_MODULE_ENTRIES,
};
use crate::meta::METADATA_FILE;
use crate::seqs::{flat_map, lemma_flat_map_none, lemma_flat_map_from, lemma_flat_map_concat, lemma_flat_map_single};
use crate::taxonomy::{is_root_name, root_entry, module_entry, modules_of};
use crate::text::{has_invalid_name_char, is_invalid_name_char};
use crate::report::at_level;
use crate::tree::{Entry, walk, descendant_count};
use crate::paths::{join, lemma_file_name_of_join};
use crate::violation::{ViolationView, severity, fix_of, command_of, move_line, normalized_name};

verus! {

/// A character of a well-formed module name: a lowercase letter, a digit or
/// an underscore.
pub open spec fn is_plain_name_char(c: char) -> bool {
    ('a' <= c && c <= 'z') || ('0' <= c && c <= '9') || c == '_'
}

/// The missing-file violations among `vs`, in order.
pub open spec fn missing_files(vs: Seq<ViolationView>) -> Seq<ViolationView> {
    of_kind(vs, 3)
}

/// The empty-module violations among `vs`, in order.
pub open spec fn empty_modules(vs: Seq<ViolationView>) -> Seq<ViolationView> {
    of_kind(vs, 5)
}

/// A home tree whose entries are all roots, and whose roots hold nothing but
/// directories, has no clutter, neither under home nor under a root.
pub proof fn lemma_no_clutter(home_path: Seq<char>, home: Entry)
    requires
        forall|i: int| 0 <= i < home.children@.len() ==> is_root_name(#[trigger] home.children@[i].name@),
        forall|k: int, i: int| 0 <= k < 4 && 0 <= i < root_entry(home, k).children@.len()
            ==> (#[trigger] root_entry(home, k).children@[i]).is_dir,
    ensures
        root_clutter(home_path, home).len() == 0,
        module_dir_clutter(home_path, home).len() == 0,
{
    let f = |c: Entry| if is_root_name(c.name@) {
        Seq::<ViolationView>::empty()
    } else {
        seq![ViolationView::RootDirClutter(crate::paths::join(home_path, c.name@))]
    };
    lemma_flat_map_none(home.children@, f);
    assert forall|k: int| 0 <= k < 4 implies #[trigger] root_dir_clutter(home_path, home, k).len() == 0 by {
        let g = |c: Entry| if c.is_dir {
            Seq::<ViolationView>::empty()
        } else {
            seq![ViolationView::ModDirClutter(crate::paths::join(crate::taxonomy::root_path(home_path, k), c.name@))]
        };
        assert forall|i: int| 0 <= i < root_entry(home, k).children@.len() implies
            g(#[trigger] root_entry(home, k).children@[i]).len() == 0 by {
            assert(root_entry(home, k).children@[i].is_dir);
        }
        lemma_flat_map_none(root_entry(home, k).children@, g);
    }
    assert(root_dir_clutter(home_path, home, 0).len() == 0);
    assert(root_dir_clutter(home_path, home, 1).len() == 0);
    assert(root_dir_clutter(home_path, home, 2).len() == 0);
    assert(root_dir_clutter(home_path, home, 3).len() == 0);
}

/// A name made of lowercase letters, digits and underscores is valid; a name
/// holding an uppercase letter, a space, a hyphen or a period is not.
pub proof fn lemma_name_validity(name: Seq<char>)
    ensures
        (forall|i: int| 0 <= i < name.len() ==> is_plain_name_char(#[trigger] name[i])) ==> !has_invalid_name_char(name),
        (exists|i: int| 0 <= i < name.len() && ((#[trigger] name[i] >= 'A' && name[i] <= 'Z') || name[i] == ' '
            || name[i] == '-' || name[i] == '.')) ==> has_invalid_name_char(name),
{
    if forall|i: int| 0 <= i < name.len() ==> is_plain_name_char(#[trigger] name[i]) {
        assert forall|i: int| 0 <= i < name.len() implies !is_invalid_name_char(#[trigger] name[i]) by {
            assert(is_plain_name_char(name[i]));
        }
    }
}

/// The name check reports a module once where its name is invalid, and
/// never otherwise.
pub proof fn lemma_name_check_once(home: Entry, m: (Seq<char>, int, int))
    ensures
        name_violations(home, seq![m]) == if has_invalid_name_char(module_entry(home, m).name@) {
            seq![ViolationView::ModDirName(m.0)]
        } else {
            Seq::empty()
        },
{
    lemma_flat_map_single(m, |m: (Seq<char>, int, int)| name_finding(home, m));
}

proof fn lemma_findings_split(path: Seq<char>, e: Entry)
    ensures
        module_findings(path, e) == (if e.children@.len() == 0 { seq![ViolationView::EmptyModule(path)] } else { Seq::empty() })
            + (if has_child(e, required_file(0)) { Seq::empty() } else {
                seq![ViolationView::ModRequiredFileMissing { file: required_file(0), module: path }]
            }) + (if has_child(e, required_file(1)) { Seq::empty() } else {
                seq![ViolationView::ModRequiredFileMissing { file: required_file(1), module: path }]
            }) + (if crate::meta::module_tags(e).len() == 0 {
                seq![ViolationView::NoTags(crate::paths::join(path, METADATA_FILE@))]
            } else {
                Seq::empty()
            }),
{
}

/// A module missing both required files is reported missing each of them,
/// once each and nothing more.
pub proof fn lemma_missing_both(path: Seq<char>, e: Entry)
    requires
        !has_child(e, required_file(0)),
        !has_child(e, required_file(1)),
    ensures
        missing_files(module_findings(path, e)) == seq![
            ViolationView::ModRequiredFileMissing { file: required_file(0), module: path },
            ViolationView::ModRequiredFileMissing { file: required_file(1), module: path },
        ],
{
    let f = kind_filter(3);
    let a: Seq<ViolationView> = if e.children@.len() == 0 { seq![ViolationView::EmptyModule(path)] } else { Seq::empty() };
    let m0 = ViolationView::ModRequiredFileMissing { file: required_file(0), module: path };
    let m1 = ViolationView::ModRequiredFileMissing { file: required_file(1), module: path };
    let d: Seq<ViolationView> = if crate::meta::module_tags(e).len() == 0 {
        seq![ViolationView::NoTags(crate::paths::join(path, METADATA_FILE@))]
    } else {
        Seq::empty()
    };
    lemma_findings_split(path, e);
    lemma_flat_map_concat(a + seq![m0] + seq![m1], d, f);
    lemma_flat_map_concat(a + seq![m0], seq![m1], f);
    lemma_flat_map_concat(a, seq![m0], f);
    lemma_flat_map_single(m0, f);
    lemma_flat_map_single(m1, f);
    if e.children@.len() == 0 {
        lemma_flat_map_single(ViolationView::EmptyModule(path), f);
    }
    if crate::meta::module_tags(e).len() == 0 {
        lemma_flat_map_single(ViolationView::NoTags(crate::paths::join(path, METADATA_FILE@)), f);
    }
    assert(flat_map(a, f) =~= Seq::<ViolationView>::empty());
    assert(flat_map(d, f) =~= Seq::<ViolationView>::empty());
    assert(missing_files(module_findings(path, e)) =~= seq![m0, m1]);
}

/// An empty module is reported empty once, and still reported missing each
/// required file.
pub proof fn lemma_empty_module(path: Seq<char>, e: Entry)
    requires
        e.children@.len() == 0,
    ensures
        empty_modules(module_findings(path, e)) == seq![ViolationView::EmptyModule(path)],
        missing_files(module_findings(path, e)) == seq![
            ViolationView::ModRequiredFileMissing { file: required_file(0), module: path },
            ViolationView::ModRequiredFileMissing { file: required_file(1), module: path },
        ],
{
    lemma_missing_both(path, e);
    let f = kind_filter(5);
    let e0 = ViolationView::EmptyModule(path);
    let m0 = ViolationView::ModRequiredFileMissing { file: required_file(0), module: path };
    let m1 = ViolationView::ModRequiredFileMissing { file: required_file(1), module: path };
    let d: Seq<ViolationView> = if crate::meta::module_tags(e).len() == 0 {
        seq![ViolationView::NoTags(crate::paths::join(path, METADATA_FILE@))]
    } else {
        Seq::empty()
    };
    lemma_findings_split(path, e);
    lemma_flat_map_concat(seq![e0] + seq![m0] + seq![m1], d, f);
    lemma_flat_map_concat(seq![e0] + seq![m0], seq![m1], f);
    lemma_flat_map_concat(seq![e0], seq![m0], f);
    lemma_flat_map_single(e0, f);
    lemma_flat_map_single(m0, f);
    lemma_flat_map_single(m1, f);
    if crate::meta::module_tags(e).len() == 0 {
        lemma_flat_map_single(ViolationView::NoTags(crate::paths::join(path, METADATA_FILE@)), f);
    }
    assert(flat_map(d, f) =~= Seq::<ViolationView>::empty());
    assert(empty_modules(module_findings(path, e)) =~= seq![e0]);
}

/// A module with exactly the allowed number of entries below it is not
/// oversized; with one entry more it is, and the count it reports is that.
pub proof fn lemma_size_boundary(path: Seq<char>, e: Entry)
    ensures
        descendant_count(path, e) == MAX_MODULE_ENTRIES ==> size_finding(path, e).len() == 0,
        descendant_count(path, e) == MAX_MODULE_ENTRIES + 1 ==> size_finding(path, e)
            == seq![ViolationView::TooManyFiles { module: path, filecount: MAX_MODULE_ENTRIES + 1 }],
{
}

/// At level 1 only clutter, empty modules and duplicates are shown.
pub proof fn lemma_level_one(vs: Seq<ViolationView>, k: int)
    requires
        0 <= k < at_level(vs, 1).len(),
    ensures
        at_level(vs, 1)[k] is RootDirClutter || at_level(vs, 1)[k] is ModDirClutter
            || at_level(vs, 1)[k] is EmptyModule || at_level(vs, 1)[k] is DuplicateModules,
{
    let f = |v: ViolationView| if severity(v) <= 1 { seq![v] } else { Seq::<ViolationView>::empty() };
    lemma_flat_map_from(vs, f, k);
    let i = choose|i: int| 0 <= i < vs.len() && f(vs[i]).contains(#[trigger] flat_map(vs, f)[k]);
    assert(severity(vs[i]) <= 1);
}

/// At level 4 or above every violation is shown, in order.
pub proof fn lemma_level_four(vs: Seq<ViolationView>, level: u32)
    requires
        level >= 4,
    ensures
        at_level(vs, level) == vs,
    decreases vs.len(),
{
    if vs.len() > 0 {
        lemma_level_four(vs.drop_last(), level);
        assert(vs.drop_last() + seq![vs.last()] =~= vs);
    }
}

/// An audit of an unchanged tree reports the same violations each time.
pub proof fn lemma_audit_repeatable(home_path: Seq<char>, home: Entry, first: Seq<ViolationView>, second: Seq<ViolationView>)
    requires
        first == audit_of(home_path, home),
        second == audit_of(home_path, home),
    ensures
        first == second,
        first.to_multiset() == second.to_multiset(),
{
}

/// The rename fix of a module keeps it in its directory and gives it its
/// normalized name: lowercase, with underscores for separators.
pub proof fn lemma_rename_in_place(dir: Seq<char>, name: Seq<char>, home: Seq<char>)
    requires
        forall|k: int| 0 <= k < name.len() ==> name[k] != '/',
    ensures
        command_of(fix_of(ViolationView::ModDirName(join(dir, name))), home)
            == move_line(join(dir, name), join(dir, normalized_name(name))),
{
    lemma_file_name_of_join(dir, name);
    assert(dir + seq!['/'] + normalized_name(name) =~= join(dir, normalized_name(name)));
}

/// The kind of a violation, numbered in the order of the checks' table.
pub open spec fn kind_of(v: ViolationView) -> int {
    match v {
        ViolationView::RootDirClutter(_) => 0,
        ViolationView::ModDirClutter(_) => 1,
        ViolationView::ModDirName(_) => 2,
        ViolationView::ModRequiredFileMissing { .. } => 3,
        ViolationView::DisallowedFile { .. } => 4,
        ViolationView::EmptyModule(_) => 5,
        ViolationView::DuplicateModules(..) => 6,
        ViolationView::TooManyFiles { .. } => 7,
        ViolationView::NoTags(_) => 8,
    }
}

pub open spec fn kind_filter(k: int) -> spec_fn(ViolationView) -> Seq<ViolationView> {
    |v: ViolationView| if kind_of(v) == k { seq![v] } else { Seq::empty() }
}

/// The violations of kind `k` among `vs`, in order.
pub open spec fn of_kind(vs: Seq<ViolationView>, k: int) -> Seq<ViolationView> {
    flat_map(vs, kind_filter(k))
}

proof fn lemma_of_kind_all(vs: Seq<ViolationView>, k: int)
    requires
        forall|i: int| 0 <= i < vs.len() ==> kind_of(#[trigger] vs[i]) == k,
    ensures
        of_kind(vs, k) == vs,
    decreases vs.len(),
{
    if vs.len() > 0 {
        assert forall|i: int| 0 <= i < vs.drop_last().len() implies kind_of(#[trigger] vs.drop_last()[i]) == k by {
            assert(vs.drop_last()[i] == vs[i]);
        }
        lemma_of_kind_all(vs.drop_last(), k);
        assert(kind_of(vs[vs.len() - 1]) == k);
        assert(vs.drop_last() + seq![vs.last()] =~= vs);
    }
}

proof fn lemma_of_kind_none(vs: Seq<ViolationView>, k: int)
    requires
        forall|i: int| 0 <= i < vs.len() ==> kind_of(#[trigger] vs[i]) != k,
    ensures
        of_kind(vs, k) == Seq::<ViolationView>::empty(),
{
    assert forall|i: int| 0 <= i < vs.len() implies (kind_filter(k))(#[trigger] vs[i]).len() == 0 by {
        assert(kind_of(vs[i]) != k);
    }
    lemma_flat_map_none(vs, kind_filter(k));
    assert(of_kind(vs, k) =~= Seq::<ViolationView>::empty());
}

/// Every violation of a flat map has a kind in `ks` where every output of
/// `f` does.
proof fn lemma_flat_map_kinds<A>(s: Seq<A>, f: spec_fn(A) -> Seq<ViolationView>, ks: Set<int>)
    requires
        forall|x: A, i: int| 0 <= i < f(x).len() ==> ks.contains(kind_of(#[trigger] f(x)[i])),
    ensures
        forall|i: int| 0 <= i < flat_map(s, f).len() ==> ks.contains(kind_of(#[trigger] flat_map(s, f)[i])),
{
    assert forall|i: int| 0 <= i < flat_map(s, f).len() implies ks.contains(kind_of(#[trigger] flat_map(s, f)[i])) by {
        lemma_flat_map_from(s, f, i);
        let j = choose|j: int| 0 <= j < s.len() && f(s[j]).contains(#[trigger] flat_map(s, f)[i]);
        let w = choose|w: int| 0 <= w < f(s[j]).len() && #[trigger] f(s[j])[w] == flat_map(s, f)[i];
        assert(ks.contains(kind_of(f(s[j])[w])));
    }
}

proof fn lemma_part_kinds(home_path: Seq<char>, home: Entry)
    ensures
        forall|i: int| 0 <= i < root_clutter(home_path, home).len()
            ==> kind_of(#[trigger] root_clutter(home_path, home)[i]) == 0,
        forall|i: int| 0 <= i < module_dir_clutter(home_path, home).len()
            ==> kind_of(#[trigger] module_dir_clutter(home_path, home)[i]) == 1,
        forall|i: int| 0 <= i < name_violations(home, modules_of(home_path, home)).len()
            ==> kind_of(#[trigger] name_violations(home, modules_of(home_path, home))[i]) == 2,
        forall|i: int| 0 <= i < module_violations(home, modules_of(home_path, home)).len()
            ==> set![3int, 5int, 8int].contains(kind_of(#[trigger] module_violations(home, modules_of(home_path, home))[i])),
        forall|i: int| 0 <= i < disallowed(home_path, home).len()
            ==> kind_of(#[trigger] disallowed(home_path, home)[i]) == 4,
        forall|i: int| 0 <= i < duplicate_violations(home, modules_of(home_path, home)).len()
            ==> kind_of(#[trigger] duplicate_violations(home, modules_of(home_path, home))[i]) == 6,
        forall|i: int| 0 <= i < size_violations(home, modules_of(home_path, home)).len()
            ==> kind_of(#[trigger] size_violations(home, modules_of(home_path, home))[i]) == 7,
{
    let mods = modules_of(home_path, home);
    lemma_flat_map_kinds(home.children@, |c: Entry| if is_root_name(c.name@) {
        Seq::<ViolationView>::empty()
    } else {
        seq![ViolationView::RootDirClutter(join(home_path, c.name@))]
    }, set![0int]);
    assert forall|k: int, i: int| 0 <= k < 4 && 0 <= i < root_dir_clutter(home_path, home, k).len()
        implies kind_of(#[trigger] root_dir_clutter(home_path, home, k)[i]) == 1 by {
        lemma_flat_map_kinds(root_entry(home, k).children@, |c: Entry| if c.is_dir {
            Seq::<ViolationView>::empty()
        } else {
            seq![ViolationView::ModDirClutter(join(crate::taxonomy::root_path(home_path, k), c.name@))]
        }, set![1int]);
    }
    let r0 = root_dir_clutter(home_path, home, 0);
    let r1 = root_dir_clutter(home_path, home, 1);
    let r2 = root_dir_clutter(home_path, home, 2);
    let r3 = root_dir_clutter(home_path, home, 3);
    let mdc = module_dir_clutter(home_path, home);
    assert forall|i: int| 0 <= i < mdc.len() implies kind_of(#[trigger] mdc[i]) == 1 by {
        if i < r0.len() {
            assert(mdc[i] == r0[i]);
        } else if i < r0.len() + r1.len() {
            assert(mdc[i] == r1[i - r0.len()]);
        } else if i < r0.len() + r1.len() + r2.len() {
            assert(mdc[i] == r2[i - r0.len() - r1.len()]);
        } else {
            assert(mdc[i] == r3[i - r0.len() - r1.len() - r2.len()]);
        }
    }
    lemma_flat_map_kinds(mods, |m: (Seq<char>, int, int)| name_finding(home, m), set![2int]);
    lemma_flat_map_kinds(mods, |m: (Seq<char>, int, int)| module_findings(m.0, module_entry(home, m)), set![3int, 5int, 8int]);
    lemma_flat_map_kinds(crate::tree::walk(home_path, home), |v: (Seq<char>, Seq<char>, bool, bool)| if crate::audit::is_denied(v.1) {
        seq![ViolationView::DisallowedFile { path: v.0, is_dir: v.2 }]
    } else {
        Seq::empty()
    }, set![4int]);
    assert forall|x: int, i: int| 0 <= i < duplicate_row(home, mods, x).len()
        implies set![6int].contains(kind_of(#[trigger] duplicate_row(home, mods, x)[i])) by {
        lemma_flat_map_kinds(Seq::new((mods.len() - x) as nat, |d: int| x + d),
            |j: int| pair_finding(home, mods, x, j), set![6int]);
    }
    lemma_flat_map_kinds(Seq::new(mods.len(), |i: int| i), |i: int| duplicate_row(home, mods, i), set![6int]);
    lemma_flat_map_kinds(mods, |m: (Seq<char>, int, int)| size_finding(m.0, module_entry(home, m)), set![7int]);
}

proof fn lemma_of_kind_concat(a: Seq<ViolationView>, b: Seq<ViolationView>, k: int)
    ensures
        of_kind(a + b, k) == of_kind(a, k) + of_kind(b, k),
{
    lemma_flat_map_concat(a, b, kind_filter(k));
}

/// The violations of each kind in a whole audit are exactly those that the
/// check for that kind finds: no other check gives that kind.
pub proof fn lemma_audit_kinds(home_path: Seq<char>, home: Entry)
    ensures
        of_kind(audit_of(home_path, home), 0) == root_clutter(home_path, home),
        of_kind(audit_of(home_path, home), 1) == module_dir_clutter(home_path, home),
        of_kind(audit_of(home_path, home), 2) == name_violations(home, modules_of(home_path, home)),
        of_kind(audit_of(home_path, home), 3) == of_kind(module_violations(home, modules_of(home_path, home)), 3),
        of_kind(audit_of(home_path, home), 5) == of_kind(module_violations(home, modules_of(home_path, home)), 5),
{
    let mods = modules_of(home_path, home);
    let p1 = root_clutter(home_path, home);
    let p2 = module_dir_clutter(home_path, home);
    let p3 = name_violations(home, mods);
    let p4 = module_violations(home, mods);
    let p5 = disallowed(home_path, home);
    let p6 = duplicate_violations(home, mods);
    let p7 = size_violations(home, mods);
    lemma_part_kinds(home_path, home);
    assert forall|k: int| k == 0 || k == 1 || k == 2 || k == 3 || k == 5 implies
        #[trigger] of_kind(audit_of(home_path, home), k)
            == of_kind(p1, k) + of_kind(p2, k) + of_kind(p3, k) + of_kind(p4, k) + of_kind(p5, k)
                + of_kind(p6, k) + of_kind(p7, k) by {
        lemma_of_kind_concat(p1 + p2 + p3 + p4 + p5 + p6, p7, k);
        lemma_of_kind_concat(p1 + p2 + p3 + p4 + p5, p6, k);
        lemma_of_kind_concat(p1 + p2 + p3 + p4, p5, k);
        lemma_of_kind_concat(p1 + p2 + p3, p4, k);
        lemma_of_kind_concat(p1 + p2, p3, k);
        lemma_of_kind_concat(p1, p2, k);
    }
    assert forall|k: int| k == 0 || k == 1 || k == 2 || k == 3 || k == 5 implies
        of_kind(p5, k) == Seq::<ViolationView>::empty() && of_kind(p6, k) == Seq::<ViolationView>::empty()
        && of_kind(p7, k) == Seq::<ViolationView>::empty() by {
        lemma_of_kind_none(p5, k);
        lemma_of_kind_none(p6, k);
        lemma_of_kind_none(p7, k);
    }
    lemma_of_kind_all(p1, 0);
    lemma_of_kind_none(p2, 0);
    lemma_of_kind_none(p3, 0);
    lemma_of_kind_none(p4, 0);
    lemma_of_kind_none(p1, 1);
    lemma_of_kind_all(p2, 1);
    lemma_of_kind_none(p3, 1);
    lemma_of_kind_none(p4, 1);
    lemma_of_kind_none(p1, 2);
    lemma_of_kind_none(p2, 2);
    lemma_of_kind_all(p3, 2);
    lemma_of_kind_none(p4, 2);
    lemma_of_kind_none(p1, 3);
    lemma_of_kind_none(p2, 3);
    lemma_of_kind_none(p3, 3);
    lemma_of_kind_none(p1, 5);
    lemma_of_kind_none(p2, 5);
    lemma_of_kind_none(p3, 5);
    assert(of_kind(audit_of(home_path, home), 0) =~= p1);
    assert(of_kind(audit_of(home_path, home), 1) =~= p2);
    assert(of_kind(audit_of(home_path, home), 2) =~= p3);
    assert(of_kind(audit_of(home_path, home), 3) =~= of_kind(p4, 3));
    assert(of_kind(audit_of(home_path, home), 5) =~= of_kind(p4, 5));
}

/// A home tree whose entries are all roots, and whose roots hold nothing but
/// directories, gives an audit with no clutter of either kind.
pub proof fn lemma_audit_no_clutter(home_path: Seq<char>, home: Entry)
    requires
        forall|i: int| 0 <= i < home.children@.len() ==> is_root_name(#[trigger] home.children@[i].name@),
        forall|k: int, i: int| 0 <= k < 4 && 0 <= i < root_entry(home, k).children@.len()
            ==> (#[trigger] root_entry(home, k).children@[i]).is_dir,
    ensures
        of_kind(audit_of(home_path, home), 0).len() == 0,
        of_kind(audit_of(home_path, home), 1).len() == 0,
{
    lemma_no_clutter(home_path, home);
    lemma_audit_kinds(home_path, home);
}

/// The violations of kind `k` among those of a flat map are, element by
/// element, those among the outputs of `g`.
proof fn lemma_of_kind_flat_map<A>(s: Seq<A>, g: spec_fn(A) -> Seq<ViolationView>, h: spec_fn(A) -> Seq<ViolationView>, k: int)
    requires
        forall|x: A| #[trigger] h(x) == of_kind(g(x), k),
    ensures
        of_kind(flat_map(s, g), k) == flat_map(s, h),
    decreases s.len(),
{
    if s.len() > 0 {
        lemma_of_kind_flat_map(s.drop_last(), g, h, k);
        lemma_of_kind_concat(flat_map(s.drop_last(), g), g(s.last()), k);
    }
}

/// The missing-file violations of an audit are, module by module, the
/// missing files of each module; an empty module's own findings are
/// `lemma_empty_module`'s, one that lacks both files `lemma_missing_both`'s.
pub proof fn lemma_audit_module_findings(home_path: Seq<char>, home: Entry)
    ensures
        missing_files(audit_of(home_path, home)) == flat_map(modules_of(home_path, home),
            |m: (Seq<char>, int, int)| missing_files(module_findings(m.0, module_entry(home, m)))),
        empty_modules(audit_of(home_path, home)) == flat_map(modules_of(home_path, home),
            |m: (Seq<char>, int, int)| empty_modules(module_findings(m.0, module_entry(home, m)))),
{
    let mods = modules_of(home_path, home);
    lemma_audit_kinds(home_path, home);
    lemma_of_kind_flat_map(mods, |m: (Seq<char>, int, int)| module_findings(m.0, module_entry(home, m)),
        |m: (Seq<char>, int, int)| missing_files(module_findings(m.0, module_entry(home, m))), 3);
    lemma_of_kind_flat_map(mods, |m: (Seq<char>, int, int)| module_findings(m.0, module_entry(home, m)),
        |m: (Seq<char>, int, int)| empty_modules(module_findings(m.0, module_entry(home, m))), 5);
}

} // verus!
