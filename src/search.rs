//! Looking modules up by name, by root and by tag.
use vstd::prelude::*;
use crate::meta::{module_tags, get_module_tags};
use crate::paths::{join, join_path, push_str};
use crate::seqs::{flat_map, lemma_flat_map_step, lemma_flat_map_all};
use crate::taxonomy::{
    is_root_name, is_root_name_exec, root_name, root_name_of, root_index_of, root_modules_of, all_root_modules,
    has_root, modules_of, module_entry, module_in, module_list, module_views, lemma_modules_in, roots_readable,
    string_views, TreeError,
};
use crate::text::{chars_of, jaro_bits, jaro_bits_of};
use crate::tree::Entry;

verus! {

/// The path of the root named `name` under `home`, if `name` names a root.
pub fn find_root(home: &str, name: &str) -> (r: Option<String>)
    ensures
        r is Some <==> is_root_name(name@),
        r matches Some(p) ==> p@ == join(home@, name@),
{
    let n = String::from_str(name);
    if is_root_name_exec(&n) {
        Some(join_path(home, name))
    } else {
        None
    }
}

/// `j` is the first of the modules `mods` named `name`.
pub open spec fn first_module_named(home: Entry, mods: Seq<(Seq<char>, int, int)>, name: Seq<char>, j: int) -> bool {
    0 <= j < mods.len() && module_entry(home, mods[j]).name@ == name
        && forall|i: int| 0 <= i < j ==> module_entry(home, #[trigger] mods[i]).name@ != name
}

/// The path of the first module of the tree named `name`, if any.
pub fn find_module(home_path: &str, home: &Entry, name: &str) -> (r: Result<Option<String>, TreeError>)
    ensures
        r matches Ok(Some(p)) ==> roots_readable(*home) && exists|j: int|
            first_module_named(*home, modules_of(home_path@, *home), name@, j)
            && p@ == (#[trigger] modules_of(home_path@, *home)[j]).0,
        r matches Ok(None) ==> roots_readable(*home) && forall|j: int| 0 <= j < modules_of(home_path@, *home).len()
            ==> module_entry(*home, #[trigger] modules_of(home_path@, *home)[j]).name@ != name@,
        r is Err <==> !roots_readable(*home),
{
    let mods = match module_list(home_path, home) {
        Ok(m) => m,
        Err(e) => {
            return Err(e);
        },
    };
    let ghost ms = module_views(mods@);
    proof {
        lemma_modules_in(home_path@, *home);
    }
    let n = String::from_str(name);
    let mut i: usize = 0;
    while i < mods.len()
        invariant
            i <= mods@.len(),
            n@ == name@,
            roots_readable(*home),
            ms == module_views(mods@),
            ms == modules_of(home_path@, *home),
            forall|j: int| 0 <= j < ms.len() ==> module_in(*home, #[trigger] ms[j]),
            forall|j: int| 0 <= j < i ==> module_entry(*home, #[trigger] ms[j]).name@ != name@,
        decreases mods@.len() - i,
    {
        assert(module_in(*home, ms[i as int]));
        assert(ms[i as int] == mods@[i as int]@);
        let m = &mods[i];
        let e = &home.children[m.root].children[m.index];
        if e.name == n {
            assert(first_module_named(*home, ms, name@, i as int));
            return Ok(Some(m.path.clone()));
        }
        i = i + 1;
    }
    Ok(None)
}

/// The paths of the modules of the root named `root`, in the order of its
/// entries. A name that is not a root's is refused, and so is a root that
/// is missing or no directory.
pub fn list_rooted_modules(home_path: &str, home: &Entry, root: &str) -> (r: Result<Vec<String>, String>)
    ensures
        r is Ok <==> is_root_name(root@) && exists|k: int| 0 <= k < 4 && root_name(k) == root@ && has_root(*home, k),
        r matches Ok(v) ==> exists|k: int| 0 <= k < 4 && root_name(k) == root@
            && string_views(v@) == (#[trigger] all_root_modules(home_path@, *home, k)).map_values(
                |m: (Seq<char>, int, int)| m.0),
{
    let mut k: usize = 0;
    let n = String::from_str(root);
    while k < 4
        invariant
            k <= 4,
            n@ == root@,
            forall|j: int| 0 <= j < k ==> root@ != #[trigger] root_name(j),
        decreases 4 - k,
    {
        if n == String::from_str(root_name_of(k)) {
            proof {
                reveal_strlit("projects");
                reveal_strlit("areas");
                reveal_strlit("resources");
                reveal_strlit("archive");
                assert(root_name(0).len() == 8 && root_name(1).len() == 5);
                assert(root_name(2).len() == 9 && root_name(3).len() == 7);
                assert forall|j: int| 0 <= j < 4 && root_name(j) == root@ implies j == k by {
                    if j != k {
                        assert(root_name(j).len() != root_name(k as int).len());
                    }
                }
            }
            return match root_index_of(home_path, home, k) {
                Ok(ri) => {
                    let mods = root_modules_of(home_path, home, k, ri);
                    let mut r: Vec<String> = Vec::new();
                    let mut i: usize = 0;
                    while i < mods.len()
                        invariant
                            i <= mods@.len(),
                            r@.len() == i,
                            forall|j: int| 0 <= j < i ==> (#[trigger] r@[j])@ == mods@[j].path@,
                        decreases mods@.len() - i,
                    {
                        r.push(mods[i].path.clone());
                        i = i + 1;
                    }
                    assert(string_views(r@) =~= module_views(mods@).map_values(|m: (Seq<char>, int, int)| m.0));
                    Ok(r)
                },
                Err(p) => {
                    let mut msg = String::from_str("unreadable root: ");
                    push_str(&mut msg, p.as_str());
                    Err(msg)
                },
            };
        }
        k = k + 1;
    }
    let mut msg = String::from_str("invalid root: ");
    push_str(&mut msg, root);
    Err(msg)
}

/// Whether `tags` holds `tag`.
fn holds_tag(tags: &Vec<String>, tag: &String) -> (r: bool)
    ensures
        r == string_views(tags@).contains(tag@),
{
    let mut i: usize = 0;
    while i < tags.len()
        invariant
            i <= tags@.len(),
            forall|j: int| 0 <= j < i ==> (#[trigger] tags@[j])@ != tag@,
        decreases tags@.len() - i,
    {
        if tags[i] == *tag {
            assert(string_views(tags@)[i as int] == tag@);
            return true;
        }
        i = i + 1;
    }
    assert forall|j: int| 0 <= j < string_views(tags@).len() implies string_views(tags@)[j] != tag@ by {
        assert(string_views(tags@)[j] == tags@[j]@);
    }
    false
}

/// The modules that carry the tag.
pub open spec fn tagged_modules(home: Entry, mods: Seq<(Seq<char>, int, int)>, tag: Seq<char>) -> Seq<Seq<char>> {
    flat_map(mods, |m: (Seq<char>, int, int)| if module_tags(module_entry(home, m)).contains(tag) {
        seq![m.0]
    } else {
        Seq::empty()
    })
}

/// The paths of the modules whose metadata declares `tag`, in module order.
pub fn search_by_tag(home_path: &str, home: &Entry, tag: &str) -> (r: Result<Vec<String>, TreeError>)
    ensures
        r matches Ok(v) ==> string_views(v@) == tagged_modules(*home, modules_of(home_path@, *home), tag@),
        r is Err <==> !roots_readable(*home),
{
    let mods = match module_list(home_path, home) {
        Ok(m) => m,
        Err(e) => {
            return Err(e);
        },
    };
    let ghost ms = module_views(mods@);
    let ghost f = |m: (Seq<char>, int, int)| if module_tags(module_entry(*home, m)).contains(tag@) {
        seq![m.0]
    } else {
        Seq::<Seq<char>>::empty()
    };
    proof {
        lemma_modules_in(home_path@, *home);
    }
    let t = String::from_str(tag);
    let mut r: Vec<String> = Vec::new();
    let mut i: usize = 0;
    while i < mods.len()
        invariant
            i <= mods@.len(),
            t@ == tag@,
            ms == module_views(mods@),
            ms == modules_of(home_path@, *home),
            forall|j: int| 0 <= j < ms.len() ==> module_in(*home, #[trigger] ms[j]),
            forall|m: (Seq<char>, int, int)| #[trigger] f(m) == if module_tags(module_entry(*home, m)).contains(tag@) {
                seq![m.0]
            } else {
                Seq::<Seq<char>>::empty()
            },
            string_views(r@) == flat_map(ms.take(i as int), f),
        decreases mods@.len() - i,
    {
        proof {
            lemma_flat_map_step(ms, f, i as int);
        }
        assert(module_in(*home, ms[i as int]));
        let m = &mods[i];
        let e = &home.children[m.root].children[m.index];
        let tags = get_module_tags(e);
        let ghost before = r@;
        if holds_tag(&tags, &t) {
            r.push(m.path.clone());
        }
        assert(string_views(r@) =~= string_views(before) + f(ms[i as int]));
        i = i + 1;
    }
    proof {
        lemma_flat_map_all(ms, f);
    }
    Ok(r)
}

/// `t` occurs in `s` at some position.
pub open spec fn occurs_in(s: Seq<char>, t: Seq<char>) -> bool {
    exists|i: int| 0 <= i && i + t.len() <= s.len() && #[trigger] s.subrange(i, i + t.len()) == t
}

/// Whether `t` occurs in `s`.
pub fn contains_text(s: &str, t: &str) -> (r: bool)
    ensures
        r == occurs_in(s@, t@),
{
    let a = chars_of(s);
    let b = chars_of(t);
    if b.len() > a.len() {
        return false;
    }
    let mut i: usize = 0;
    while i <= a.len() - b.len()
        invariant
            a@ == s@,
            b@ == t@,
            b@.len() <= a@.len(),
            i <= a@.len() - b@.len() + 1,
            a@.len() <= usize::MAX,
            forall|k: int| 0 <= k < i ==> #[trigger] a@.subrange(k, k + b@.len()) != b@,
        decreases a@.len() - i,
    {
        let mut j: usize = 0;
        while j < b.len() && a[i + j] == b[j]
            invariant
                i + b@.len() <= a@.len(),
                a@.len() <= usize::MAX,
                j <= b@.len(),
                forall|x: int| 0 <= x < j ==> a@[i + x] == b@[x],
            decreases b@.len() - j,
        {
            j = j + 1;
        }
        if j == b.len() {
            assert(a@.subrange(i as int, i + b@.len()) =~= b@);
            return true;
        }
        assert(a@.subrange(i as int, i + b@.len())[j as int] != b@[j as int]);
        i = i + 1;
    }
    assert forall|k: int| 0 <= k && k + t@.len() <= s@.len() implies #[trigger] s@.subrange(k, k + t@.len()) != t@ by {
        assert(k < i);
    }
    false
}

/// A module hit by a search for `query` by name: its name is more similar to
/// the query than `precision_bits` allows, or holds the query.
pub open spec fn name_hit(name: Seq<char>, query: Seq<char>, precision_bits: u64) -> bool {
    jaro_bits_of(name, query) > precision_bits || occurs_in(name, query)
}

/// The modules hit by name that the tag search did not find already.
pub open spec fn name_hits(home: Entry, mods: Seq<(Seq<char>, int, int)>, tagged: Seq<Seq<char>>, query: Seq<char>, precision_bits: u64) -> Seq<Seq<char>> {
    flat_map(mods, |m: (Seq<char>, int, int)|
        if name_hit(module_entry(home, m).name@, query, precision_bits) && !tagged.contains(m.0) {
            seq![m.0]
        } else {
            Seq::empty()
        })
}

/// The modules that carry the tag `query`, then those whose name is near
/// the query or holds it. The nearness threshold is given as the bits of a
/// non-negative `f64`: Jaro similarities are not negative, and the bits of
/// non-negative doubles are ordered as the doubles are.
pub fn search_modules(home_path: &str, home: &Entry, query: &str, precision_bits: u64) -> (r: Result<Vec<String>, TreeError>)
    ensures
        r matches Ok(v) ==> {
            let mods = modules_of(home_path@, *home);
            let tagged = tagged_modules(*home, mods, query@);
            string_views(v@) == tagged + name_hits(*home, mods, tagged, query@, precision_bits)
        },
        r is Err <==> !roots_readable(*home),
{
    let mut found = match search_by_tag(home_path, home, query) {
        Ok(v) => v,
        Err(e) => {
            return Err(e);
        },
    };
    let mods = match module_list(home_path, home) {
        Ok(m) => m,
        Err(e) => {
            return Err(e);
        },
    };
    let ghost tagged = string_views(found@);
    let ghost ms = module_views(mods@);
    let ghost f = |m: (Seq<char>, int, int)|
        if name_hit(module_entry(*home, m).name@, query@, precision_bits) && !tagged.contains(m.0) {
            seq![m.0]
        } else {
            Seq::<Seq<char>>::empty()
        };
    proof {
        lemma_modules_in(home_path@, *home);
    }
    let mut others: Vec<String> = Vec::new();
    let mut i: usize = 0;
    while i < mods.len()
        invariant
            i <= mods@.len(),
            ms == module_views(mods@),
            ms == modules_of(home_path@, *home),
            tagged == string_views(found@),
            forall|j: int| 0 <= j < ms.len() ==> module_in(*home, #[trigger] ms[j]),
            forall|m: (Seq<char>, int, int)| #[trigger] f(m) ==
                if name_hit(module_entry(*home, m).name@, query@, precision_bits) && !tagged.contains(m.0) {
                    seq![m.0]
                } else {
                    Seq::<Seq<char>>::empty()
                },
            string_views(others@) == flat_map(ms.take(i as int), f),
        decreases mods@.len() - i,
    {
        proof {
            lemma_flat_map_step(ms, f, i as int);
        }
        assert(module_in(*home, ms[i as int]));
        assert(ms[i as int] == mods@[i as int]@);
        let m = &mods[i];
        let e = &home.children[m.root].children[m.index];
        let hit = jaro_bits(e.name.as_str(), query) > precision_bits || contains_text(e.name.as_str(), query);
        let ghost before = others@;
        if hit && !holds_tag(&found, &m.path) {
            others.push(m.path.clone());
        }
        assert(string_views(others@) =~= string_views(before) + f(ms[i as int]));
        i = i + 1;
    }
    proof {
        lemma_flat_map_all(ms, f);
    }
    let ghost others_view = string_views(others@);
    found.append(&mut others);
    assert(string_views(found@) =~= tagged + others_view);
    Ok(found)
}

} // verus!
