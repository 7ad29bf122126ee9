//! Counting names: tags over modules, file extensions over the tree.
use vstd::prelude::*;
use crate::meta::{module_tags, get_module_tags};
use crate::seqs::{flat_map, lemma_flat_map_step, lemma_flat_map_all};
use crate::taxonomy::{string_views, modules_of, module_entry, module_in, module_list, module_views, lemma_modules_in, roots_readable, TreeError};
use crate::text::chars_of;
use crate::paths::string_of_range;
use crate::tree::{Entry, walk, visit_all, visit_views};

verus! {

/// How many times `t` occurs in `s`.
pub open spec fn count_of(s: Seq<Seq<char>>, t: Seq<char>) -> nat
    decreases s.len(),
{
    if s.len() == 0 {
        0
    } else {
        count_of(s.drop_last(), t) + if s.last() == t { 1nat } else { 0nat }
    }
}

/// A count, held at the largest `u32` where it would exceed it.
pub open spec fn capped(n: nat) -> u32 {
    if n > u32::MAX { u32::MAX } else { n as u32 }
}

pub open spec fn count_views(v: Seq<(String, u32)>) -> Seq<(Seq<char>, u32)> {
    v.map_values(|p: (String, u32)| (p.0@, p.1))
}

/// `r` counts the names of `s`: each name of `s` once, in the order of its
/// first occurrence, with the number of its occurrences.
pub open spec fn counts_names(r: Seq<(Seq<char>, u32)>, s: Seq<Seq<char>>) -> bool {
    &&& forall|i: int, j: int| 0 <= i < j < r.len() ==> r[i].0 != r[j].0
    &&& forall|i: int| 0 <= i < r.len() ==> count_of(s, (#[trigger] r[i]).0) > 0 && r[i].1 == capped(count_of(s, r[i].0))
    &&& forall|t: Seq<char>| s.contains(t) ==> exists|i: int| 0 <= i < r.len() && (#[trigger] r[i]).0 == t
}

proof fn lemma_count_absent(s: Seq<Seq<char>>, t: Seq<char>)
    requires
        !s.contains(t),
    ensures
        count_of(s, t) == 0,
    decreases s.len(),
{
    if s.len() > 0 {
        assert(s.last() == s[s.len() - 1]);
        assert(!s.drop_last().contains(t)) by {
            if s.drop_last().contains(t) {
                let k = choose|k: int| 0 <= k < s.drop_last().len() && s.drop_last()[k] == t;
                assert(s[k] == t);
            }
        }
        lemma_count_absent(s.drop_last(), t);
    }
}

/// The index of `x` among `keys`, if it is there.
fn position_of(keys: &Vec<String>, x: &String) -> (r: Option<usize>)
    ensures
        r matches Some(k) ==> k < keys@.len() && keys@[k as int]@ == x@,
        r is None ==> forall|j: int| 0 <= j < keys@.len() ==> (#[trigger] keys@[j])@ != x@,
{
    let mut k: usize = 0;
    while k < keys.len()
        invariant
            k <= keys@.len(),
            forall|j: int| 0 <= j < k ==> (#[trigger] keys@[j])@ != x@,
        decreases keys@.len() - k,
    {
        if keys[k] == *x {
            return Some(k);
        }
        k = k + 1;
    }
    None
}

/// The names of `names`, each once in the order of first occurrence, with the
/// number of its occurrences.
pub fn count_names(names: &Vec<String>) -> (r: Vec<(String, u32)>)
    ensures
        counts_names(count_views(r@), string_views(names@)),
{
    let ghost s = string_views(names@);
    let mut keys: Vec<String> = Vec::new();
    let mut counts: Vec<u32> = Vec::new();
    let mut i: usize = 0;
    while i < names.len()
        invariant
            i <= names@.len(),
            s == string_views(names@),
            keys@.len() == counts@.len(),
            forall|a: int, b: int| 0 <= a < b < keys@.len() ==> keys@[a]@ != keys@[b]@,
            forall|k: int| 0 <= k < keys@.len() ==> count_of(s.take(i as int), (#[trigger] keys@[k])@) > 0
                && counts@[k] == capped(count_of(s.take(i as int), keys@[k]@)),
            forall|t: Seq<char>| s.take(i as int).contains(t) ==> exists|k: int| 0 <= k < keys@.len() && (#[trigger] keys@[k])@ == t,
        decreases names@.len() - i,
    {
        let ghost p = s.take(i as int);
        let ghost q = s.take(i + 1);
        assert(q.drop_last() =~= p);
        assert(q.last() == names@[i as int]@);
        let x = &names[i];
        let found = position_of(&keys, x);
        if let Some(k) = found {
            let c = counts[k];
            let next = if c < u32::MAX { c + 1 } else { c };
            counts.set(k, next);
            assert forall|t: Seq<char>| q.contains(t) implies exists|j: int| 0 <= j < keys@.len() && (#[trigger] keys@[j])@ == t by {
                if t != x@ {
                    let w = choose|w: int| 0 <= w < q.len() && q[w] == t;
                    assert(p[w] == t);
                    assert(p.contains(t));
                }
            }
        } else {
            proof {
                if p.contains(x@) {
                    let j = choose|j: int| 0 <= j < keys@.len() && (#[trigger] keys@[j])@ == x@;
                    assert(keys@[j]@ != x@);
                }
                lemma_count_absent(p, x@);
            }
            let ghost old_keys = keys@;
            keys.push(x.clone());
            counts.push(1);
            assert forall|t: Seq<char>| q.contains(t) implies exists|j: int| 0 <= j < keys@.len() && (#[trigger] keys@[j])@ == t by {
                if t != x@ {
                    let w = choose|w: int| 0 <= w < q.len() && q[w] == t;
                    assert(p[w] == t);
                    assert(p.contains(t));
                    let j = choose|j: int| 0 <= j < old_keys.len() && (#[trigger] old_keys[j])@ == t;
                    assert(keys@[j]@ == t);
                } else {
                    assert(keys@[keys@.len() - 1]@ == t);
                }
            }
        }
        i = i + 1;
    }
    assert(s.take(names@.len() as int) =~= s);
    let mut r: Vec<(String, u32)> = Vec::new();
    let mut j: usize = 0;
    while j < keys.len()
        invariant
            j <= keys@.len(),
            keys@.len() == counts@.len(),
            r@.len() == j,
            forall|a: int| 0 <= a < j ==> (#[trigger] r@[a]).0@ == keys@[a]@ && r@[a].1 == counts@[a],
        decreases keys@.len() - j,
    {
        r.push((keys[j].clone(), counts[j]));
        j = j + 1;
    }
    proof {
        let rv = count_views(r@);
        assert forall|t: Seq<char>| s.contains(t) implies exists|a: int| 0 <= a < rv.len() && (#[trigger] rv[a]).0 == t by {
            let b = choose|b: int| 0 <= b < keys@.len() && (#[trigger] keys@[b])@ == t;
            assert(rv[b].0 == t);
        }
        assert forall|a: int| 0 <= a < rv.len() implies count_of(s, (#[trigger] rv[a]).0) > 0
            && rv[a].1 == capped(count_of(s, rv[a].0)) by {
            assert(rv[a].0 == keys@[a]@);
        }
    }
    r
}

pub open spec fn sorted_by_count(v: Seq<(Seq<char>, u32)>) -> bool {
    forall|i: int, j: int| 0 <= i < j < v.len() ==> v[i].1 >= v[j].1
}

/// Relies on `slice::sort_by`: the same elements come back, ordered by the
/// comparison given, here by count, largest first.
#[verifier::external_body]
fn sort_by_count(v: &mut Vec<(String, u32)>)
    ensures
        count_views(final(v)@).to_multiset() == count_views(old(v)@).to_multiset(),
        sorted_by_count(count_views(final(v)@)),
{
    v.sort_by(|a, b| b.1.cmp(&a.1));
}

/// The same counts, largest first.
pub fn by_count_descending(counts: &Vec<(String, u32)>) -> (r: Vec<(String, u32)>)
    ensures
        count_views(r@).to_multiset() == count_views(counts@).to_multiset(),
        sorted_by_count(count_views(r@)),
{
    let mut r: Vec<(String, u32)> = Vec::new();
    let mut i: usize = 0;
    while i < counts.len()
        invariant
            i <= counts@.len(),
            r@.len() == i,
            forall|j: int| 0 <= j < i ==> (#[trigger] r@[j]).0@ == counts@[j].0@ && r@[j].1 == counts@[j].1,
        decreases counts@.len() - i,
    {
        r.push((counts[i].0.clone(), counts[i].1));
        i = i + 1;
    }
    assert(count_views(r@) =~= count_views(counts@));
    sort_by_count(&mut r);
    r
}

/// The counts of at least `min`, in order.
pub open spec fn at_least_spec(v: Seq<(Seq<char>, u32)>, min: u32) -> Seq<(Seq<char>, u32)> {
    flat_map(v, |p: (Seq<char>, u32)| if p.1 >= min { seq![p] } else { Seq::empty() })
}

/// The counts of at least `min`, in order.
pub fn at_least(counts: &Vec<(String, u32)>, min: u32) -> (r: Vec<(String, u32)>)
    ensures
        count_views(r@) == at_least_spec(count_views(counts@), min),
{
    let ghost s = count_views(counts@);
    let ghost f = |p: (Seq<char>, u32)| if p.1 >= min { seq![p] } else { Seq::<(Seq<char>, u32)>::empty() };
    let mut r: Vec<(String, u32)> = Vec::new();
    let mut i: usize = 0;
    while i < counts.len()
        invariant
            i <= counts@.len(),
            s == count_views(counts@),
            forall|p: (Seq<char>, u32)| #[trigger] f(p) == if p.1 >= min { seq![p] } else { Seq::<(Seq<char>, u32)>::empty() },
            count_views(r@) == flat_map(s.take(i as int), f),
        decreases counts@.len() - i,
    {
        proof {
            lemma_flat_map_step(s, f, i as int);
        }
        let ghost before = r@;
        if counts[i].1 >= min {
            r.push((counts[i].0.clone(), counts[i].1));
        }
        assert(count_views(r@) =~= count_views(before) + f(s[i as int]));
        i = i + 1;
    }
    proof {
        lemma_flat_map_all(s, f);
    }
    r
}

/// Every tag of every module, module by module.
pub open spec fn all_tags(home: Entry, mods: Seq<(Seq<char>, int, int)>) -> Seq<Seq<char>> {
    flat_map(mods, |m: (Seq<char>, int, int)| module_tags(module_entry(home, m)))
}

/// Each tag of the tree once, in the order of first occurrence, with the
/// number of times modules declare it.
pub fn get_all_tags(home_path: &str, home: &Entry) -> (r: Result<Vec<(String, u32)>, TreeError>)
    ensures
        r matches Ok(v) ==> counts_names(count_views(v@), all_tags(*home, modules_of(home_path@, *home))),
        r is Err <==> !roots_readable(*home),
{
    let mods = match module_list(home_path, home) {
        Ok(m) => m,
        Err(e) => {
            return Err(e);
        },
    };
    let ghost ms = module_views(mods@);
    let ghost f = |m: (Seq<char>, int, int)| module_tags(module_entry(*home, m));
    proof {
        lemma_modules_in(home_path@, *home);
    }
    let mut tags: Vec<String> = Vec::new();
    let mut i: usize = 0;
    while i < mods.len()
        invariant
            i <= mods@.len(),
            ms == module_views(mods@),
            ms == modules_of(home_path@, *home),
            forall|j: int| 0 <= j < ms.len() ==> module_in(*home, #[trigger] ms[j]),
            forall|m: (Seq<char>, int, int)| #[trigger] f(m) == module_tags(module_entry(*home, m)),
            string_views(tags@) == flat_map(ms.take(i as int), f),
        decreases mods@.len() - i,
    {
        proof {
            lemma_flat_map_step(ms, f, i as int);
        }
        assert(module_in(*home, ms[i as int]));
        let m = &mods[i];
        let e = &home.children[m.root].children[m.index];
        let mut more = get_module_tags(e);
        let ghost before = tags@;
        let ghost added = more@;
        tags.append(&mut more);
        assert(string_views(tags@) =~= string_views(before) + string_views(added));
        i = i + 1;
    }
    proof {
        lemma_flat_map_all(ms, f);
    }
    Ok(count_names(&tags))
}

/// The index of the last period of a name, or -1 when it has none.
pub open spec fn last_dot(p: Seq<char>) -> int
    decreases p.len(),
{
    if p.len() == 0 {
        -1
    } else if p.last() == '.' {
        p.len() - 1
    } else {
        last_dot(p.drop_last())
    }
}

proof fn lemma_last_dot_bounds(p: Seq<char>)
    ensures
        -1 <= last_dot(p) < p.len(),
    decreases p.len(),
{
    if p.len() > 0 && p.last() != '.' {
        lemma_last_dot_bounds(p.drop_last());
    }
}

/// What a file counts under: the part of its name after the last period,
/// where the name has a period that does not start it; else `none`.
pub open spec fn extension_key(name: Seq<char>) -> Seq<char> {
    if last_dot(name) <= 0 {
        "none"@
    } else {
        name.subrange(last_dot(name) + 1, name.len() as int)
    }
}

/// What a file named `name` counts under.
pub fn extension_of(name: &str) -> (r: String)
    ensures
        r@ == extension_key(name@),
{
    let cs = chars_of(name);
    let mut i: usize = cs.len();
    assert(cs@.subrange(0, i as int) =~= cs@);
    while i > 0
        invariant
            i <= cs@.len(),
            cs@ == name@,
            last_dot(name@) == last_dot(cs@.subrange(0, i as int)),
        decreases i,
    {
        let ghost sub = cs@.subrange(0, i as int);
        if cs[i - 1] == '.' {
            assert(sub.last() == '.');
            if i == 1 {
                return String::from_str("none");
            }
            proof {
                lemma_last_dot_bounds(name@);
            }
            return string_of_range(&cs, i, cs.len());
        }
        assert(sub.drop_last() =~= cs@.subrange(0, i - 1));
        i = i - 1;
    }
    assert(cs@.subrange(0, 0).len() == 0);
    String::from_str("none")
}

/// The keys of the files among the entries of a walk.
pub open spec fn file_keys(seen: Seq<(Seq<char>, Seq<char>, bool, bool)>) -> Seq<Seq<char>> {
    flat_map(seen, |v: (Seq<char>, Seq<char>, bool, bool)| if v.3 { seq![extension_key(v.1)] } else { Seq::empty() })
}

/// What the whole tree holds: its number of entries, and how many files
/// there are of each extension, where at least a given number, largest first.
pub struct Stats {
    pub total: u32,
    pub extensions: Vec<(String, u32)>,
}

/// The statistics of the tree `home` found at `home_path`, for extensions
/// counted at least `min_count` times.
pub fn stats(home_path: &str, home: &Entry, min_count: u32) -> (r: Stats)
    ensures
        r.total == capped(walk(home_path@, *home).len()),
        exists|c: Seq<(Seq<char>, u32)>| counts_names(c, file_keys(walk(home_path@, *home)))
            && count_views(r.extensions@).to_multiset() == #[trigger] at_least_spec(c, min_count).to_multiset(),
        sorted_by_count(count_views(r.extensions@)),
{
    let hp = String::from_str(home_path);
    let seen = visit_all(&hp, home);
    let total: u32 = if seen.len() > 0xFFFF_FFFF { u32::MAX } else { seen.len() as u32 };
    let ghost vs = visit_views(seen@);
    let ghost f = |v: (Seq<char>, Seq<char>, bool, bool)| if v.3 { seq![extension_key(v.1)] } else { Seq::<Seq<char>>::empty() };
    let mut keys: Vec<String> = Vec::new();
    let mut i: usize = 0;
    while i < seen.len()
        invariant
            i <= seen@.len(),
            vs == visit_views(seen@),
            forall|v: (Seq<char>, Seq<char>, bool, bool)| #[trigger] f(v) == if v.3 { seq![extension_key(v.1)] } else { Seq::<Seq<char>>::empty() },
            string_views(keys@) == flat_map(vs.take(i as int), f),
        decreases seen@.len() - i,
    {
        proof {
            lemma_flat_map_step(vs, f, i as int);
        }
        let ghost before = keys@;
        if seen[i].is_file {
            keys.push(extension_of(seen[i].name.as_str()));
        }
        assert(string_views(keys@) =~= string_views(before) + f(vs[i as int]));
        i = i + 1;
    }
    proof {
        lemma_flat_map_all(vs, f);
    }
    let counts = count_names(&keys);
    let kept = at_least(&counts, min_count);
    let extensions = by_count_descending(&kept);
    Stats { total, extensions }
}

} // verus!
