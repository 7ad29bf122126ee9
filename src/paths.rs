//! Paths as texts whose components are separated by `/`.
use vstd::prelude::*;
use crate::text::{chars_of, push_char};

verus! {

/// The path of the entry `name` inside the directory `dir`.
pub open spec fn join(dir: Seq<char>, name: Seq<char>) -> Seq<char> {
    dir + seq!['/'] + name
}

/// The index of the last separator of a path, or -1 when it has none.
pub open spec fn last_sep(p: Seq<char>) -> int
    decreases p.len(),
{
    if p.len() == 0 {
        -1
    } else if p.last() == '/' {
        p.len() - 1
    } else {
        last_sep(p.drop_last())
    }
}

/// The last component of a path.
pub open spec fn file_name(p: Seq<char>) -> Seq<char> {
    p.subrange(last_sep(p) + 1, p.len() as int)
}

/// A path up to and including its last separator.
pub open spec fn dir_prefix(p: Seq<char>) -> Seq<char> {
    p.subrange(0, last_sep(p) + 1)
}

pub proof fn lemma_last_sep_bounds(p: Seq<char>)
    ensures
        -1 <= last_sep(p) < p.len(),
        last_sep(p) >= 0 ==> p[last_sep(p)] == '/',
        forall|k: int| last_sep(p) < k < p.len() ==> p[k] != '/',
    decreases p.len(),
{
    if p.len() > 0 && p.last() != '/' {
        lemma_last_sep_bounds(p.drop_last());
        assert forall|k: int| last_sep(p) < k < p.len() implies p[k] != '/' by {
            if k < p.len() - 1 {
                assert(p[k] == p.drop_last()[k]);
            }
        }
    }
}

/// The last component of a path joined from a directory and a name without
/// separators is that name.
pub proof fn lemma_file_name_of_join(dir: Seq<char>, name: Seq<char>)
    requires
        forall|k: int| 0 <= k < name.len() ==> name[k] != '/',
    ensures
        file_name(join(dir, name)) == name,
        dir_prefix(join(dir, name)) == dir + seq!['/'],
{
    let p = join(dir, name);
    lemma_last_sep_bounds(p);
    assert(p[dir.len() as int] == '/');
    assert forall|k: int| dir.len() < k < p.len() implies p[k] != '/' by {
        assert(p[k] == name[k - dir.len() - 1]);
    }
    assert(last_sep(p) == dir.len()) by {
        if last_sep(p) < dir.len() {
            assert(p[dir.len() as int] != '/');
        }
    }
    assert(file_name(p) =~= name);
    assert(dir_prefix(p) =~= dir + seq!['/']);
}

/// Appends a text to a string.
pub(crate) fn push_str(s: &mut String, t: &str)
    ensures
        final(s)@ == old(s)@ + t@,
{
    s.append(t);
}

/// The path of the entry `name` inside the directory `dir`.
pub fn join_path(dir: &str, name: &str) -> (r: String)
    ensures
        r@ == join(dir@, name@),
{
    let mut r = String::from_str(dir);
    r.append("/");
    r.append(name);
    proof {
        reveal_strlit("/");
    }
    r
}

/// The index just past the last separator of a path.
fn after_last_sep(cs: &Vec<char>) -> (r: usize)
    ensures
        r == last_sep(cs@) + 1,
{
    let mut i: usize = cs.len();
    assert(cs@.subrange(0, i as int) =~= cs@);
    while i > 0
        invariant
            i <= cs.len(),
            last_sep(cs@) == last_sep(cs@.subrange(0, i as int)),
        decreases i,
    {
        let ghost sub = cs@.subrange(0, i as int);
        if cs[i - 1] == '/' {
            assert(sub.last() == '/');
            return i;
        }
        assert(sub.drop_last() =~= cs@.subrange(0, i - 1));
        i = i - 1;
    }
    assert(cs@.subrange(0, 0).len() == 0);
    0
}

/// The characters of `cs` from `start` up to `end`, as a string.
pub(crate) fn string_of_range(cs: &Vec<char>, start: usize, end: usize) -> (r: String)
    requires
        start <= end <= cs.len(),
    ensures
        r@ == cs@.subrange(start as int, end as int),
{
    let mut r = String::new();
    let mut i: usize = start;
    while i < end
        invariant
            start <= i <= end <= cs.len(),
            r@ == cs@.subrange(start as int, i as int),
        decreases end - i,
    {
        push_char(&mut r, cs[i]);
        assert(cs@.subrange(start as int, i + 1) =~= cs@.subrange(start as int, i as int).push(cs@[i as int]));
        i = i + 1;
    }
    r
}

/// The last component of a path.
pub fn file_name_of(p: &str) -> (r: String)
    ensures
        r@ == file_name(p@),
{
    let cs = chars_of(p);
    let k = after_last_sep(&cs);
    proof {
        lemma_last_sep_bounds(p@);
    }
    string_of_range(&cs, k, cs.len())
}

/// A path up to and including its last separator.
pub fn dir_prefix_of(p: &str) -> (r: String)
    ensures
        r@ == dir_prefix(p@),
{
    let cs = chars_of(p);
    let k = after_last_sep(&cs);
    proof {
        lemma_last_sep_bounds(p@);
    }
    string_of_range(&cs, 0, k)
}

/// A name with every trailing `.git` taken off.
pub open spec fn strip_git(s: Seq<char>) -> Seq<char>
    decreases s.len(),
{
    if s.len() >= 4 && s.subrange(s.len() - 4, s.len() as int) == ".git"@ {
        strip_git(s.subrange(0, s.len() - 4))
    } else {
        s
    }
}

/// The directory a repository is cloned into: the last component of its URL,
/// with every trailing `.git` taken off.
pub fn repo_dir_name(url: &str) -> (r: String)
    ensures
        r@ == strip_git(file_name(url@)),
{
    let cs = chars_of(url);
    let start = after_last_sep(&cs);
    proof {
        lemma_last_sep_bounds(url@);
        reveal_strlit(".git");
    }
    let mut end: usize = cs.len();
    assert(cs@.subrange(start as int, end as int) =~= file_name(url@));
    while end - start >= 4 && cs[end - 4] == '.' && cs[end - 3] == 'g' && cs[end - 2] == 'i' && cs[end - 1] == 't'
        invariant
            start <= end <= cs@.len(),
            cs@ == url@,
            strip_git(cs@.subrange(start as int, end as int)) == strip_git(file_name(url@)),
        decreases end,
    {
        let ghost w = cs@.subrange(start as int, end as int);
        proof {
            reveal_strlit(".git");
        }
        assert(w.subrange(w.len() - 4, w.len() as int) =~= ".git"@);
        assert(w.subrange(0, w.len() - 4) =~= cs@.subrange(start as int, end - 4));
        end = end - 4;
    }
    proof {
        reveal_strlit(".git");
        let w = cs@.subrange(start as int, end as int);
        if w.len() >= 4 {
            assert(w.subrange(w.len() - 4, w.len() as int) != ".git"@) by {
                if w.subrange(w.len() - 4, w.len() as int) == ".git"@ {
                    assert(w.subrange(w.len() - 4, w.len() as int)[0] == '.');
                    assert(w.subrange(w.len() - 4, w.len() as int)[1] == 'g');
                    assert(w.subrange(w.len() - 4, w.len() as int)[2] == 'i');
                    assert(w.subrange(w.len() - 4, w.len() as int)[3] == 't');
                }
            }
        }
    }
    string_of_range(&cs, start, end)
}

} // verus!
