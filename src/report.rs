//! The violations and fix commands shown for a severity threshold.
use vstd::prelude::*;
use crate::audit::{audit_of, get_violations};
use crate::seqs::{flat_map, lemma_flat_map_step, lemma_flat_map_all};
use crate::taxonomy::{string_views, roots_readable, TreeError};
use crate::laws::{lemma_level_one, lemma_level_four};
use crate::tree::Entry;
use crate::violation::{Violation, ViolationView, violation_views, severity, fix_of, command_of};

verus! {

/// The violations whose severity is at most `level`, in order.
pub open spec fn at_level(vs: Seq<ViolationView>, level: u32) -> Seq<ViolationView> {
    flat_map(vs, |v: ViolationView| if severity(v) <= level { seq![v] } else { Seq::empty() })
}

/// The fix command lines of the violations whose severity is at most `level`.
pub open spec fn fix_lines(vs: Seq<ViolationView>, home: Seq<char>, level: u32) -> Seq<Seq<char>> {
    flat_map(vs, |v: ViolationView| if severity(v) <= level {
        seq![command_of(fix_of(v), home)]
    } else {
        Seq::empty()
    })
}

impl Violation {
    /// A violation equal to this one.
    pub fn copy(&self) -> (r: Violation)
        ensures
            r@ == self@,
    {
        match self {
            Violation::RootDirClutter(p) => Violation::RootDirClutter(p.clone()),
            Violation::ModDirClutter(p) => Violation::ModDirClutter(p.clone()),
            Violation::ModDirName(p) => Violation::ModDirName(p.clone()),
            Violation::ModRequiredFileMissing { file, module } =>
                Violation::ModRequiredFileMissing { file: file.clone(), module: module.clone() },
            Violation::DisallowedFile { path, is_dir } =>
                Violation::DisallowedFile { path: path.clone(), is_dir: *is_dir },
            Violation::EmptyModule(p) => Violation::EmptyModule(p.clone()),
            Violation::DuplicateModules(a, b) => Violation::DuplicateModules(a.clone(), b.clone()),
            Violation::TooManyFiles { module, filecount } =>
                Violation::TooManyFiles { module: module.clone(), filecount: *filecount },
            Violation::NoTags(p) => Violation::NoTags(p.clone()),
        }
    }
}

/// The violations of `vs` whose severity is at most `level`, in order.
pub fn select_level(vs: &Vec<Violation>, level: u32) -> (r: Vec<Violation>)
    ensures
        violation_views(r@) == at_level(violation_views(vs@), level),
{
    let ghost s = violation_views(vs@);
    let ghost f = |v: ViolationView| if severity(v) <= level { seq![v] } else { Seq::<ViolationView>::empty() };
    let mut r: Vec<Violation> = Vec::new();
    let mut i: usize = 0;
    while i < vs.len()
        invariant
            i <= vs@.len(),
            s == violation_views(vs@),
            forall|v: ViolationView| #[trigger] f(v) == if severity(v) <= level { seq![v] } else { Seq::<ViolationView>::empty() },
            violation_views(r@) == flat_map(s.take(i as int), f),
        decreases vs@.len() - i,
    {
        proof {
            lemma_flat_map_step(s, f, i as int);
        }
        let ghost before = r@;
        if vs[i].level() <= level {
            r.push(vs[i].copy());
        }
        assert(violation_views(r@) =~= violation_views(before) + f(s[i as int]));
        i = i + 1;
    }
    proof {
        lemma_flat_map_all(s, f);
    }
    r
}

/// The fix command lines, for the home path `home`, of the violations of `vs`
/// whose severity is at most `level`, in order; a violation with no
/// automatic fix gives an empty line.
pub fn fix_commands(vs: &Vec<Violation>, home: &str, level: u32) -> (r: Vec<String>)
    ensures
        string_views(r@) == fix_lines(violation_views(vs@), home@, level),
{
    let ghost s = violation_views(vs@);
    let ghost f = |v: ViolationView| if severity(v) <= level {
        seq![command_of(fix_of(v), home@)]
    } else {
        Seq::<Seq<char>>::empty()
    };
    let mut r: Vec<String> = Vec::new();
    let mut i: usize = 0;
    while i < vs.len()
        invariant
            i <= vs@.len(),
            s == violation_views(vs@),
            forall|v: ViolationView| #[trigger] f(v) == if severity(v) <= level {
                seq![command_of(fix_of(v), home@)]
            } else {
                Seq::<Seq<char>>::empty()
            },
            string_views(r@) == flat_map(s.take(i as int), f),
        decreases vs@.len() - i,
    {
        proof {
            lemma_flat_map_step(s, f, i as int);
        }
        let ghost before = r@;
        if vs[i].level() <= level {
            let fix = vs[i].copy().fix();
            r.push(fix.command(home));
        }
        assert(string_views(r@) =~= string_views(before) + f(s[i as int]));
        i = i + 1;
    }
    proof {
        lemma_flat_map_all(s, f);
    }
    r
}

/// The fix command lines for the violations of the tree `home` found at
/// `home_path` whose severity is at most `level`.
pub fn propose_fixes(home_path: &str, home: &Entry, level: u32) -> (r: Result<Vec<String>, TreeError>)
    ensures
        r matches Ok(v) ==> string_views(v@) == fix_lines(audit_of(home_path@, *home), home_path@, level),
        r is Err <==> !roots_readable(*home),
{
    match get_violations(home_path, home) {
        Ok(vs) => Ok(fix_commands(&vs, home_path, level)),
        Err(e) => Err(e),
    }
}

/// What an audit shows: the violations whose severity is at most the
/// threshold, and the number of all violations found.
pub struct AuditReport {
    pub shown: Vec<Violation>,
    pub total: usize,
}

/// Audits the tree `home` found at `home_path`: the violations whose severity
/// is at most `level`, and how many violations there are in all.
pub fn audit(home_path: &str, home: &Entry, level: u32) -> (r: Result<AuditReport, TreeError>)
    ensures
        r matches Ok(rep) ==> violation_views(rep.shown@) == at_level(audit_of(home_path@, *home), level)
            && rep.total == audit_of(home_path@, *home).len(),
        r matches Ok(rep) ==> level >= 4 ==> violation_views(rep.shown@) == audit_of(home_path@, *home),
        r matches Ok(rep) ==> level == 1 ==> forall|k: int| 0 <= k < rep.shown@.len() ==> {
            let v = #[trigger] violation_views(rep.shown@)[k];
            v is RootDirClutter || v is ModDirClutter || v is EmptyModule || v is DuplicateModules
        },
        r is Err <==> !roots_readable(*home),
{
    match get_violations(home_path, home) {
        Ok(vs) => {
            let shown = select_level(&vs, level);
            proof {
                if level >= 4 {
                    lemma_level_four(violation_views(vs@), level);
                }
                if level == 1 {
                    assert forall|k: int| 0 <= k < shown@.len() implies {
                        let v = #[trigger] violation_views(shown@)[k];
                        v is RootDirClutter || v is ModDirClutter || v is EmptyModule || v is DuplicateModules
                    } by {
                        lemma_level_one(violation_views(vs@), k);
                    }
                }
            }
            Ok(AuditReport { shown, total: vs.len() })
        },
        Err(e) => Err(e),
    }
}

} // verus!
