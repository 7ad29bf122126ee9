//! Violations of the conventions, their severity, and the fix for each.
use vstd::prelude::*;
use crate::paths::{join, join_path, file_name, dir_prefix, file_name_of, dir_prefix_of, push_str};
use crate::taxonomy::{root_path, root_name_of};
use crate::text::{chars_of, push_char, lower_of, lowercase};

verus! {

/// A deviation from the conventions, with the paths it concerns.
#[derive(Debug, PartialEq, Eq)]
pub enum Violation {
    RootDirClutter(String),
    ModDirClutter(String),
    ModDirName(String),
    ModRequiredFileMissing { file: String, module: String },
    DisallowedFile { path: String, is_dir: bool },
    EmptyModule(String),
    DuplicateModules(String, String),
    TooManyFiles { module: String, filecount: u64 },
    NoTags(String),
}

/// A violation as a mathematical value.
pub enum ViolationView {
    RootDirClutter(Seq<char>),
    ModDirClutter(Seq<char>),
    ModDirName(Seq<char>),
    ModRequiredFileMissing { file: Seq<char>, module: Seq<char> },
    DisallowedFile { path: Seq<char>, is_dir: bool },
    EmptyModule(Seq<char>),
    DuplicateModules(Seq<char>, Seq<char>),
    TooManyFiles { module: Seq<char>, filecount: int },
    NoTags(Seq<char>),
}

impl View for Violation {
    type V = ViolationView;

    open spec fn view(&self) -> ViolationView {
        match self {
            Violation::RootDirClutter(p) => ViolationView::RootDirClutter(p@),
            Violation::ModDirClutter(p) => ViolationView::ModDirClutter(p@),
            Violation::ModDirName(p) => ViolationView::ModDirName(p@),
            Violation::ModRequiredFileMissing { file, module } =>
                ViolationView::ModRequiredFileMissing { file: file@, module: module@ },
            Violation::DisallowedFile { path, is_dir } =>
                ViolationView::DisallowedFile { path: path@, is_dir: *is_dir },
            Violation::EmptyModule(p) => ViolationView::EmptyModule(p@),
            Violation::DuplicateModules(a, b) => ViolationView::DuplicateModules(a@, b@),
            Violation::TooManyFiles { module, filecount } =>
                ViolationView::TooManyFiles { module: module@, filecount: *filecount as int },
            Violation::NoTags(p) => ViolationView::NoTags(p@),
        }
    }
}

pub open spec fn violation_views(v: Seq<Violation>) -> Seq<ViolationView> {
    v.map_values(|x: Violation| x@)
}

/// The severity of a violation: 1 for what is most obviously wrong, up to 4.
pub open spec fn severity(v: ViolationView) -> u32 {
    match v {
        ViolationView::RootDirClutter(_) => 1,
        ViolationView::ModDirClutter(_) => 1,
        ViolationView::ModDirName(_) => 2,
        ViolationView::ModRequiredFileMissing { .. } => 3,
        ViolationView::DisallowedFile { .. } => 2,
        ViolationView::EmptyModule(_) => 1,
        ViolationView::DuplicateModules(..) => 1,
        ViolationView::TooManyFiles { .. } => 3,
        ViolationView::NoTags(_) => 4,
    }
}

/// A proposed corrective action.
#[derive(Debug, PartialEq, Eq)]
pub enum Fix {
    MoveFile(String),
    ModName(String),
    CreateFile { file: String, module: String },
    Delete { path: String, recursive: bool },
    EditFile(String),
    Manual,
}

pub enum FixView {
    MoveFile(Seq<char>),
    ModName(Seq<char>),
    CreateFile { file: Seq<char>, module: Seq<char> },
    Delete { path: Seq<char>, recursive: bool },
    EditFile(Seq<char>),
    Manual,
}

impl View for Fix {
    type V = FixView;

    open spec fn view(&self) -> FixView {
        match self {
            Fix::MoveFile(p) => FixView::MoveFile(p@),
            Fix::ModName(p) => FixView::ModName(p@),
            Fix::CreateFile { file, module } => FixView::CreateFile { file: file@, module: module@ },
            Fix::Delete { path, recursive } => FixView::Delete { path: path@, recursive: *recursive },
            Fix::EditFile(p) => FixView::EditFile(p@),
            Fix::Manual => FixView::Manual,
        }
    }
}

/// The fix proposed for a violation.
pub open spec fn fix_of(v: ViolationView) -> FixView {
    match v {
        ViolationView::RootDirClutter(p) => FixView::MoveFile(p),
        ViolationView::ModDirClutter(p) => FixView::MoveFile(p),
        ViolationView::ModDirName(p) => FixView::ModName(p),
        ViolationView::ModRequiredFileMissing { file, module } => FixView::CreateFile { file, module },
        ViolationView::DisallowedFile { path, is_dir } => FixView::Delete { path, recursive: is_dir },
        ViolationView::EmptyModule(p) => FixView::Delete { path: p, recursive: true },
        ViolationView::NoTags(p) => FixView::EditFile(p),
        ViolationView::DuplicateModules(..) => FixView::Manual,
        ViolationView::TooManyFiles { .. } => FixView::Manual,
    }
}

impl Violation {
    /// The severity of this violation.
    pub fn level(&self) -> (r: u32)
        ensures
            r == severity(self@),
    {
        match self {
            Violation::RootDirClutter(_) => 1,
            Violation::ModDirClutter(_) => 1,
            Violation::ModDirName(_) => 2,
            Violation::ModRequiredFileMissing { .. } => 3,
            Violation::DisallowedFile { .. } => 2,
            Violation::EmptyModule(_) => 1,
            Violation::DuplicateModules(..) => 1,
            Violation::TooManyFiles { .. } => 3,
            Violation::NoTags(..) => 4,
        }
    }

    /// The fix proposed for this violation.
    pub fn fix(self) -> (r: Fix)
        ensures
            r@ == fix_of(self@),
    {
        match self {
            Violation::RootDirClutter(p) => Fix::MoveFile(p),
            Violation::ModDirClutter(p) => Fix::MoveFile(p),
            Violation::ModDirName(p) => Fix::ModName(p),
            Violation::ModRequiredFileMissing { file, module } => Fix::CreateFile { file, module },
            Violation::DisallowedFile { path, is_dir } => Fix::Delete { path, recursive: is_dir },
            Violation::EmptyModule(p) => Fix::Delete { path: p, recursive: true },
            Violation::NoTags(p) => Fix::EditFile(p),
            Violation::DuplicateModules(..) => Fix::Manual,
            Violation::TooManyFiles { .. } => Fix::Manual,
        }
    }
}

/// The directory under the projects root where clutter is moved.
pub const CLUTTER_DIR: &'static str = "CLUTTER";

/// A module name with hyphens, spaces and periods turned into underscores.
pub open spec fn underscored(s: Seq<char>) -> Seq<char> {
    s.map_values(|c: char| if c == '-' || c == ' ' || c == '.' { '_' } else { c })
}

/// The name a module is renamed to.
pub open spec fn normalized_name(name: Seq<char>) -> Seq<char> {
    lower_of(underscored(name))
}

/// `mv "<source>" "<destination>"` on a line of its own.
pub open spec fn move_line(source: Seq<char>, destination: Seq<char>) -> Seq<char> {
    "mv \""@ + source + "\" \""@ + destination + "\"\n"@
}

/// Where clutter at `p` is moved, for the home path `home`.
pub open spec fn clutter_destination(home: Seq<char>, p: Seq<char>) -> Seq<char> {
    join(join(root_path(home, 0), CLUTTER_DIR@), file_name(p))
}

/// The shell command line for a fix, for the home path `home`.
pub open spec fn command_of(f: FixView, home: Seq<char>) -> Seq<char> {
    match f {
        FixView::MoveFile(p) => move_line(p, clutter_destination(home, p)),
        FixView::ModName(p) => move_line(p, dir_prefix(p) + normalized_name(file_name(p))),
        FixView::CreateFile { file, module } => "touch \""@ + join(module, file) + "\"\n"@,
        FixView::Delete { path, recursive } =>
            "rm "@ + (if recursive { "-rf "@ } else { Seq::empty() }) + "\""@ + path + "\"\n"@,
        FixView::EditFile(p) => "vim "@ + p + "\n"@,
        FixView::Manual => Seq::empty(),
    }
}

/// `s` with hyphens, spaces and periods turned into underscores.
pub fn underscore_separators(s: &str) -> (r: String)
    ensures
        r@ == underscored(s@),
{
    let cs = chars_of(s);
    let mut r = String::new();
    let mut i: usize = 0;
    while i < cs.len()
        invariant
            i <= cs@.len(),
            cs@ == s@,
            r@ == underscored(s@).take(i as int),
        decreases cs@.len() - i,
    {
        let c = cs[i];
        let d = if c == '-' || c == ' ' || c == '.' { '_' } else { c };
        push_char(&mut r, d);
        assert(r@ =~= underscored(s@).take(i + 1));
        i = i + 1;
    }
    assert(r@ =~= underscored(s@));
    r
}

/// The command that moves `source` into its own directory under the name
/// `new_name`.
pub fn rename_command(source: &str, new_name: &str) -> (r: String)
    ensures
        r@ == move_line(source@, dir_prefix(source@) + new_name@),
{
    let prefix = dir_prefix_of(source);
    let mut r = String::from_str("mv \"");
    push_str(&mut r, source);
    push_str(&mut r, "\" \"");
    push_str(&mut r, prefix.as_str());
    push_str(&mut r, new_name);
    push_str(&mut r, "\"\n");
    proof {
        reveal_strlit("mv \"");
        reveal_strlit("\" \"");
        reveal_strlit("\"\n");
    }
    assert(r@ =~= move_line(source@, dir_prefix(source@) + new_name@));
    r
}

impl Fix {
    /// The shell command line that carries out this fix, for the home path
    /// `home`; empty where there is nothing to do.
    pub fn command(&self, home: &str) -> (r: String)
        ensures
            r@ == command_of(self@, home@),
    {
        match self {
            Fix::MoveFile(p) => {
                let projects = join_path(home, root_name_of(0));
                let clutter = join_path(projects.as_str(), CLUTTER_DIR);
                let name = file_name_of(p.as_str());
                let destination = join_path(clutter.as_str(), name.as_str());
                let mut r = String::from_str("mv \"");
                push_str(&mut r, p.as_str());
                push_str(&mut r, "\" \"");
                push_str(&mut r, destination.as_str());
                push_str(&mut r, "\"\n");
                proof {
                    reveal_strlit("mv \"");
                    reveal_strlit("\" \"");
                    reveal_strlit("\"\n");
                }
                assert(r@ =~= command_of(self@, home@));
                r
            },
            Fix::ModName(p) => {
                let name = file_name_of(p.as_str());
                let under = underscore_separators(name.as_str());
                let lower = lowercase(under.as_str());
                rename_command(p.as_str(), lower.as_str())
            },
            Fix::CreateFile { file, module } => {
                let target = join_path(module.as_str(), file.as_str());
                let mut r = String::from_str("touch \"");
                push_str(&mut r, target.as_str());
                push_str(&mut r, "\"\n");
                proof {
                    reveal_strlit("touch \"");
                    reveal_strlit("\"\n");
                }
                assert(r@ =~= command_of(self@, home@));
                r
            },
            Fix::Delete { path, recursive } => {
                let mut r = String::from_str("rm ");
                if *recursive {
                    push_str(&mut r, "-rf ");
                }
                push_str(&mut r, "\"");
                push_str(&mut r, path.as_str());
                push_str(&mut r, "\"\n");
                proof {
                    reveal_strlit("rm ");
                    reveal_strlit("-rf ");
                    reveal_strlit("\"");
                    reveal_strlit("\"\n");
                }
                assert(r@ =~= command_of(self@, home@));
                r
            },
            Fix::EditFile(p) => {
                let mut r = String::from_str("vim ");
                push_str(&mut r, p.as_str());
                push_str(&mut r, "\n");
                proof {
                    reveal_strlit("vim ");
                    reveal_strlit("\n");
                }
                assert(r@ =~= command_of(self@, home@));
                r
            },
            Fix::Manual => String::new(),
        }
    }
}

} // verus!
