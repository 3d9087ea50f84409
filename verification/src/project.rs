//! Projects: the per-directory facts the commands work on, the manifest
//! shapes that name a project, and the decisions made on what the
//! revision-control queries return.
//!
//! Reading manifests, directories and command output happens outside the
//! library; every function here takes those results as plain values.

use vstd::prelude::*;

use crate::cmd::CommandKind;
use crate::cmd::CommandPlus;
use crate::github::GhRepoId;
use crate::outcome::CommandError;
use crate::strutil::ascii_lower;
use crate::strutil::ends_with_str;
use crate::strutil::spec_ascii_lower;
use crate::strutil::spec_ends_with;
use crate::strutil::str_eq;

verus! {

/// The language a project is written in.
#[derive(Clone, Copy, Debug, Eq, PartialEq, Structural)]
pub enum Language {
    Python,
    Rust,
}

impl Language {
    /// The language's source-file extension.
    pub open spec fn spec_ext(self) -> Seq<char> {
        match self {
            Language::Python => "py"@,
            Language::Rust => "rs"@,
        }
    }

    /// The source-file extension used to count lines of code.
    pub fn ext(&self) -> (r: &'static str)
        ensures
            r@ == self.spec_ext(),
    {
        match self {
            Language::Python => "py",
            Language::Rust => "rs",
        }
    }

    /// Reads a language name, case-insensitively: the full name or the
    /// extension.
    pub fn parse(s: &str) -> (r: Result<Language, ParseLanguageError>)
        ensures
            ({
                let l = spec_ascii_lower(s@);
                if l == "python"@ || l == "py"@ {
                    r == Ok::<Language, ParseLanguageError>(Language::Python)
                } else if l == "rust"@ || l == "rs"@ {
                    r == Ok::<Language, ParseLanguageError>(Language::Rust)
                } else {
                    r == Err::<Language, ParseLanguageError>(ParseLanguageError)
                }
            }),
    {
        let l = ascii_lower(s);
        if str_eq(l.as_str(), "python") || str_eq(l.as_str(), "py") {
            Ok(Language::Python)
        } else if str_eq(l.as_str(), "rust") || str_eq(l.as_str(), "rs") {
            Ok(Language::Rust)
        } else {
            Err(ParseLanguageError)
        }
    }
}

/// The name did not denote a supported language.
#[derive(Clone, Copy, Debug, Eq, PartialEq, Structural)]
pub struct ParseLanguageError;

/// One checked-out project: its directory, declared name, language, and
/// what is known of its workspace shape and hosting.
pub struct Project {
    pub dirpath: String,
    pub name: String,
    pub language: Language,
    pub is_workspace: bool,
    pub is_virtual_workspace: bool,
    pub ghrepo: Option<GhRepoId>,
}

impl Project {
    pub fn name(&self) -> (r: &str)
        ensures
            r@ == self.name@,
    {
        self.name.as_str()
    }

    pub fn dirpath(&self) -> (r: &str)
        ensures
            r@ == self.dirpath@,
    {
        self.dirpath.as_str()
    }

    pub fn language(&self) -> (r: Language)
        ensures
            r == self.language,
    {
        self.language
    }

    pub fn is_workspace(&self) -> (r: bool)
        ensures
            r == self.is_workspace,
    {
        self.is_workspace
    }

    pub fn is_virtual_workspace(&self) -> (r: bool)
        ensures
            r == self.is_virtual_workspace,
    {
        self.is_virtual_workspace
    }

    pub fn has_github(&self) -> (r: bool)
        ensures
            r == (self.ghrepo is Some),
    {
        match &self.ghrepo {
            Some(_) => true,
            None => false,
        }
    }

    pub fn ghrepo(&self) -> (r: Option<&GhRepoId>)
        ensures
            match r {
                Some(g) => self.ghrepo matches Some(own) && g == own,
                None => self.ghrepo is None,
            },
    {
        match &self.ghrepo {
            Some(g) => Some(g),
            None => None,
        }
    }

    /// Starts a command that will run in this project's directory.
    pub fn runcmd(&self, cmd: &str) -> (r: CommandPlus)
        ensures
            r.well_formed(),
            r.program@ == cmd@,
            r.args@.len() == 0,
            r.spec_cwd() == Some(self.dirpath@),
            r.kind == CommandKind::Operational,
    {
        let mut c = CommandPlus::new(cmd);
        c.current_dir(self.dirpath.as_str());
        c
    }

    /// The details reported for listings, with the probed branch fact
    /// attached.
    pub fn to_details(&self, on_default_branch: bool) -> (r: ProjectDetails)
        ensures
            r.name@ == self.name@,
            r.dirpath@ == self.dirpath@,
            r.language == self.language,
            r.on_default_branch == on_default_branch,
            r.is_workspace == self.is_workspace,
            r.is_virtual_workspace == self.is_virtual_workspace,
            r.ghrepo is Some <==> self.ghrepo is Some,
            r.ghrepo matches Some(g) ==> (self.ghrepo matches Some(own) && g.owner@ == own.owner@
                && g.name@ == own.name@),
    {
        let ghrepo = match &self.ghrepo {
            Some(g) => Some(GhRepoId { owner: g.owner.clone(), name: g.name.clone() }),
            None => None,
        };
        ProjectDetails {
            name: self.name.clone(),
            dirpath: self.dirpath.clone(),
            language: self.language,
            ghrepo,
            on_default_branch,
            is_workspace: self.is_workspace,
            is_virtual_workspace: self.is_virtual_workspace,
        }
    }
}

/// A project's reported details, one listing line's worth.
pub struct ProjectDetails {
    pub name: String,
    pub dirpath: String,
    pub language: Language,
    pub ghrepo: Option<GhRepoId>,
    pub on_default_branch: bool,
    pub is_workspace: bool,
    pub is_virtual_workspace: bool,
}

/// Whether a branch name is one of the recognized default branch names.
pub fn is_default_branch(name: &str) -> (r: bool)
    ensures
        r == (name@ == "main"@ || name@ == "master"@),
{
    str_eq(name, "main") || str_eq(name, "master")
}

/// Picks the default branch from the branches a repository has: the first
/// recognized name, preferring the modern one.
pub fn choose_default_branch(branches: &Vec<String>) -> (r: Option<&'static str>)
    ensures
        (exists|i: int| 0 <= i < branches@.len() && branches@[i]@ == "main"@) ==> (r matches Some(
            b,
        ) && b@ == "main"@),
        !(exists|i: int| 0 <= i < branches@.len() && branches@[i]@ == "main"@) && (exists|i: int|
            0 <= i < branches@.len() && branches@[i]@ == "master"@) ==> (r matches Some(b) && b@
            == "master"@),
        !(exists|i: int| 0 <= i < branches@.len() && branches@[i]@ == "main"@) && !(exists|i: int|
            0 <= i < branches@.len() && branches@[i]@ == "master"@) ==> r is None,
{
    if crate::strutil::contains_str(branches, "main") {
        Some("main")
    } else if crate::strutil::contains_str(branches, "master") {
        Some("master")
    } else {
        None
    }
}

/// Whether uncommitted changes call for a stash: the porcelain status
/// reported anything at all.
pub fn stash_needed(status_output: &str) -> (r: bool)
    ensures
        r == (status_output@.len() > 0),
{
    status_output.unicode_len() > 0
}

/// Whether the index holds staged changes: the quiet cached diff exits with
/// code one.
pub fn staged_changes_from_code(code: Option<i32>) -> (r: bool)
    ensures
        r == (code == Some(1i32)),
{
    match code {
        Some(c) => c == 1,
        None => false,
    }
}

/// Reads the stash query's result: any output means a stash exists, a
/// reported exit of code one means none does, and everything else is a real
/// failure.
pub fn has_stash_from(r: Result<String, CommandError>) -> (out: Result<bool, CommandError>)
    ensures
        r matches Ok(s) ==> out == Ok::<bool, CommandError>(s@.len() > 0),
        r matches Err(e) ==> {
            if e matches CommandError::Exit { rc, .. } && rc.code == Some(1i32) {
                out == Ok::<bool, CommandError>(false)
            } else {
                out == Err::<bool, CommandError>(e)
            }
        },
{
    match r {
        Ok(s) => Ok(s.as_str().unicode_len() > 0),
        Err(e) => {
            let code_one = match &e {
                CommandError::Exit { rc, .. } => match rc.code {
                    Some(c) => c == 1,
                    None => false,
                },
                _ => false,
            };
            if code_one {
                Ok(false)
            } else {
                Err(e)
            }
        },
    }
}

/// Reads a filter command's result: success means the project is accepted, a
/// reported nonzero exit means it is not, and everything else is a real
/// failure.
pub fn check_from(r: Result<(), CommandError>) -> (out: Result<bool, CommandError>)
    ensures
        r is Ok ==> out == Ok::<bool, CommandError>(true),
        r matches Err(e) ==> {
            if e is Exit {
                out == Ok::<bool, CommandError>(false)
            } else {
                out == Err::<bool, CommandError>(e)
            }
        },
{
    match r {
        Ok(()) => Ok(true),
        Err(e) => if e.is_exit() {
            Ok(false)
        } else {
            Err(e)
        },
    }
}

/// Reads the remote-URL query's result: the reported URL when there is one,
/// nothing when the tool reports exit code two (no such remote), and a real
/// failure otherwise.
pub fn origin_url_from(r: Result<String, CommandError>) -> (out: Result<
    Option<String>,
    CommandError,
>)
    ensures
        r matches Ok(s) ==> (out matches Ok(u) && u matches Some(v) && v == s),
        r matches Err(e) ==> {
            if e matches CommandError::Exit { rc, .. } && rc.code == Some(2i32) {
                out matches Ok(u) && u is None
            } else {
                out == Err::<Option<String>, CommandError>(e)
            }
        },
{
    match r {
        Ok(s) => Ok(Some(s)),
        Err(e) => {
            let code_two = match &e {
                CommandError::Exit { rc, .. } => match rc.code {
                    Some(c) => c == 2,
                    None => false,
                },
                _ => false,
            };
            if code_two {
                Ok(None)
            } else {
                Err(e)
            }
        },
    }
}

/// The name tables a manifest may carry, as the manifest reader found them.
pub struct RawCargo {
    pub package_name: Option<String>,
    pub workspace_repo: Option<GhRepoId>,
}

/// The shape of a Rust manifest: a plain package, a workspace with a root
/// package, or a virtual workspace named by its repository.
pub enum Cargo {
    Package { name: String },
    Workspace { name: String, repo: GhRepoId },
    Virtual { repo: GhRepoId },
}

/// The manifest declared neither a package nor a workspace.
#[derive(Clone, Copy, Debug, Eq, PartialEq, Structural)]
pub struct FromRawCargoError;

impl Cargo {
    /// Classifies a manifest by which tables it carries; one with neither a
    /// package nor a workspace table is rejected.
    pub fn from_raw(value: RawCargo) -> (r: Result<Cargo, FromRawCargoError>)
        ensures
            ({
                match (value.package_name, value.workspace_repo) {
                    (Some(name), None) => r matches Ok(c) && c matches Cargo::Package {
                        name: n,
                    } && n == name,
                    (Some(name), Some(repo)) => r matches Ok(c) && c matches Cargo::Workspace {
                        name: n,
                        repo: w,
                    } && n == name && w == repo,
                    (None, Some(repo)) => r matches Ok(c) && c matches Cargo::Virtual { repo: w }
                        && w == repo,
                    (None, None) => r == Err::<Cargo, FromRawCargoError>(FromRawCargoError),
                }
            }),
    {
        match (value.package_name, value.workspace_repo) {
            (Some(name), None) => Ok(Cargo::Package { name }),
            (Some(name), Some(repo)) => Ok(Cargo::Workspace { name, repo }),
            (None, Some(repo)) => Ok(Cargo::Virtual { repo }),
            (None, None) => Err(FromRawCargoError),
        }
    }

    /// The project name the manifest declares: the package's, or for a
    /// virtual workspace the repository's.
    pub fn name(&self) -> (r: &str)
        ensures
            r@ == self.spec_name(),
    {
        match self {
            Cargo::Workspace { name, .. } => name.as_str(),
            Cargo::Virtual { repo } => repo.name.as_str(),
            Cargo::Package { name } => name.as_str(),
        }
    }

    pub open spec fn spec_name(&self) -> Seq<char> {
        match self {
            Cargo::Workspace { name, .. } => name@,
            Cargo::Virtual { repo } => repo.name@,
            Cargo::Package { name } => name@,
        }
    }

    pub fn is_workspace(&self) -> (r: bool)
        ensures
            r == (self is Workspace || self is Virtual),
    {
        match self {
            Cargo::Workspace { .. } | Cargo::Virtual { .. } => true,
            Cargo::Package { .. } => false,
        }
    }

    pub fn is_virtual_workspace(&self) -> (r: bool)
        ensures
            r == self is Virtual,
    {
        match self {
            Cargo::Virtual { .. } => true,
            _ => false,
        }
    }
}

/// What the manifest reader found in a project directory: a Python project
/// naming itself, or a Rust manifest of one of the three shapes.
pub enum ManifestFacts {
    Pyproject { name: String },
    CargoManifest(Cargo),
}

/// Builds the project a directory holds from its manifest: a Python project
/// is never a workspace; a Rust project takes its name and workspace shape
/// from the manifest.
pub fn project_from_manifest(dirpath: String, ghrepo: Option<GhRepoId>, manifest: ManifestFacts)
    -> (p: Project)
    ensures
        p.dirpath == dirpath,
        p.ghrepo == ghrepo,
        manifest matches ManifestFacts::Pyproject { name } ==> p.name == name && p.language
            == Language::Python && !p.is_workspace && !p.is_virtual_workspace,
        manifest matches ManifestFacts::CargoManifest(c) ==> p.name@ == c.spec_name()
            && p.language == Language::Rust && p.is_workspace == (c is Workspace || c is Virtual)
            && p.is_virtual_workspace == c is Virtual,
{
    match manifest {
        ManifestFacts::Pyproject { name } => Project {
            dirpath,
            name,
            language: Language::Python,
            is_workspace: false,
            is_virtual_workspace: false,
            ghrepo,
        },
        ManifestFacts::CargoManifest(c) => {
            let name = c.name().to_owned();
            let is_workspace = c.is_workspace();
            let is_virtual_workspace = c.is_virtual_workspace();
            Project {
                dirpath,
                name,
                language: Language::Rust,
                is_workspace,
                is_virtual_workspace,
                ghrepo,
            }
        },
    }
}

/// The entries of a directory listing that are Python sources.
pub open spec fn spec_py_entries(entries: Seq<Seq<char>>) -> Seq<Seq<char>>
    decreases entries.len(),
{
    if entries.len() == 0 {
        Seq::<Seq<char>>::empty()
    } else if spec_ends_with(entries[0], ".py"@) {
        seq![entries[0]] + spec_py_entries(entries.drop_first())
    } else {
        spec_py_entries(entries.drop_first())
    }
}

/// The source paths of a Python project: the source directory when the
/// project has one, else its top-level Python files.
pub fn python_source_paths(has_src_dir: bool, entries: &Vec<String>) -> (r: Vec<String>)
    ensures
        has_src_dir ==> r@.map_values(|x: String| x@) == seq!["src"@],
        !has_src_dir ==> r@.map_values(|x: String| x@) == spec_py_entries(
            entries@.map_values(|x: String| x@),
        ),
{
    if has_src_dir {
        let mut out: Vec<String> = Vec::new();
        out.push("src".to_owned());
        proof {
            assert(out@.map_values(|x: String| x@) =~= seq!["src"@]);
        }
        return out;
    }
    let mut out: Vec<String> = Vec::new();
    let mut i: usize = 0;
    let ghost all = entries@.map_values(|x: String| x@);
    let ghost mut done: Seq<Seq<char>> = Seq::<Seq<char>>::empty();
    proof {
        assert(all.skip(0) =~= all);
        assert(done + spec_py_entries(all) =~= spec_py_entries(all));
    }
    while i < entries.len()
        invariant
            all == entries@.map_values(|x: String| x@),
            i <= entries@.len(),
            out@.map_values(|x: String| x@) == done,
            spec_py_entries(all) == done + spec_py_entries(all.skip(i as int)),
        decreases entries@.len() - i,
    {
        proof {
            assert(all.skip(i as int)[0] == all[i as int]);
            assert(all.skip(i as int).drop_first() =~= all.skip(i as int + 1));
        }
        if ends_with_str(entries[i].as_str(), ".py") {
            out.push(entries[i].clone());
            proof {
                done = done.push(all[i as int]);
                assert(out@.map_values(|x: String| x@) =~= done);
                assert(done + spec_py_entries(all.skip(i as int + 1)) =~= spec_py_entries(all));
            }
        }
        i += 1;
    }
    proof {
        assert(all.skip(entries@.len() as int) =~= Seq::<Seq<char>>::empty());
        assert(done + spec_py_entries(all.skip(entries@.len() as int)) =~= done);
    }
    out
}

/// A source-bearing build target had no parent directory for its source
/// path.
#[derive(Clone, Copy, Debug, Eq, PartialEq, Structural)]
pub struct MissingSourceParent;

/// Some source-bearing target's parent is this path.
pub open spec fn parents_have(parents: Seq<Option<String>>, x: Seq<char>) -> bool {
    exists|i: int|
        0 <= i < parents.len() && (match #[trigger] parents[i] {
            Some(p) => p@ == x,
            None => false,
        })
}

/// Some element of `v` reads `x`.
pub open spec fn strings_have(v: Seq<String>, x: Seq<char>) -> bool {
    exists|k: int| 0 <= k < v.len() && (#[trigger] v[k])@ == x
}

/// The distinct source directories of a Rust project's source-bearing
/// targets; fails when a target's source path had no parent.
pub fn rust_source_dirs(parents: &Vec<Option<String>>) -> (r: Result<
    Vec<String>,
    MissingSourceParent,
>)
    ensures
        (r is Ok <==> (forall|i: int| 0 <= i < parents@.len() ==> parents@[i] is Some)),
        r matches Ok(v) ==> {
            &&& forall|a: int, b: int| 0 <= a < b < v@.len() ==> v@[a]@ != v@[b]@
            &&& forall|k: int| 0 <= k < v@.len() ==> parents_have(parents@, (#[trigger] v@[k])@)
            &&& forall|j: int|
                0 <= j < parents@.len() ==> (match #[trigger] parents@[j] {
                    Some(p) => strings_have(v@, p@),
                    None => true,
                })
        },
{
    let mut out: Vec<String> = Vec::new();
    let mut i: usize = 0;
    while i < parents.len()
        invariant
            i <= parents@.len(),
            forall|j: int| 0 <= j < i ==> parents@[j] is Some,
            forall|a: int, b: int| 0 <= a < b < out@.len() ==> out@[a]@ != out@[b]@,
            forall|k: int| 0 <= k < out@.len() ==> parents_have(parents@, (#[trigger] out@[k])@),
            forall|j: int|
                0 <= j < i ==> (match #[trigger] parents@[j] {
                    Some(p) => strings_have(out@, p@),
                    None => true,
                }),
        decreases parents@.len() - i,
    {
        let ghost prev = out@;
        match &parents[i] {
            None => {
                return Err(MissingSourceParent);
            },
            Some(p) => {
                if !crate::strutil::contains_str(&out, p.as_str()) {
                    out.push(p.clone());
                    proof {
                        assert((out@[out@.len() - 1])@ == p@);
                        assert(forall|k: int| 0 <= k < prev.len() ==> out@[k] == prev[k]);
                        assert forall|x: Seq<char>| strings_have(prev, x) implies strings_have(
                            out@,
                            x,
                        ) by {
                            let k = choose|k: int| 0 <= k < prev.len() && (#[trigger] prev[k])@
                                == x;
                            assert((out@[k])@ == x);
                        }
                        assert(strings_have(out@, p@));
                        assert(parents@[i as int] matches Some(q) && q@ == p@);
                        assert(parents_have(parents@, p@));
                    }
                } else {
                    proof {
                        assert(strings_have(out@, p@));
                    }
                }
            },
        }
        i += 1;
    }
    Ok(out)
}

} // verus!
