//! Project selection: the operator's criteria and the acceptance decision.
//!
//! Walking directories and probing repositories happen outside the library;
//! the decision of whether a found project is operated on is made here, on
//! the project's facts and the probes' results.

use vstd::prelude::*;

use crate::project::Language;
use crate::project::Project;
use crate::strutil::contains_str;
use crate::strutil::lemma_str_le_total;
use crate::strutil::lemma_str_le_trans;
use crate::strutil::spec_lines;
use crate::strutil::spec_str_le;
use crate::strutil::split_lines;
use crate::strutil::str_le;

verus! {

/// The operator's selection criteria.  Each opposed pair of switches is
/// mutually exclusive, the argument parser enforcing that no pair is set
/// together.
pub struct Finder {
    pub def_branch: bool,
    pub no_def_branch: bool,
    pub exclude: Vec<String>,
    pub filter: Option<String>,
    pub has_github: bool,
    pub no_github: bool,
    pub has_stash: bool,
    pub no_stash: bool,
    pub language: Option<Language>,
    pub workspace: bool,
    pub not_workspace: bool,
    pub virtual_ws: bool,
    pub not_virtual: bool,
}

/// What an opposed switch pair selects: required, forbidden, or no
/// constraint.
pub open spec fn spec_pair(yes: bool, no: bool) -> Option<bool> {
    if yes {
        Some(true)
    } else if no {
        Some(false)
    } else {
        None
    }
}

impl Finder {
    /// No opposed switch pair is set together.
    pub open spec fn well_formed(&self) -> bool {
        &&& !(self.def_branch && self.no_def_branch)
        &&& !(self.has_github && self.no_github)
        &&& !(self.has_stash && self.no_stash)
        &&& !(self.workspace && self.not_workspace)
        &&& !(self.virtual_ws && self.not_virtual)
    }

    /// The default-branch constraint the switches select.
    pub fn def_branch(&self) -> (r: Option<bool>)
        requires
            self.well_formed(),
        ensures
            r == spec_pair(self.def_branch, self.no_def_branch),
    {
        if self.def_branch {
            Some(true)
        } else if self.no_def_branch {
            Some(false)
        } else {
            None
        }
    }

    /// The hosting constraint the switches select.
    pub fn has_github(&self) -> (r: Option<bool>)
        requires
            self.well_formed(),
        ensures
            r == spec_pair(self.has_github, self.no_github),
    {
        if self.has_github {
            Some(true)
        } else if self.no_github {
            Some(false)
        } else {
            None
        }
    }

    /// The stash constraint the switches select.
    pub fn has_stash(&self) -> (r: Option<bool>)
        requires
            self.well_formed(),
        ensures
            r == spec_pair(self.has_stash, self.no_stash),
    {
        if self.has_stash {
            Some(true)
        } else if self.no_stash {
            Some(false)
        } else {
            None
        }
    }

    /// The workspace constraint the switches select.
    pub fn is_workspace(&self) -> (r: Option<bool>)
        requires
            self.well_formed(),
        ensures
            r == spec_pair(self.workspace, self.not_workspace),
    {
        if self.workspace {
            Some(true)
        } else if self.not_workspace {
            Some(false)
        } else {
            None
        }
    }

    /// The virtual-workspace constraint the switches select.
    pub fn is_virtual(&self) -> (r: Option<bool>)
        requires
            self.well_formed(),
        ensures
            r == spec_pair(self.virtual_ws, self.not_virtual),
    {
        if self.virtual_ws {
            Some(true)
        } else if self.not_virtual {
            Some(false)
        } else {
            None
        }
    }

    /// The acceptance decision, over the project's facts and the probe
    /// results: the project is operated on unless its name is excluded or
    /// some constraint disagrees with the facts.
    pub open spec fn spec_accept(&self, p: &Project, facts: ProbeFacts) -> bool {
        &&& !(exists|i: int| 0 <= i < self.exclude@.len() && self.exclude@[i]@ == p.name@)
        &&& (spec_pair(self.def_branch, self.no_def_branch) matches Some(f)
            ==> facts.on_default_branch == f)
        &&& (spec_pair(self.has_github, self.no_github) matches Some(f) ==> (p.ghrepo is Some)
            == f)
        &&& (spec_pair(self.has_stash, self.no_stash) matches Some(f) ==> facts.has_stash == f)
        &&& (self.language matches Some(l) ==> p.language == l)
        &&& (spec_pair(self.workspace, self.not_workspace) matches Some(f) ==> p.is_workspace
            == f)
        &&& (spec_pair(self.virtual_ws, self.not_virtual) matches Some(f)
            ==> p.is_virtual_workspace == f)
        &&& (self.filter is Some ==> facts.filter_passes)
    }

    /// Decides whether one found project is operated on.
    pub fn accept(&self, p: &Project, facts: &ProbeFacts) -> (r: bool)
        requires
            self.well_formed(),
        ensures
            r == self.spec_accept(p, *facts),
    {
        if contains_str(&self.exclude, p.name()) {
            return false;
        }
        match self.def_branch() {
            Some(f) => {
                if facts.on_default_branch != f {
                    return false;
                }
            },
            None => {},
        }
        match self.has_github() {
            Some(f) => {
                if p.has_github() != f {
                    return false;
                }
            },
            None => {},
        }
        match self.has_stash() {
            Some(f) => {
                if facts.has_stash != f {
                    return false;
                }
            },
            None => {},
        }
        match self.language {
            Some(l) => {
                if !language_eq(p.language(), l) {
                    return false;
                }
            },
            None => {},
        }
        match self.is_workspace() {
            Some(f) => {
                if p.is_workspace() != f {
                    return false;
                }
            },
            None => {},
        }
        match self.is_virtual() {
            Some(f) => {
                if p.is_virtual_workspace() != f {
                    return false;
                }
            },
            None => {},
        }
        match &self.filter {
            Some(_) => {
                if !facts.filter_passes {
                    return false;
                }
            },
            None => {},
        }
        true
    }
}

fn language_eq(a: Language, b: Language) -> (r: bool)
    ensures
        r == (a == b),
{
    match (a, b) {
        (Language::Python, Language::Python) => true,
        (Language::Rust, Language::Rust) => true,
        _ => false,
    }
}

/// What probing one project reported, gathered before the acceptance
/// decision.
#[derive(Clone, Copy, Debug, Eq, PartialEq, Structural)]
pub struct ProbeFacts {
    pub on_default_branch: bool,
    pub has_stash: bool,
    pub filter_passes: bool,
}

/// Reads an ignore file: one project name per line.
pub fn parse_ignore_file(contents: &str) -> (r: Vec<String>)
    ensures
        r@.map_values(|x: String| x@) == spec_lines(contents@),
{
    split_lines(contents)
}

/// Whether a directory entry is even considered: hidden entries and ignored
/// names are skipped.
pub fn entry_candidate(fname: &str, ignored: &Vec<String>) -> (r: bool)
    ensures
        r == (!(fname@.len() > 0 && fname@[0] == '.') && !(exists|i: int|
            0 <= i < ignored@.len() && ignored@[i]@ == fname@)),
{
    let chars = crate::strutil::str_chars(fname);
    if chars.len() > 0 && chars[0] == '.' {
        return false;
    }
    !contains_str(ignored, fname)
}

/// The projects stand in name order.
pub open spec fn names_sorted(s: Seq<Project>) -> bool {
    forall|i: int, j: int| 0 <= i < j < s.len() ==> spec_str_le(s[i].name@, s[j].name@)
}

/// Index of a project whose name precedes every other in the remainder.
fn min_name_index(v: &Vec<Project>) -> (m: usize)
    requires
        v@.len() > 0,
    ensures
        m < v@.len(),
        forall|j: int| 0 <= j < v@.len() ==> spec_str_le(v@[m as int].name@, v@[j].name@),
{
    let mut m: usize = 0;
    let mut j: usize = 1;
    proof {
        lemma_str_le_total(v@[0].name@, v@[0].name@);
    }
    while j < v.len()
        invariant
            v@.len() > 0,
            m < v@.len(),
            1 <= j <= v@.len(),
            forall|k: int| 0 <= k < j ==> spec_str_le(v@[m as int].name@, v@[k].name@),
        decreases v@.len() - j,
    {
        if !str_le(v[m].name.as_str(), v[j].name.as_str()) {
            proof {
                lemma_str_le_total(v@[m as int].name@, v@[j as int].name@);
                assert(spec_str_le(v@[j as int].name@, v@[m as int].name@));
                assert forall|k: int| 0 <= k < j implies spec_str_le(
                    v@[j as int].name@,
                    v@[k].name@,
                ) by {
                    lemma_str_le_trans(v@[j as int].name@, v@[m as int].name@, v@[k].name@);
                }
            }
            m = j;
            proof {
                lemma_str_le_total(v@[m as int].name@, v@[m as int].name@);
            }
        }
        j += 1;
    }
    m
}

/// Sorts the found projects by name: the result is in name order and holds
/// exactly the same projects.
pub fn sort_projects_by_name(input: Vec<Project>) -> (r: Vec<Project>)
    ensures
        names_sorted(r@),
        r@.to_multiset() == input@.to_multiset(),
{
    broadcast use vstd::seq_lib::group_to_multiset_ensures;
    broadcast use vstd::multiset::group_multiset_axioms;

    let ghost whole = input@.to_multiset();
    let mut rest = input;
    let mut out: Vec<Project> = Vec::new();
    proof {
        assert(out@.to_multiset().add(rest@.to_multiset()) =~= whole);
    }
    while rest.len() > 0
        invariant
            names_sorted(out@),
            forall|i: int, j: int|
                0 <= i < out@.len() && 0 <= j < rest@.len() ==> spec_str_le(
                    out@[i].name@,
                    rest@[j].name@,
                ),
            out@.to_multiset().add(rest@.to_multiset()) == whole,
        decreases rest@.len(),
    {
        broadcast use vstd::seq_lib::group_to_multiset_ensures;
        broadcast use vstd::multiset::group_multiset_axioms;

        let m = min_name_index(&rest);
        let ghost old_out = out@;
        let ghost old_rest = rest@;
        let p = rest.remove(m);
        out.push(p);
        proof {
            // order: the removed minimum follows everything placed so far
            // and precedes everything left
            assert(forall|k: int|
                0 <= k < rest@.len() ==> rest@[k] == if k < m {
                    old_rest[k]
                } else {
                    old_rest[k + 1]
                });
            assert(out@ =~= old_out.push(old_rest[m as int]));
            assert forall|i: int, j: int|
                0 <= i < j < out@.len() implies spec_str_le(out@[i].name@, out@[j].name@) by {
                if j < out@.len() - 1 {
                    assert(spec_str_le(old_out[i].name@, old_out[j].name@));
                }
            }
            // the multisets stay in balance: one project moved across
            assert(out@.to_multiset() =~= old_out.to_multiset().insert(old_rest[m as int]));
            assert(rest@.to_multiset() =~= old_rest.to_multiset().remove(old_rest[m as int]));
            assert(old_rest.contains(old_rest[m as int]));
            assert(old_rest.to_multiset().count(old_rest[m as int]) > 0);
            assert(out@.to_multiset().add(rest@.to_multiset()) =~= whole);
        }
    }
    proof {
        assert(rest@.to_multiset().len() == 0);
        assert(out@.to_multiset().add(rest@.to_multiset()) =~= out@.to_multiset());
    }
    out
}

} // verus!
