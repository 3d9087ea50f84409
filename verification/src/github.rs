//! Plain-value models of the repository-hosting collaborator's data, and the
//! endpoint URLs the calling commands build.
//!
//! The REST calls themselves are made outside the library; what is verified
//! here is the text handed to them and the decisions made on what they
//! return.

use vstd::prelude::*;

use crate::strutil::spec_nat_string;
use crate::strutil::u64_to_string;

verus! {

/// A repository's coordinates: owner and repository name.
pub struct GhRepoId {
    pub owner: String,
    pub name: String,
}

impl GhRepoId {
    /// The repository's base endpoint.
    pub open spec fn spec_api_url(&self) -> Seq<char> {
        "https://api.github.com/repos/"@ + self.owner@ + "/"@ + self.name@
    }

    /// Builds the repository's base endpoint URL.
    pub fn api_url(&self) -> (r: String)
        ensures
            r@ == self.spec_api_url(),
    {
        let mut out = String::new();
        out.append("https://api.github.com/repos/");
        out.append(self.owner.as_str());
        out.append("/");
        out.append(self.name.as_str());
        proof {
            assert(out@ =~= self.spec_api_url());
        }
        out
    }
}

/// What the hosting service reports of a repository, as far as the commands
/// read it.
pub struct Repository {
    pub id: u64,
    pub name: String,
    pub full_name: String,
    pub url: String,
    pub private_repo: bool,
    pub archived: bool,
}

impl Repository {
    /// A fetched repository's own endpoint is the URL it reports.
    pub fn api_url(&self) -> (r: &str)
        ensures
            r@ == self.url@,
    {
        self.url.as_str()
    }
}

/// The endpoint for opening pull requests under a repository endpoint.
pub fn pulls_url(base: &str) -> (r: String)
    ensures
        r@ == base@ + "/pulls"@,
{
    let mut out = String::new();
    out.append(base);
    out.append("/pulls");
    out
}

/// The endpoint for a repository's labels.
pub fn labels_url(base: &str) -> (r: String)
    ensures
        r@ == base@ + "/labels"@,
{
    let mut out = String::new();
    out.append(base);
    out.append("/labels");
    out
}

/// The endpoint for the labels of one issue or pull request.
pub fn issue_labels_url(base: &str, number: u64) -> (r: String)
    ensures
        r@ == base@ + "/issues/"@ + spec_nat_string(number as int) + "/labels"@,
{
    let mut out = String::new();
    out.append(base);
    out.append("/issues/");
    let digits = u64_to_string(number);
    out.append(digits.as_str());
    out.append("/labels");
    proof {
        assert(out@ =~= base@ + "/issues/"@ + spec_nat_string(number as int) + "/labels"@);
    }
    out
}

/// The payload for opening one pull request.
pub struct CreatePullRequest {
    pub title: String,
    pub head: String,
    pub base: String,
    pub body: Option<String>,
    pub maintainer_can_modify: bool,
}

/// What the hosting service reports of a created pull request.
pub struct PullRequest {
    pub url: String,
    pub html_url: String,
    pub number: u64,
}

/// The payload for creating one label.
pub struct CreateLabel {
    pub name: String,
    pub color: String,
    pub description: Option<String>,
}

/// An HTTP failure response, modeled as plain values: the request, the
/// status line, and the body when one could be read.
pub struct StatusError {
    pub url: String,
    pub method: String,
    pub status: String,
    pub body: Option<String>,
}

impl StatusError {
    /// Assembles the error for a failure response whose parts were already
    /// read: the status text is the code and the reason, space-separated.
    pub fn from_parts(method: &str, url: &str, code: u64, reason: &str, body: Option<String>)
        -> (r: StatusError)
        ensures
            r.method@ == method@,
            r.url@ == url@,
            r.status@ == spec_nat_string(code as int) + " "@ + reason@,
            r.body == body,
    {
        let mut status = u64_to_string(code);
        status.append(" ");
        status.append(reason);
        StatusError { url: url.to_owned(), method: method.to_owned(), status, body }
    }

    /// The response body, when one was read.
    pub fn body(&self) -> (r: Option<&str>)
        ensures
            match r {
                Some(s) => self.body matches Some(b) && b@ == s@,
                None => self.body is None,
            },
    {
        match &self.body {
            Some(b) => Some(b.as_str()),
            None => None,
        }
    }
}

/// Whether a Content-Type names a JSON body: the essence type must be
/// `application`, and either the subtype or the suffix must be `json`.
pub fn is_json_mime(essence_type: &str, subtype: &str, suffix: Option<&str>) -> (r: bool)
    ensures
        r == (essence_type@ == "application"@ && (subtype@ == "json"@ || (
        suffix matches Some(x) && x@ == "json"@))),
{
    if !crate::strutil::str_eq(essence_type, "application") {
        return false;
    }
    if crate::strutil::str_eq(subtype, "json") {
        return true;
    }
    match suffix {
        Some(x) => crate::strutil::str_eq(x, "json"),
        None => false,
    }
}

} // verus!
