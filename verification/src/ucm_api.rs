//! The values that UCM's HTTP API is asked for and answers with, and the
//! addresses of its endpoints. Sending the requests is left to the caller.

use crate::decimal::{decimal, push_decimal};
use crate::json::Json;
use crate::text::{append_str, str_eq, string_of};
use crate::ucm_pty::{str_option, text_option};
use vstd::prelude::*;

verus! {

/// A project of the codebase.
#[derive(Debug, Clone)]
pub struct Project {
    pub name: String,
    pub active_branch: Option<String>,
}

/// A branch of a project.
#[derive(Debug, Clone)]
pub struct Branch {
    pub name: String,
    pub project: Option<String>,
}

/// A definition that another one depends on, or that depends on it.
#[derive(Debug, Clone)]
pub struct Definition {
    pub name: String,
    pub hash: Option<String>,
    pub def_type: String,
}

/// An entry of a namespace listing.
#[derive(Debug, Clone)]
pub struct NamespaceItem {
    pub name: String,
    pub item_type: String,
    pub hash: Option<String>,
}

/// A definition found by a search.
#[derive(Debug, Clone)]
pub struct SearchResult {
    pub name: String,
    pub result_type: String,
    pub hash: String,
}

/// Where UCM stands: project, branch and path.
#[derive(Debug, Clone)]
pub struct CurrentContext {
    pub project: Option<Project>,
    pub branch: Option<Branch>,
    pub path: String,
}

/// A piece of source text with the annotation that UCM gave it.
#[derive(Debug)]
pub struct SourceSegment {
    pub segment: String,
    pub annotation: Option<Json>,
}

/// A definition with its source, ready to be shown.
#[derive(Debug)]
pub struct DefinitionSummary {
    pub name: String,
    pub hash: String,
    pub def_type: String,
    pub signature: Option<String>,
    pub source: Option<String>,
    pub segments: Vec<SourceSegment>,
    pub documentation: Option<String>,
    pub doc: Option<Json>,
    pub tag: Option<String>,
}

/// The kinds of entry that a namespace listing holds.
#[derive(Debug, Clone, Copy, PartialEq, Eq, Structural)]
pub enum NamespaceChildKind {
    Subnamespace,
    TermObject,
    TypeObject,
    PatchObject,
}

/// The name under which a kind of entry is told to the editor.
pub open spec fn item_type_of(kind: NamespaceChildKind) -> Seq<char> {
    match kind {
        NamespaceChildKind::Subnamespace => "namespace"@,
        NamespaceChildKind::TermObject => "term"@,
        NamespaceChildKind::TypeObject => "type"@,
        NamespaceChildKind::PatchObject => "patch"@,
    }
}

impl Project {
    /// A project as the API names it, with its active branch where it has
    /// one.
    pub fn from_response(project_name: String, active_branch_ref: Option<String>) -> (r: Project)
        ensures
            r.name@ == project_name@,
            text_option(r.active_branch) == text_option(active_branch_ref),
    {
        Project { name: project_name, active_branch: active_branch_ref }
    }
}

impl Branch {
    /// A branch as the API names it; the project is not told.
    pub fn from_response(branch_name: String) -> (r: Branch)
        ensures
            r.name@ == branch_name@,
            r.project is None,
    {
        Branch { name: branch_name, project: None }
    }
}

impl NamespaceItem {
    /// An entry of a listing, with the name of its kind.
    pub fn from_child(kind: NamespaceChildKind, name: String, hash: String) -> (r: NamespaceItem)
        ensures
            r.name@ == name@,
            r.item_type@ == item_type_of(kind),
            text_option(r.hash) == Some(hash@),
    {
        let item_type = match kind {
            NamespaceChildKind::Subnamespace => "namespace",
            NamespaceChildKind::TermObject => "term",
            NamespaceChildKind::TypeObject => "type",
            NamespaceChildKind::PatchObject => "patch",
        };
        NamespaceItem { name: name, item_type: item_type.to_owned(), hash: Some(hash) }
    }
}

impl SearchResult {
    /// A term found by a search, under its full name.
    pub fn term(full_name: String, full_hash: String) -> (r: SearchResult)
        ensures
            r.name@ == full_name@,
            r.result_type@ == "term"@,
            r.hash@ == full_hash@,
    {
        SearchResult { name: full_name, result_type: "term".to_owned(), hash: full_hash }
    }

    /// A type found by a search, under its full name.
    pub fn type_(full_name: String, full_hash: String) -> (r: SearchResult)
        ensures
            r.name@ == full_name@,
            r.result_type@ == "type"@,
            r.hash@ == full_hash@,
    {
        SearchResult { name: full_name, result_type: "type".to_owned(), hash: full_hash }
    }
}

impl CurrentContext {
    /// The context as the API tells it: project and branch by name only.
    pub fn from_response(project: Option<String>, branch: Option<String>, path: String) -> (r:
        CurrentContext)
        ensures
            r.path@ == path@,
            match r.project {
                Some(p) => project is Some && p.name@ == project->0@ && p.active_branch is None,
                None => project is None,
            },
            match r.branch {
                Some(b) => branch is Some && b.name@ == branch->0@ && b.project is None,
                None => branch is None,
            },
    {
        let project = match project {
            Some(name) => Some(Project { name: name, active_branch: None }),
            None => None,
        };
        let branch = match branch {
            Some(name) => Some(Branch { name: name, project: None }),
            None => None,
        };
        CurrentContext { project: project, branch: branch, path: path }
    }
}

/// The texts of the first `n` signature pieces joined, pieces without text
/// left out.
pub open spec fn signature_of(pieces: Seq<Option<Seq<char>>>, n: int) -> Seq<char>
    decreases n,
{
    if n <= 0 || n > pieces.len() {
        Seq::empty()
    } else {
        match pieces[n - 1] {
            Some(s) => signature_of(pieces, n - 1) + s,
            None => signature_of(pieces, n - 1),
        }
    }
}

/// The signature pieces as plain text.
pub open spec fn pieces_view(v: Seq<Option<String>>) -> Seq<Option<Seq<char>>> {
    Seq::new(v.len(), |i: int| text_option(v[i]))
}

/// The signature of a term: the texts of its pieces in one; none where that
/// is empty.
pub fn signature_text(pieces: &Vec<Option<String>>) -> (r: Option<String>)
    ensures
        match r {
            Some(s) => s@.len() > 0 && s@ == signature_of(
                pieces_view(pieces@),
                pieces.len() as int,
            ),
            None => signature_of(pieces_view(pieces@), pieces.len() as int).len() == 0,
        },
{
    let mut out: Vec<char> = Vec::new();
    let mut i: usize = 0;
    while i < pieces.len()
        invariant
            i <= pieces.len(),
            out@ == signature_of(pieces_view(pieces@), i as int),
        decreases pieces.len() - i,
    {
        assert(pieces_view(pieces@)[i as int] == text_option(pieces@[i as int]));
        match &pieces[i] {
            Some(s) => {
                append_str(&mut out, s.as_str());
            },
            None => {},
        }
        i += 1;
    }
    if out.len() == 0 {
        None
    } else {
        Some(string_of(&out))
    }
}

impl DefinitionSummary {
    /// The summary of a term.
    pub fn term(
        hash: String,
        best_term_name: String,
        segments: Vec<SourceSegment>,
        signature: &Vec<Option<String>>,
        doc: Option<Json>,
        tag: Option<String>,
    ) -> (r: DefinitionSummary)
        ensures
            r.name@ == best_term_name@,
            r.hash@ == hash@,
            r.def_type@ == "term"@,
            r.segments == segments,
            r.source is None,
            r.documentation is None,
            r.doc == doc,
            r.tag == tag,
            match r.signature {
                Some(s) => s@.len() > 0 && s@ == signature_of(
                    pieces_view(signature@),
                    signature.len() as int,
                ),
                None => signature_of(pieces_view(signature@), signature.len() as int).len() == 0,
            },
    {
        DefinitionSummary {
            name: best_term_name,
            hash: hash,
            def_type: "term".to_owned(),
            signature: signature_text(signature),
            source: None,
            segments: segments,
            documentation: None,
            doc: doc,
            tag: tag,
        }
    }

    /// The summary of a type.
    pub fn type_(hash: String, best_full_name: String, segments: Vec<SourceSegment>) -> (r:
        DefinitionSummary)
        ensures
            r.name@ == best_full_name@,
            r.hash@ == hash@,
            r.def_type@ == "type"@,
            r.segments == segments,
            r.signature is None,
            r.source is None,
            r.documentation is None,
            r.doc is None,
            r.tag is None,
    {
        DefinitionSummary {
            name: best_full_name,
            hash: hash,
            def_type: "type".to_owned(),
            signature: None,
            source: None,
            segments: segments,
            documentation: None,
            doc: None,
            tag: None,
        }
    }
}

/// The root of the API that UCM serves on a host and port.
pub open spec fn base_url_of(host: Seq<char>, port: u16) -> Seq<char> {
    "http://"@ + host + ":"@ + decimal(port as nat) + "/codebase/api"@
}

/// The root of everything about one branch.
pub open spec fn branch_url_of(base: Seq<char>, project: Seq<char>, branch: Seq<char>) -> Seq<
    char,
> {
    base + "/projects/"@ + project + "/branches/"@ + branch
}

/// Whether a listing names its namespace: the root, written as nothing or
/// as `.`, is not named.
pub open spec fn names_namespace(namespace: Seq<char>) -> bool {
    namespace.len() > 0 && namespace != "."@
}

/// The addresses of UCM's HTTP API.
#[derive(Debug, Clone)]
pub struct UCMApiClient {
    base_url: String,
}

impl View for UCMApiClient {
    type V = Seq<char>;

    closed spec fn view(&self) -> Seq<char> {
        self.base_url@
    }
}

impl UCMApiClient {
    /// The addresses of the API that UCM serves on a host and port.
    pub fn new(host: &str, port: u16) -> (r: UCMApiClient)
        ensures
            r@ == base_url_of(host@, port),
    {
        let mut out: Vec<char> = Vec::new();
        append_str(&mut out, "http://");
        append_str(&mut out, host);
        append_str(&mut out, ":");
        push_decimal(&mut out, port as u64);
        append_str(&mut out, "/codebase/api");
        assert(out@ =~= base_url_of(host@, port));
        UCMApiClient { base_url: string_of(&out) }
    }

    /// The root of the API.
    pub fn base_url(&self) -> (r: &str)
        ensures
            r@ == self@,
    {
        self.base_url.as_str()
    }

    fn at(&self, tail: &str) -> (r: String)
        ensures
            r@ == self@ + tail@,
    {
        let mut out: Vec<char> = Vec::new();
        append_str(&mut out, self.base_url.as_str());
        append_str(&mut out, tail);
        assert(out@ =~= self@ + tail@);
        string_of(&out)
    }

    fn at_branch(&self, project_name: &str, branch_name: &str, tail: &str) -> (r: String)
        ensures
            r@ == branch_url_of(self@, project_name@, branch_name@) + tail@,
    {
        let mut out: Vec<char> = Vec::new();
        append_str(&mut out, self.base_url.as_str());
        append_str(&mut out, "/projects/");
        append_str(&mut out, project_name);
        append_str(&mut out, "/branches/");
        append_str(&mut out, branch_name);
        append_str(&mut out, tail);
        assert(out@ =~= branch_url_of(self@, project_name@, branch_name@) + tail@);
        string_of(&out)
    }

    /// Where the projects are listed; asking there also shows whether UCM
    /// answers at all.
    pub fn get_projects(&self) -> (r: String)
        ensures
            r@ == self@ + "/projects"@,
    {
        self.at("/projects")
    }

    /// Where UCM is asked whether it answers.
    pub fn check_connection(&self) -> (r: String)
        ensures
            r@ == self@ + "/projects"@,
    {
        self.at("/projects")
    }

    /// Where the branches of a project are listed.
    pub fn get_branches(&self, project_name: &str) -> (r: String)
        ensures
            r@ == self@ + "/projects/"@ + project_name@ + "/branches"@,
    {
        let mut out: Vec<char> = Vec::new();
        append_str(&mut out, self.base_url.as_str());
        append_str(&mut out, "/projects/");
        append_str(&mut out, project_name);
        append_str(&mut out, "/branches");
        assert(out@ =~= self@ + "/projects/"@ + project_name@ + "/branches"@);
        string_of(&out)
    }

    /// Where UCM tells its current project, branch and path.
    pub fn get_current_context(&self) -> (r: String)
        ensures
            r@ == self@ + "/ucm/current"@,
    {
        self.at("/ucm/current")
    }

    /// Where a namespace is listed, and the namespace to name in the query:
    /// none for the root.
    pub fn list_namespace<'a>(&self, project_name: &str, branch_name: &str, namespace: &'a str)
        -> (r: (String, Option<&'a str>))
        ensures
            r.0@ == branch_url_of(self@, project_name@, branch_name@) + "/list"@,
            str_option(r.1) == (if names_namespace(namespace@) {
                Some(namespace@)
            } else {
                None
            }),
    {
        let url = self.at_branch(project_name, branch_name, "/list");
        let named = namespace.unicode_len() > 0 && !str_eq(namespace, ".");
        (url, if named {
            Some(namespace)
        } else {
            None
        })
    }

    /// Where a definition is asked for, and how the query says whether
    /// names in its source are to be shortened.
    pub fn get_definition(
        &self,
        project_name: &str,
        branch_name: &str,
        suffixify_bindings: bool,
    ) -> (r: (String, &'static str))
        ensures
            r.0@ == branch_url_of(self@, project_name@, branch_name@) + "/getDefinition"@,
            r.1@ == (if suffixify_bindings {
                "true"@
            } else {
                "false"@
            }),
    {
        let url = self.at_branch(project_name, branch_name, "/getDefinition");
        (url, if suffixify_bindings {
            "true"
        } else {
            "false"
        })
    }

    /// Where definitions are searched, and the limit as the query writes it.
    pub fn find_definitions(&self, project_name: &str, branch_name: &str, limit: usize) -> (r: (
        String,
        String,
    ))
        ensures
            r.0@ == branch_url_of(self@, project_name@, branch_name@) + "/find"@,
            r.1@ == decimal(limit as nat),
    {
        let url = self.at_branch(project_name, branch_name, "/find");
        (url, string_of(&crate::decimal::decimal_text(limit as u64)))
    }

    /// Where the dependencies of a definition are asked for.
    pub fn get_dependencies(&self, project_name: &str, branch_name: &str) -> (r: String)
        ensures
            r@ == branch_url_of(self@, project_name@, branch_name@)
                + "/getDefinitionDependencies"@,
    {
        self.at_branch(project_name, branch_name, "/getDefinitionDependencies")
    }

    /// Where the dependents of a definition are asked for.
    pub fn get_dependents(&self, project_name: &str, branch_name: &str) -> (r: String)
        ensures
            r@ == branch_url_of(self@, project_name@, branch_name@) + "/getDefinitionDependents"@,
    {
        self.at_branch(project_name, branch_name, "/getDefinitionDependents")
    }
}

} // verus!
