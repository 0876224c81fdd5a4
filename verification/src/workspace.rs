//! Runtime workspace type: the root of an agent's filesystem access scope.

use vstd::prelude::*;

use crate::error::{Error, ErrorView};
use crate::path::{is_absolute, is_within, path_parts, path_within, same_path, starts_at_root};

verus! {

/// The root directory of an agent's isolated workspace: an absolute path with
/// symbolic links resolved. Two are the same where their roots have the same
/// components.
#[derive(Debug, Eq)]
pub struct Workspace {
    root: String,
}

impl View for Workspace {
    type V = Seq<char>;

    closed spec fn view(&self) -> Seq<char> {
        self.root@
    }
}

impl PartialEq for Workspace {
    fn eq(&self, other: &Self) -> (r: bool) {
        same_path(self.root.as_str(), other.root.as_str())
    }
}

impl vstd::std_specs::cmp::PartialEqSpecImpl for Workspace {
    open spec fn obeys_eq_spec() -> bool {
        true
    }

    open spec fn eq_spec(&self, other: &Self) -> bool {
        path_parts(self@) == path_parts(other@)
    }
}

impl Clone for Workspace {
    fn clone(&self) -> (r: Self)
        ensures
            r == *self,
    {
        Workspace { root: self.root.clone() }
    }
}

/// The root of the workspace that a path makes, for which resolving symbolic
/// links gave `canonical`: the resolved path, or why it could not be resolved.
pub open spec fn workspace_outcome(path: Seq<char>, canonical: Result<String, String>) -> Result<
    Seq<char>,
    ErrorView,
> {
    match canonical {
        Ok(resolved) => if is_absolute(resolved@) {
            Ok(resolved@)
        } else {
            Err(
                ErrorView::InvalidWorkspace {
                    path,
                    reason: "canonicalized path is not absolute"@,
                },
            )
        },
        Err(reason) => Err(ErrorView::InvalidWorkspace { path, reason: reason@ }),
    }
}

impl Workspace {
    /// Make a workspace of `path`, for which resolving symbolic links gave
    /// `canonical`: the resolved path, or why it could not be resolved.
    pub fn new(path: &str, canonical: Result<String, String>) -> (r: Result<Self, Error>)
        ensures
            match r {
                Ok(ws) => workspace_outcome(path@, canonical) == Ok::<Seq<char>, ErrorView>(ws@),
                Err(e) => workspace_outcome(path@, canonical) == Err::<Seq<char>, ErrorView>(e@),
            },
    {
        match canonical {
            Err(reason) => Err(Error::InvalidWorkspace { path: path.to_owned(), reason }),
            Ok(resolved) => {
                if !starts_at_root(resolved.as_str()) {
                    return Err(
                        Error::InvalidWorkspace {
                            path: path.to_owned(),
                            reason: "canonicalized path is not absolute".to_owned(),
                        },
                    );
                }
                Ok(Workspace { root: resolved })
            },
        }
    }

    /// The path of the workspace root.
    pub fn root(&self) -> (r: &str)
        ensures
            r@ == self@,
    {
        self.root.as_str()
    }

    /// Whether `path` is the workspace root or lies under it, compared by full
    /// path components: `/proj-extra` does not lie under `/proj`.
    pub fn contains(&self, path: &str) -> (r: bool)
        ensures
            r == path_within(path@, self@),
    {
        is_within(path, self.root.as_str())
    }
}

/// The root of a workspace is the resolved path, which is absolute; what cannot
/// be resolved, or not to an absolute path, makes no workspace, and the refusal
/// names the path that was given.
pub proof fn workspaces_have_absolute_roots(path: Seq<char>, canonical: Result<String, String>)
    ensures
        workspace_outcome(path, canonical) is Ok <==> (canonical matches Ok(resolved)
            && resolved@.len() > 0 && resolved@[0] == '/'),
        workspace_outcome(path, canonical) matches Ok(root) ==> canonical is Ok && root
            == canonical->Ok_0@,
        workspace_outcome(path, canonical) matches Err(e) ==> (e
            matches ErrorView::InvalidWorkspace { path: named, reason } && named == path && (
        canonical matches Err(told) ==> reason == told@)),
{
}

} // verus!
