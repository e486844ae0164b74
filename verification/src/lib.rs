//! Materialize and synchronize a destination directory tree from a template
//! source tree.
//!
//! The crate is split along the boundary between decisions and effects: every
//! decision (which VCS steps a retrieval needs, how a merge is resolved, which
//! operation each planned path gets, which filesystem commands an apply run
//! issues) is verified code in this library, while the surrounding binary
//! performs the filesystem, network and UI effects the decisions call for.

pub mod apply;
pub mod git;
pub mod order;
pub mod planner;
pub mod scan;

pub use apply::execute;
pub use planner::{cmp_path_for_plan, compute_dst_path, plan};

use vstd::prelude::*;

verus! {

/// A filesystem entry addressed relative to a root directory.
///
/// The absolute location of the entry is `base` joined with `relative`; both
/// are byte paths with `/` as the separator. Symbolic links are recorded but
/// never followed.
#[derive(Debug, Clone, PartialEq)]
pub struct ChildPath {
    pub relative: Vec<u8>,
    pub base: Vec<u8>,
    pub is_symlink: bool,
}

/// Mathematical image of a [`ChildPath`]: the same fields over `Seq<u8>`.
pub struct ChildPathView {
    pub relative: Seq<u8>,
    pub base: Seq<u8>,
    pub is_symlink: bool,
}

impl View for ChildPath {
    type V = ChildPathView;

    open spec fn view(&self) -> ChildPathView {
        ChildPathView {
            relative: self.relative@,
            base: self.base@,
            is_symlink: self.is_symlink,
        }
    }
}

impl Default for ChildPath {
    fn default() -> (r: Self)
        ensures
            r@.relative == Seq::<u8>::empty(),
            r@.base == Seq::<u8>::empty(),
            !r@.is_symlink,
    {
        ChildPath { relative: Vec::new(), base: Vec::new(), is_symlink: false }
    }
}

/// The path separator used inside byte paths.
pub const SLASH: u8 = 47;

/// The absolute location a [`ChildPath`] stands for: `base` joined with
/// `relative`. An empty side contributes no separator.
pub open spec fn join(base: Seq<u8>, relative: Seq<u8>) -> Seq<u8> {
    if relative.len() == 0 {
        base
    } else if base.len() == 0 {
        relative
    } else {
        base + seq![SLASH] + relative
    }
}

impl ChildPath {
    /// Build the absolute location of this entry as a byte path.
    pub fn full_path(&self) -> (r: Vec<u8>)
        ensures
            r@ == join(self@.base, self@.relative),
    {
        if self.relative.len() == 0 {
            self.base.clone()
        } else if self.base.len() == 0 {
            self.relative.clone()
        } else {
            let mut out = self.base.clone();
            out.push(SLASH);
            let mut i: usize = 0;
            while i < self.relative.len()
                invariant
                    i <= self.relative@.len(),
                    out@ == self.base@ + seq![SLASH] + self.relative@.take(i as int),
                decreases self.relative@.len() - i,
            {
                out.push(self.relative[i]);
                proof {
                    assert(self.base@ + seq![SLASH] + self.relative@.take(i as int) + seq![
                        self.relative@[i as int]
                    ] =~= self.base@ + seq![SLASH] + self.relative@.take(i as int + 1));
                }
                i = i + 1;
            }
            proof {
                assert(self.relative@.take(self.relative@.len() as int) =~= self.relative@);
            }
            out
        }
    }
}

/// The per-path operation a plan assigns to a scanned source entry.
///
/// `Nothing` and `Ignore` are reserved filter placeholders and `CopyRender`
/// is reserved for templated substitution; the planning rule never assigns
/// them.
#[derive(Debug, Clone, Copy, PartialEq, Eq, Structural)]
pub enum FileOperation {
    Nothing,
    Ignore,
    Keep,
    MkDir,
    CopyRaw,
    CopyRender,
}

/// One planned filesystem operation: a source entry, the mirrored
/// destination entry, and the operation to perform.
#[derive(Debug, Clone, PartialEq)]
pub struct Action {
    pub src_path: ChildPath,
    pub dst_path: ChildPath,
    pub operation: FileOperation,
}

/// Mathematical image of an [`Action`].
pub struct ActionView {
    pub src_path: ChildPathView,
    pub dst_path: ChildPathView,
    pub operation: FileOperation,
}

impl View for Action {
    type V = ActionView;

    open spec fn view(&self) -> ActionView {
        ActionView { src_path: self.src_path@, dst_path: self.dst_path@, operation: self.operation }
    }
}

/// The run context: where the destination tree lives and where the template
/// comes from.
#[derive(Debug, Clone, PartialEq)]
pub struct Ctx {
    pub dst_folder: Vec<u8>,
    pub src_uri: Vec<u8>,
}

impl Default for Ctx {
    fn default() -> (r: Ctx)
        ensures
            r.dst_folder@ == Seq::<u8>::empty(),
            r.src_uri@ == Seq::<u8>::empty(),
    {
        Ctx { dst_folder: Vec::new(), src_uri: Vec::new() }
    }
}

/// Everything that can go wrong, each failure wrapped with the context a
/// user needs to retry or intervene.
#[derive(Debug, Clone, PartialEq)]
pub enum Error {
    /// A VCS step of a retrieval failed (network, authentication, merge,
    /// checkout); carries the destination, the remote URL and the revision.
    RetrievalFailed { dst: Vec<u8>, url: Vec<u8>, rev: Vec<u8>, cause: Vec<u8> },
    /// Creating a destination folder (with its parents) failed.
    CreateFolderFailed { path: Vec<u8>, cause: Vec<u8> },
    /// A three-way merge left conflict markers in the working tree. Non
    /// fatal: the run warns and leaves the tree for manual resolution.
    MergeConflicted,
    /// The VCS configuration names no tool of the requested kind.
    ToolNotConfigured { kind: Vec<u8> },
    /// Applying one action failed; the run aborts with no rollback.
    ExecutionFailed { action: Action, cause: Vec<u8> },
}

/// Wrap a low-level retrieval failure with its identifying context.
pub fn retrieval_error(dst: Vec<u8>, url: Vec<u8>, rev: Vec<u8>, cause: Vec<u8>) -> (e: Error)
    ensures
        e == (Error::RetrievalFailed { dst, url, rev, cause }),
{
    Error::RetrievalFailed { dst, url, rev, cause }
}

/// Wrap a folder-creation failure with the path that could not be made.
pub fn create_folder_error(path: Vec<u8>, cause: Vec<u8>) -> (e: Error)
    ensures
        e == (Error::CreateFolderFailed { path, cause }),
{
    Error::CreateFolderFailed { path, cause }
}

/// The error for a tool kind the VCS configuration does not name.
pub fn tool_not_configured_error(kind: Vec<u8>) -> (e: Error)
    ensures
        e == (Error::ToolNotConfigured { kind }),
{
    Error::ToolNotConfigured { kind }
}

/// Wrap the failure of one applied action; the apply run is fail-fast, so
/// this aborts everything after it.
pub fn execution_error(action: Action, cause: Vec<u8>) -> (e: Error)
    ensures
        e == (Error::ExecutionFailed { action, cause }),
{
    Error::ExecutionFailed { action, cause }
}

/// A template location that is a local path is used as the template root
/// directly, unchanged.
pub fn as_local_path(uri: Vec<u8>) -> (r: Result<Vec<u8>, Error>)
    ensures
        r matches Ok(p) && p@ == uri@,
{
    Ok(uri)
}

} // verus!
