//! The path jail: resolves a resource path that a script asks for against a
//! fixed root directory and refuses any path that would leave it.
//!
//! Resolution has two steps around the filesystem. `Jail::target` refuses an
//! absolute request and joins a relative one onto the root. The host then
//! canonicalizes the root and the joined path (following symbolic links and
//! `..`, and requiring the target to exist), and `confine` decides on what
//! came back: the canonical target must lie under the canonical root.
use vstd::prelude::*;
use crate::path::{
    components,
    is_absolute,
    is_absolute_path,
    is_within,
    join,
    join_path,
    parent_or_current,
    within,
};

verus! {

/// Why a resource path was refused.
pub enum JailError {
    /// The request was an absolute path.
    AbsolutePathForbidden,
    /// The jail root could not be canonicalized; carries the reason.
    InvalidBase(String),
    /// The requested resource could not be canonicalized (it does not exist,
    /// or a component is not a directory); carries the reason.
    ResourceNotFound(String),
    /// The canonical target lies outside the canonical root.
    TraversalDetected,
}

/// What a `JailError` stands for.
pub ghost enum Denial {
    AbsolutePathForbidden,
    InvalidBase(Seq<char>),
    ResourceNotFound(Seq<char>),
    TraversalDetected,
}

impl View for JailError {
    type V = Denial;

    open spec fn view(&self) -> Denial {
        match self {
            JailError::AbsolutePathForbidden => Denial::AbsolutePathForbidden,
            JailError::InvalidBase(m) => Denial::InvalidBase(m@),
            JailError::ResourceNotFound(m) => Denial::ResourceNotFound(m@),
            JailError::TraversalDetected => Denial::TraversalDetected,
        }
    }
}

/// The text shown to a script for a refusal.
pub open spec fn describe(d: Denial) -> Seq<char> {
    match d {
        Denial::AbsolutePathForbidden => "Absolute paths are forbidden"@,
        Denial::InvalidBase(m) => "Base path invalid: "@ + m,
        Denial::ResourceNotFound(m) => "Resource not found or invalid: "@ + m,
        Denial::TraversalDetected => "Directory traversal attempt detected"@,
    }
}

impl JailError {
    pub fn message(&self) -> (r: String)
        ensures
            r@ == describe(self@),
    {
        match self {
            JailError::AbsolutePathForbidden => String::from_str("Absolute paths are forbidden"),
            JailError::InvalidBase(m) => String::from_str("Base path invalid: ").concat(m.as_str()),
            JailError::ResourceNotFound(m) => String::from_str(
                "Resource not found or invalid: ",
            ).concat(m.as_str()),
            JailError::TraversalDetected => String::from_str(
                "Directory traversal attempt detected",
            ),
        }
    }
}

/// The first step of resolution: the path to canonicalize for `requested`.
pub open spec fn target_of(root: Seq<char>, requested: Seq<char>) -> Result<Seq<char>, Denial> {
    if is_absolute(requested) {
        Err(Denial::AbsolutePathForbidden)
    } else {
        Ok(join(root, requested))
    }
}

/// The second step: the decision on the canonical root and the canonical
/// target, each given as a path or the reason it could not be had.
pub open spec fn confined(
    canonical_root: Result<Seq<char>, Seq<char>>,
    canonical_target: Result<Seq<char>, Seq<char>>,
) -> Result<Seq<char>, Denial> {
    match canonical_root {
        Err(m) => Err(Denial::InvalidBase(m)),
        Ok(root) => match canonical_target {
            Err(m) => Err(Denial::ResourceNotFound(m)),
            Ok(target) => if within(root, target) {
                Ok(target)
            } else {
                Err(Denial::TraversalDetected)
            },
        },
    }
}

pub open spec fn path_views(r: Result<String, String>) -> Result<Seq<char>, Seq<char>> {
    match r {
        Ok(p) => Ok(p@),
        Err(m) => Err(m@),
    }
}

/// A path that the jail has let through: canonical, and under the canonical
/// root it was compared with.
pub struct ResolvedPath {
    path: String,
}

impl View for ResolvedPath {
    type V = Seq<char>;

    closed spec fn view(&self) -> Seq<char> {
        self.path@
    }
}

impl ResolvedPath {
    pub fn as_str(&self) -> (r: &str)
        ensures
            r@ == self@,
    {
        self.path.as_str()
    }
}

pub open spec fn resolved_views(r: Result<ResolvedPath, JailError>) -> Result<Seq<char>, Denial> {
    match r {
        Ok(p) => Ok(p@),
        Err(e) => Err(e@),
    }
}

/// Decides on the canonicalized root and target (see `confined`).
pub fn confine(canonical_root: Result<String, String>, canonical_target: Result<String, String>) -> (r:
    Result<ResolvedPath, JailError>)
    ensures
        resolved_views(r) == confined(path_views(canonical_root), path_views(canonical_target)),
{
    match canonical_root {
        Err(m) => Err(JailError::InvalidBase(m)),
        Ok(root) => match canonical_target {
            Err(m) => Err(JailError::ResourceNotFound(m)),
            Ok(target) => {
                if is_within(root.as_str(), target.as_str()) {
                    Ok(ResolvedPath { path: target })
                } else {
                    Err(JailError::TraversalDetected)
                }
            },
        },
    }
}

/// The absolute path that anchors a script's jail: the script's path, made
/// absolute against the working directory `cwd` where it is relative.
pub open spec fn anchor_of(script_path: Seq<char>, cwd: Seq<char>) -> Seq<char> {
    if is_absolute(script_path) {
        script_path
    } else {
        join(cwd, script_path)
    }
}

pub fn anchor_path(script_path: &str, cwd: &str) -> (r: String)
    ensures
        r@ == anchor_of(script_path@, cwd@),
{
    if is_absolute_path(script_path) {
        String::from_str(script_path)
    } else {
        join_path(cwd, script_path)
    }
}

/// The directory that bounds every resource lookup of one script. It never
/// changes once made.
pub struct Jail {
    root: String,
}

impl View for Jail {
    type V = Seq<char>;

    closed spec fn view(&self) -> Seq<char> {
        self.root@
    }
}

impl Jail {
    /// The jail anchored at `anchor`: the anchor itself where it is a
    /// directory, else its parent (`.` where it has none).
    pub fn new(anchor: &str, anchor_is_dir: bool) -> (r: Self)
        ensures
            anchor_is_dir ==> r@ == anchor@,
            !anchor_is_dir && components(anchor@).len() == 0 ==> r@ == seq!['.'],
            !anchor_is_dir && components(anchor@).len() > 0 ==> {
                &&& components(r@) == components(anchor@).drop_last()
                &&& is_absolute(r@) == is_absolute(anchor@)
                &&& r@ == anchor@.subrange(0, r@.len() as int)
            },
    {
        if anchor_is_dir {
            Jail { root: String::from_str(anchor) }
        } else {
            Jail { root: parent_or_current(anchor) }
        }
    }

    pub fn root(&self) -> (r: &str)
        ensures
            r@ == self@,
    {
        self.root.as_str()
    }

    /// The path to canonicalize for `requested` (see `target_of`).
    pub fn target(&self, requested: &str) -> (r: Result<String, JailError>)
        ensures
            match r {
                Ok(t) => target_of(self@, requested@) == Ok::<Seq<char>, Denial>(t@),
                Err(e) => target_of(self@, requested@) == Err::<Seq<char>, Denial>(e@),
            },
    {
        if is_absolute_path(requested) {
            Err(JailError::AbsolutePathForbidden)
        } else {
            Ok(join_path(self.root.as_str(), requested))
        }
    }
}

/// A relative request is joined onto the root, and resolution then succeeds
/// exactly when the canonical target lies within the canonical root,
/// component by component; a request that escapes it, through `..` or a
/// symbolic link as canonicalization shows, fails with a traversal error.
/// What resolution lets through is the canonical target itself.
pub proof fn lemma_resolution_stays_within(
    root: Seq<char>,
    requested: Seq<char>,
    canonical_root: Seq<char>,
    canonical_target: Seq<char>,
)
    requires
        !is_absolute(requested),
    ensures
        target_of(root, requested) == Ok::<Seq<char>, Denial>(join(root, requested)),
        confined(Ok(canonical_root), Ok(canonical_target)) is Ok <==> within(
            canonical_root,
            canonical_target,
        ),
        !within(canonical_root, canonical_target) ==> confined(
            Ok(canonical_root),
            Ok(canonical_target),
        ) == Err::<Seq<char>, Denial>(Denial::TraversalDetected),
        confined(Ok(canonical_root), Ok(canonical_target)) is Ok ==> confined(
            Ok(canonical_root),
            Ok(canonical_target),
        ) == Ok::<Seq<char>, Denial>(canonical_target),
{
}

/// An absolute request is refused as such, whether or not it names a place
/// under the root, before the filesystem is consulted.
pub proof fn lemma_absolute_refused(root: Seq<char>, requested: Seq<char>)
    requires
        is_absolute(requested),
    ensures
        target_of(root, requested) == Err::<Seq<char>, Denial>(Denial::AbsolutePathForbidden),
{
}

} // verus!
