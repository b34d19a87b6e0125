//! Resolution of resource paths against the repository root.
//!
//! The root is the one recorded when the samples are built; it is handed in as a value, and
//! an empty root means that none is known, in which case paths are resolved relative to the
//! running binary.

use vstd::prelude::*;

verus! {

/// The prefix that leads from a binary's working directory to the repository root.
pub open spec fn binary_relative_prefix() -> Seq<char> {
    seq!['.', '.', '/', '.', '.', '/', '.', '.', '/']
}

/// `root/path`.
pub open spec fn root_relative(root: Seq<char>, path: Seq<char>) -> Seq<char> {
    root + seq!['/'] + path
}

/// What `get_path` gives for `path` under the recorded `root`.
pub open spec fn resolved_path(root: Seq<char>, path: Seq<char>) -> Seq<char> {
    if root.len() == 0 {
        binary_relative_prefix() + path
    } else {
        root_relative(root, path)
    }
}

/// The two ways a resource path can be built.
#[derive(PartialEq, Eq, Structural, Clone, Copy, Debug)]
pub enum PathBuilder {
    RelativeBinary,
    RelativeRoot,
}

impl PathBuilder {
    /// Applies the builder to `path` under the recorded `root`.
    pub fn build(&self, root: &str, path: String) -> (r: String)
        ensures
            *self == PathBuilder::RelativeBinary ==> r@ == binary_relative_prefix() + path@,
            *self == PathBuilder::RelativeRoot ==> r@ == root_relative(root@, path@),
    {
        match self {
            PathBuilder::RelativeBinary => get_path_relative_binary(path),
            PathBuilder::RelativeRoot => get_path_relative_root(root, path),
        }
    }
}

/// Resolves a path inside the repository (`resources/...`) to a path that can be opened,
/// given the recorded repository root.
pub fn get_path(root: &str, path: String) -> (r: String)
    ensures
        r@ == resolved_path(root@, path@),
{
    let path_builder = get_path_builder(root);
    path_builder.build(root, path)
}

/// Chooses the builder: relative to the root when one is recorded, else relative to the binary.
pub fn get_path_builder(root: &str) -> (b: PathBuilder)
    ensures
        b == (if root@.len() == 0 {
            PathBuilder::RelativeBinary
        } else {
            PathBuilder::RelativeRoot
        }),
{
    if root.unicode_len() == 0 {
        PathBuilder::RelativeBinary
    } else {
        PathBuilder::RelativeRoot
    }
}

/// `root/path`.
pub fn get_path_relative_root(root: &str, path: String) -> (r: String)
    ensures
        r@ == root_relative(root@, path@),
{
    let mut result = String::from_str(root);
    result.append("/");
    result.append(path.as_str());
    proof {
        reveal_strlit("/");
    }
    result
}

/// `../../../path`.
pub fn get_path_relative_binary(path: String) -> (r: String)
    ensures
        r@ == binary_relative_prefix() + path@,
{
    let mut result = String::from_str("../../../");
    result.append(path.as_str());
    proof {
        reveal_strlit("../../../");
    }
    result
}

} // verus!
