//! The trust check that bounds which paths a remote peer may read.
//!
//! The check is textual: a path is inside the disclosure boundary when one of
//! the trusted roots is a literal prefix of it. Nothing is canonicalised, so a
//! sibling such as `/srv/shared` passes under the root `/srv/share`, and
//! symbolic links and `..` segments are taken as written.

use crate::text::words;
use vstd::prelude::*;

verus! {

/// One of `roots` is a literal prefix of `path`.
pub open spec fn has_trusted_prefix(path: Seq<char>, roots: Seq<Seq<char>>) -> bool {
    exists|i: int| 0 <= i < roots.len() && (#[trigger] roots[i]).is_prefix_of(path)
}

/// A path may be disclosed: it exists and lies textually under a root.
pub open spec fn trusted(exists_on_disk: bool, path: Seq<char>, roots: Seq<Seq<char>>) -> bool {
    exists_on_disk && has_trusted_prefix(path, roots)
}

/// `str::starts_with` with a string pattern: whether `prefix` matches the
/// start of `text`. On two valid strings a match of bytes is a match of
/// characters, which is what the contract states.
#[verifier::external_body]
fn starts_with(text: &str, prefix: &str) -> (r: bool)
    ensures
        r == prefix@.is_prefix_of(text@),
{
    text.starts_with(prefix)
}

/// `std::path::Path::exists`: asks the filesystem whether the path names
/// something. The answer depends on the disk, so nothing is claimed of it.
#[verifier::external_body]
fn path_exists(path: &str) -> (r: bool) {
    std::path::Path::new(path).exists()
}

/// Whether one of `roots` is a literal prefix of `path`.
pub fn under_trusted_root(path: &String, roots: &Vec<String>) -> (r: bool)
    ensures
        r == has_trusted_prefix(path@, words(roots@)),
{
    let mut i: usize = 0;
    while i < roots.len()
        invariant
            i <= roots.len(),
            forall|j: int| 0 <= j < i ==> !(#[trigger] words(roots@)[j]).is_prefix_of(path@),
        decreases roots.len() - i,
    {
        if starts_with(path.as_str(), roots[i].as_str()) {
            assert(words(roots@)[i as int].is_prefix_of(path@));
            return true;
        }
        i += 1;
    }
    false
}

/// The trust decision, given what the filesystem said of the path's existence.
pub fn is_trusted(exists_on_disk: bool, path: &String, roots: &Vec<String>) -> (r: bool)
    ensures
        r == trusted(exists_on_disk, path@, words(roots@)),
{
    if !exists_on_disk {
        return false;
    }
    under_trusted_root(path, roots)
}

/// Probes the filesystem for `untrusted_file` and decides whether it may be
/// disclosed. Whatever the probe answers, a path with no trusted root as a
/// literal prefix is refused; the result is `is_trusted` of the probe's answer.
pub fn file_is_under_trusted_dir(untrusted_file: &String, trusted_dirs: &Vec<String>) -> (r: bool)
    ensures
        r ==> has_trusted_prefix(untrusted_file@, words(trusted_dirs@)),
        exists|on_disk: bool| r == trusted(on_disk, untrusted_file@, words(trusted_dirs@)),
{
    let on_disk = path_exists(untrusted_file.as_str());
    let r = is_trusted(on_disk, untrusted_file, trusted_dirs);
    assert(r == trusted(on_disk, untrusted_file@, words(trusted_dirs@)));
    r
}

/// A path that does not exist is never trusted, and neither is a path of
/// which no root is a literal prefix, wherever it may lie on disk.
pub proof fn lemma_untrusted(exists_on_disk: bool, path: Seq<char>, roots: Seq<Seq<char>>)
    ensures
        !exists_on_disk ==> !trusted(exists_on_disk, path, roots),
        (forall|i: int| 0 <= i < roots.len() ==> !(#[trigger] roots[i]).is_prefix_of(path))
            ==> !trusted(exists_on_disk, path, roots),
{
}

/// The check is textual: a path that extends a root by any characters passes
/// once it exists, whether or not it lies inside the root's directory.
pub proof fn lemma_textual_extension_trusted(
    root: Seq<char>,
    rest: Seq<char>,
    roots: Seq<Seq<char>>,
)
    requires
        roots.contains(root),
    ensures
        trusted(true, root + rest, roots),
{
    let i = choose|i: int| 0 <= i < roots.len() && roots[i] == root;
    assert((root + rest).subrange(0, root.len() as int) =~= root);
    assert(roots[i].is_prefix_of(root + rest));
}

} // verus!
