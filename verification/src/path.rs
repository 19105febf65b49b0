//! Paths, as the platform that the library is built for reads them.
use crate::text::opt_view;
use crate::text::views;
use vstd::prelude::*;

verus! {

/// The components of a path.
pub uninterp spec fn path_components(path: Seq<char>) -> Seq<Seq<char>>;

/// `camino::Utf8Path::components`: the components of a path, each as text.
#[verifier::external_body]
pub(crate) fn components(path: &str) -> (r: Vec<String>)
    ensures
        views(r@) == path_components(path@),
{
    camino::Utf8Path::new(path).components().map(|c| c.as_str().to_string()).collect()
}

/// Whether a path says where it is by itself.
pub uninterp spec fn path_is_absolute(path: Seq<char>) -> bool;

/// `camino::Utf8Path::is_absolute`: whether a path says where it is by itself.
#[verifier::external_body]
pub(crate) fn is_absolute(path: &str) -> (r: bool)
    ensures
        r == path_is_absolute(path@),
{
    camino::Utf8Path::new(path).is_absolute()
}

/// A path in a directory.
pub uninterp spec fn path_join(base: Seq<char>, path: Seq<char>) -> Seq<char>;

/// `camino::Utf8Path::join`: a path in a directory.
#[verifier::external_body]
pub(crate) fn join_path(base: &str, path: &str) -> (r: String)
    ensures
        r@ == path_join(base@, path@),
{
    camino::Utf8Path::new(base).join(path).into_string()
}

/// The extension of the last component of a path, where it has one.
pub uninterp spec fn path_extension(path: Seq<char>) -> Option<Seq<char>>;

/// `camino::Utf8Path::extension`: the extension of the last component of a path.
#[verifier::external_body]
pub(crate) fn extension(path: &str) -> (r: Option<String>)
    ensures
        opt_view(r) == path_extension(path@),
{
    camino::Utf8Path::new(path).extension().map(|e| e.to_string())
}

/// A path with another extension.
pub uninterp spec fn path_with_extension(path: Seq<char>, extension: Seq<char>) -> Seq<char>;

/// `camino::Utf8Path::with_extension`: a path with another extension. It panics on an
/// extension that holds a separator.
#[verifier::external_body]
pub(crate) fn with_extension(path: &str, extension: &str) -> (r: String)
    requires
        !extension@.contains('/'),
        !extension@.contains('\\'),
    ensures
        r@ == path_with_extension(path@, extension@),
{
    camino::Utf8Path::new(path).with_extension(extension).into_string()
}

} // verus!
