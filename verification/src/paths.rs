//! File-system paths as text. A path is held as a `String`; what the standard
//! library computes on it is reached through the functions below, each of
//! which names its result.

use vstd::prelude::*;

verus! {

/// What `Path::join` gives for `base` joined with `path`.
pub uninterp spec fn path_join(base: Seq<char>, path: Seq<char>) -> Seq<char>;

/// What `Path::with_extension` gives for `path` with the extension `extension`.
pub uninterp spec fn path_with_extension(path: Seq<char>, extension: Seq<char>) -> Seq<char>;

/// What `Path::file_stem` gives for `path`.
pub uninterp spec fn path_file_stem(path: Seq<char>) -> Option<Seq<char>>;

/// What `Path::extension` gives for `path`.
pub uninterp spec fn path_extension(path: Seq<char>) -> Option<Seq<char>>;

/// What `Path::strip_prefix` gives for `path` with `base` taken off its front.
pub uninterp spec fn path_strip_prefix(path: Seq<char>, base: Seq<char>) -> Option<Seq<char>>;

/// What `Path::is_relative` gives for `path`.
pub uninterp spec fn path_is_relative(path: Seq<char>) -> bool;

/// True when `text` holds no path separator.
pub open spec fn no_separator(text: Seq<char>) -> bool {
    forall|i: int| 0 <= i < text.len() ==> text[i] != '/' && text[i] != '\\'
}

/// Calls `std::path::Path::join`. Trusted: the result is a function of the two
/// paths alone, named `path_join`.
#[verifier::external_body]
pub(crate) fn join(base: &str, path: &str) -> (joined: String)
    ensures
        joined@ == path_join(base@, path@),
{
    std::path::Path::new(base).join(path).to_string_lossy().into_owned()
}

/// Calls `std::path::Path::with_extension`, which panics on an extension that
/// holds a separator. Trusted: the result is a function of the path and the
/// extension alone, named `path_with_extension`.
#[verifier::external_body]
pub(crate) fn with_extension(path: &str, extension: &str) -> (replaced: String)
    requires
        no_separator(extension@),
    ensures
        replaced@ == path_with_extension(path@, extension@),
{
    std::path::Path::new(path).with_extension(extension).to_string_lossy().into_owned()
}

/// Calls `std::path::Path::file_stem`. Trusted: the result is a function of
/// the path alone, named `path_file_stem`.
#[verifier::external_body]
pub(crate) fn file_stem(path: &str) -> (stem: Option<String>)
    ensures
        stem is Some <==> path_file_stem(path@) is Some,
        stem matches Some(s) ==> path_file_stem(path@) == Some(s@),
{
    std::path::Path::new(path).file_stem().map(|s| s.to_string_lossy().into_owned())
}

/// Calls `std::path::Path::extension`. Trusted: the result is a function of
/// the path alone, named `path_extension`.
#[verifier::external_body]
pub(crate) fn extension(path: &str) -> (ext: Option<String>)
    ensures
        ext is Some <==> path_extension(path@) is Some,
        ext matches Some(e) ==> path_extension(path@) == Some(e@),
{
    std::path::Path::new(path).extension().map(|e| e.to_string_lossy().into_owned())
}

/// Calls `std::path::Path::strip_prefix`; `None` stands for its error, which
/// carries nothing. Trusted: the result is a function of the two paths alone,
/// named `path_strip_prefix`.
#[verifier::external_body]
pub(crate) fn strip_prefix(path: &str, base: &str) -> (rest: Option<String>)
    ensures
        rest is Some <==> path_strip_prefix(path@, base@) is Some,
        rest matches Some(r) ==> path_strip_prefix(path@, base@) == Some(r@),
{
    std::path::Path::new(path).strip_prefix(base).ok().map(|r| r.to_string_lossy().into_owned())
}

/// Calls `std::path::Path::is_relative`. Trusted: the result is a function of
/// the path alone, named `path_is_relative`.
#[verifier::external_body]
pub(crate) fn is_relative(path: &str) -> (relative: bool)
    ensures
        relative == path_is_relative(path@),
{
    std::path::Path::new(path).is_relative()
}

/// Whether `text` is left as it is by the shell's expansion: it holds no
/// `$`, and does not start with `~`.
pub open spec fn plain(text: Seq<char>) -> bool {
    &&& forall|i: int| 0 <= i < text.len() ==> text[i] != '$'
    &&& text.len() > 0 ==> text[0] != '~'
}

/// Calls `shellexpand::full`, which replaces a leading `~` and the variables
/// of the environment in `text`; a failure comes back as the name of the
/// variable that was looked up in vain. Trusted: a text without `$` and
/// without a leading `~` comes back as it is. Of any other text nothing is
/// claimed: the outcome depends on the environment.
#[verifier::external_body]
pub(crate) fn expand(text: &str) -> (expanded: Result<String, String>)
    ensures
        plain(text@) ==> expanded is Ok,
        plain(text@) ==> expanded->Ok_0@ == text@,
{
    shellexpand::full(text).map(|found| found.into_owned()).map_err(|failure| failure.var_name)
}

} // verus!
