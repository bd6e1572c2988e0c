//! The failures of this library.

use crate::text::concat;
use vstd::prelude::*;

verus! {

/// What can go wrong. Each variant carries the text it is about.
#[derive(Debug, Clone, PartialEq, Eq)]
pub enum Error {
    /// The build directory of the settings could not be expanded: the name
    /// of the variable that was looked up in vain.
    Config(String),
    /// A text that is no glob pattern.
    Pattern(String),
    /// A media file that does not lie under the media directory.
    PathPrefix(String),
    /// A template could not be rendered: the renderer's description.
    Template(String),
    /// A tag that the tag index does not hold.
    TagMissing(String),
    /// The blog's root directory is there already.
    RootDirExisted(String),
    /// No theme of this name.
    ThemeNotFound(String),
    /// The theme is the one the blog uses.
    ThemeInUse(String),
    /// A post whose head holds a line without a colon.
    PostHead(String),
    /// A post without a body.
    PostNoBody(String),
    /// A path at which no post can be created.
    PostPathInvaild(String),
    /// A path at which a post is there already.
    PostPathExisted(String),
}

/// What `Error::message` says.
pub open spec fn message_of(e: Error) -> Seq<char> {
    match e {
        Error::Config(name) => "cannot expand the build directory: unknown variable `"@ + name@
            + "`"@,
        Error::Pattern(text) => "invalid glob pattern `"@ + text@ + "`"@,
        Error::PathPrefix(path) => "path `"@ + path@ + "` is outside the media directory"@,
        Error::Template(description) => "Template error: "@ + description@,
        Error::TagMissing(tag) => "tag `"@ + tag@ + "` is not in the tag index"@,
        Error::RootDirExisted(path) => "blog root directory `"@ + path@ + "` already exists"@,
        Error::ThemeNotFound(name) => "blog theme `"@ + name@ + "` not found"@,
        Error::ThemeInUse(name) => "blog theme `"@ + name@ + "` is in use"@,
        Error::PostHead(path) => "post `"@ + path@ + "` head part format error"@,
        Error::PostNoBody(path) => "post `"@ + path@ + "` has not body part"@,
        Error::PostPathInvaild(path) => "post path `"@ + path@ + "` is invalid"@,
        Error::PostPathExisted(path) => "post path `"@ + path@ + "` already exists"@,
    }
}

fn around(before: &str, text: &str, after: &str) -> (r: String)
    ensures
        r@ == before@ + text@ + after@,
{
    let start = concat(before, text);
    concat(start.as_str(), after)
}

impl Error {
    /// A sentence for the user.
    pub fn message(&self) -> (text: String)
        ensures
            text@ == message_of(*self),
    {
        match self {
            Error::Config(name) => around(
                "cannot expand the build directory: unknown variable `",
                name.as_str(),
                "`",
            ),
            Error::Pattern(text) => around("invalid glob pattern `", text.as_str(), "`"),
            Error::PathPrefix(path) => around(
                "path `",
                path.as_str(),
                "` is outside the media directory",
            ),
            Error::Template(description) => concat("Template error: ", description.as_str()),
            Error::TagMissing(tag) => around("tag `", tag.as_str(), "` is not in the tag index"),
            Error::RootDirExisted(path) => around(
                "blog root directory `",
                path.as_str(),
                "` already exists",
            ),
            Error::ThemeNotFound(name) => around("blog theme `", name.as_str(), "` not found"),
            Error::ThemeInUse(name) => around("blog theme `", name.as_str(), "` is in use"),
            Error::PostHead(path) => around("post `", path.as_str(), "` head part format error"),
            Error::PostNoBody(path) => around("post `", path.as_str(), "` has not body part"),
            Error::PostPathInvaild(path) => around("post path `", path.as_str(), "` is invalid"),
            Error::PostPathExisted(path) => around(
                "post path `",
                path.as_str(),
                "` already exists",
            ),
        }
    }
}

} // verus!
