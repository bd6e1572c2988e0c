//! A theme as the blog holds it: its name and its static files.

use vstd::prelude::*;

verus! {

/// One static file of a theme.
#[derive(Debug, Clone, PartialEq, Eq)]
pub struct Asset {
    /// Where the file goes, relative to the build directory.
    pub path: String,
    /// What the file holds.
    pub content: Vec<u8>,
}

/// A theme.
#[derive(Debug, Clone, PartialEq, Eq)]
pub struct Theme {
    /// The theme's name.
    pub name: String,
    /// The theme's static files.
    pub assets: Vec<Asset>,
}

} // verus!
