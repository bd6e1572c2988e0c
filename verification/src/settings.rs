//! The settings of a blog.

use vstd::prelude::*;

verus! {

/// What the user can set.
#[derive(Debug, Clone, PartialEq, Eq)]
pub struct Settings {
    /// The name of the theme.
    pub theme: String,
    /// The address of the site's logo.
    pub site_logo: String,
    /// The site's name, which is also the title of the index page.
    pub site_name: String,
    /// The site's motto.
    pub site_motto: String,
    /// The note at the foot of each page.
    pub footer_note: String,
    /// Where the site is built: absolute, or relative to the blog's root.
    /// A leading `~` and `$NAME` are expanded.
    pub build_dir: String,
    /// The least number of seconds between two rebuilds while watching.
    pub rebuild_interval: u32,
}

impl Default for Settings {
    fn default() -> (settings: Settings)
        ensures
            settings.theme@ == "simple"@,
            settings.site_logo@ == "/static/logo.png"@,
            settings.site_name@ == "Mdblog"@,
            settings.site_motto@ == "Simple is Beautiful!"@,
            settings.footer_note@ == "Keep It Simple, Stupid!"@,
            settings.build_dir@ == "_build"@,
            settings.rebuild_interval == 2,
    {
        Settings {
            theme: "simple".to_owned(),
            site_logo: "/static/logo.png".to_owned(),
            site_name: "Mdblog".to_owned(),
            site_motto: "Simple is Beautiful!".to_owned(),
            footer_note: "Keep It Simple, Stupid!".to_owned(),
            build_dir: "_build".to_owned(),
            rebuild_interval: 2,
        }
    }
}

} // verus!
