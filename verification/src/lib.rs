//! Static site generation from a tree of markdown posts: post parsing, the
//! post collection and its tag index, page contexts, the export plan and the
//! decisions of the live-rebuild watcher.

pub mod blog;
pub mod dates;
pub mod errors;
pub mod export;
pub mod markdown;
pub mod order;
pub mod paths;
pub mod patterns;
pub mod post;
pub mod render;
pub mod settings;
pub mod site;
pub mod tags;
pub mod template;
pub mod text;
pub mod theme;
pub mod watch;

pub use blog::Mdblog;
pub use errors::Error;
pub use post::Post;
pub use settings::Settings;
pub use theme::Theme;
