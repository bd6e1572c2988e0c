//! What the commands on a blog decide: where a new post goes and what it
//! holds, which theme can be set or removed, what a new blog starts with.
//! The caller looks at the disk and hands over what it found.

use crate::blog::Mdblog;
use crate::errors::Error;
use crate::export::{Action, ActionView};
use crate::paths::{
    extension, file_stem, is_relative, join, no_separator, path_extension, path_file_stem,
    path_is_relative, path_join, path_with_extension, with_extension,
};
use crate::post::{date_string, date_text};
use crate::settings::Settings;
use crate::text::{concat, decimal, join as join_texts, joined, same, texts, to_decimal};
use crate::watch::{ignored, is_ignored};
use vstd::prelude::*;
use vstd::string::*;
use vstd::utf8::encode_utf8;

verus! {

/// The first post of a new blog.
pub const HELLO_POST: &'static str =
    "date: 2017-01-01 00:00:00\ntags: hello, world\n\n# hello\n\nhello world!\n";

/// The second post of a new blog.
pub const MATH_POST: &'static str =
    "date: 2017-01-02 00:00:00\ntags: math\n\n# math\n\nThe sum of the first $n$ odd numbers is $n^2$.\n";

/// The file of the post `path`: under the posts directory, with the
/// extension `md`.
pub open spec fn post_file(root: Seq<char>, path: Seq<char>) -> Seq<char> {
    path_with_extension(path_join(path_join(root, "posts"@), path), "md"@)
}

/// Whether no post can be created at `path`: it is absolute, has an
/// extension, is empty, has no file stem, or one of `patterns` matches it.
pub open spec fn invalid_post_path(path: Seq<char>, patterns: Seq<Seq<char>>) -> bool {
    ||| !path_is_relative(path)
    ||| path_extension(path) is Some
    ||| path.len() == 0
    ||| path_file_stem(path) is None
    ||| ignored(patterns, path)
}

/// What a new post holds: the date `created`, the tags, and one line of
/// body.
pub open spec fn new_post_text(created: i64, tags: Seq<Seq<char>>) -> Seq<char> {
    "date: "@ + date_text(created) + "\ntags: "@ + joined(tags, ", "@)
        + "\n\nthis is a new post!\n"@
}

/// The directory of the theme `name`.
pub open spec fn theme_path(root: Seq<char>, name: Seq<char>) -> Seq<char> {
    path_join(path_join(root, "_themes"@), name)
}

/// The pattern of the template files of the theme `name`.
pub open spec fn templates_pattern(root: Seq<char>, name: Seq<char>) -> Seq<char> {
    path_join(theme_path(root, name), "templates"@) + "/*"@
}

/// The address at which the built site is served on this machine.
pub open spec fn local_address(port: u16) -> Seq<char> {
    "127.0.0.1:"@ + decimal(port as nat)
}

/// The names of the entries of the themes directory that are directories,
/// in their order.
pub open spec fn theme_names(entries: Seq<(String, bool)>) -> Seq<Seq<char>>
    decreases entries.len(),
{
    if entries.len() == 0 {
        Seq::empty()
    } else if entries.last().1 {
        theme_names(entries.drop_last()).push(entries.last().0@)
    } else {
        theme_names(entries.drop_last())
    }
}

/// What a new blog at `root` starts with: two posts and a media directory.
pub open spec fn first_actions(root: Seq<char>) -> Seq<ActionView> {
    seq![
        ActionView::WriteFile {
            path: path_join(path_join(root, "posts"@), "hello.md"@),
            content: encode_utf8(HELLO_POST@),
        },
        ActionView::WriteFile {
            path: path_join(path_join(root, "posts"@), "math.md"@),
            content: encode_utf8(MATH_POST@),
        },
        ActionView::CreateDir { path: path_join(root, "media"@) },
    ]
}

/// The pattern of the template files of the theme `name` of the blog at
/// `root`.
pub fn templates_glob(root: &str, name: &str) -> (pattern: String)
    ensures
        pattern@ == templates_pattern(root@, name@),
{
    let themes = join(root, "_themes");
    let theme = join(themes.as_str(), name);
    let templates = join(theme.as_str(), "templates");
    concat(templates.as_str(), "/*")
}

/// The address at which the built site is served on this machine.
pub fn server_address(port: u16) -> (address: String)
    ensures
        address@ == local_address(port),
{
    concat("127.0.0.1:", to_decimal(port as usize).as_str())
}

/// The address of the served site for a browser.
pub fn server_url(port: u16) -> (url: String)
    ensures
        url@ == "http://"@ + local_address(port),
{
    concat("http://", server_address(port).as_str())
}

impl Mdblog {
    /// The themes among the entries of the themes directory: the names of
    /// those that are directories. Each entry is a name, and whether it is
    /// a directory.
    pub fn list_blog_theme(&self, entries: &Vec<(String, bool)>) -> (names: Vec<String>)
        ensures
            texts(names@) == theme_names(entries@),
    {
        let mut names: Vec<String> = Vec::new();
        let mut i: usize = 0;
        assert(entries@.take(0) =~= Seq::<(String, bool)>::empty());
        assert(texts(names@) =~= Seq::empty());
        while i < entries.len()
            invariant
                0 <= i <= entries.len(),
                texts(names@) == theme_names(entries@.take(i as int)),
            decreases entries.len() - i,
        {
            assert(entries@.take(i + 1).drop_last() =~= entries@.take(i as int));
            if entries[i].1 {
                let ghost before = texts(names@);
                names.push(entries[i].0.clone());
                assert(texts(names@) =~= before.push(entries@[i as int].0@));
            }
            i += 1;
        }
        assert(entries@.take(entries.len() as int) =~= entries@);
        names
    }

    /// Takes the settings that the user has made.
    pub fn load_customize_settings(&mut self, settings: Settings)
        ensures
            final(self).settings == settings,
            final(self).root == old(self).root,
            final(self).theme == old(self).theme,
            final(self).posts == old(self).posts,
            final(self).tags == old(self).tags,
    {
        self.settings = settings;
    }

    /// What a new blog starts with. A root directory that is there already
    /// is a failure.
    pub fn init(&self, root_exists: bool) -> (r: Result<Vec<Action>, Error>)
        ensures
            if root_exists {
                r matches Err(Error::RootDirExisted(path)) && path@ == self.root@
            } else {
                r matches Ok(actions) && crate::export::action_views(actions@) == first_actions(
                    self.root@,
                )
            },
    {
        if root_exists {
            return Err(Error::RootDirExisted(self.root.clone()));
        }
        let posts = join(self.root.as_str(), "posts");
        let hello = Action::WriteFile {
            path: join(posts.as_str(), "hello.md"),
            content: HELLO_POST.as_bytes_vec(),
        };
        let math = Action::WriteFile {
            path: join(posts.as_str(), "math.md"),
            content: MATH_POST.as_bytes_vec(),
        };
        let media = Action::CreateDir { path: join(self.root.as_str(), "media") };
        let mut actions: Vec<Action> = Vec::new();
        actions.push(hello);
        actions.push(math);
        actions.push(media);
        assert(crate::export::action_views(actions@) =~= first_actions(self.root@));
        Ok(actions)
    }

    /// The file of the post `path`.
    pub fn post_file_path(&self, path: &str) -> (file: String)
        ensures
            file@ == post_file(self.root@, path@),
    {
        let posts = join(self.root.as_str(), "posts");
        let plain = join(posts.as_str(), path);
        proof {
            reveal_strlit("md");
            assert(no_separator("md"@));
        }
        with_extension(plain.as_str(), "md")
    }

    /// What creates the post `path` with the tags `tags`, written at
    /// `created`.
    ///
    /// `patterns` are the patterns of `get_ignore_patterns`; `is_dir` says
    /// whether `path` is a directory, `present` whether the file of
    /// `post_file_path` is there.
    pub fn create_post(
        &self,
        path: &str,
        tags: &Vec<String>,
        patterns: &Vec<String>,
        created: i64,
        is_dir: bool,
        present: bool,
    ) -> (r: Result<Action, Error>)
        ensures
            if invalid_post_path(path@, texts(patterns@)) {
                r matches Err(Error::PostPathInvaild(at)) && at@ == path@
            } else if is_dir || present {
                r matches Err(Error::PostPathExisted(at)) && at@ == path@
            } else {
                r matches Ok(action) && action@ == (ActionView::WriteFile {
                    path: post_file(self.root@, path@),
                    content: encode_utf8(new_post_text(created, texts(tags@))),
                })
            },
    {
        let no_stem: bool = file_stem(path).is_none();
        if !is_relative(path) || extension(path).is_some() || path.is_empty() || no_stem
            || is_ignored(patterns, path) {
            return Err(Error::PostPathInvaild(path.to_owned()));
        }
        if is_dir || present {
            return Err(Error::PostPathExisted(path.to_owned()));
        }
        let file = self.post_file_path(path);
        let date = concat("date: ", date_string(created).as_str());
        let head = concat(concat(date.as_str(), "\ntags: ").as_str(), join_texts(tags, ", ").as_str());
        let text = concat(head.as_str(), "\n\nthis is a new post!\n");
        Ok(Action::WriteFile { path: file, content: text.as_str().as_bytes_vec() })
    }

    /// The directory of the theme `name`.
    pub fn theme_dir(&self, name: &str) -> (dir: String)
        ensures
            dir@ == theme_path(self.root@, name@),
    {
        let themes = join(self.root.as_str(), "_themes");
        join(themes.as_str(), name)
    }

    /// What removes the theme `name`. The theme in use cannot be removed;
    /// `is_dir` says whether the directory of `theme_dir` is there.
    pub fn delete_blog_theme(&self, name: &str, is_dir: bool) -> (r: Result<Action, Error>)
        ensures
            if self.settings.theme@ == name@ {
                r matches Err(Error::ThemeInUse(theme)) && theme@ == name@
            } else if !is_dir {
                r matches Err(Error::ThemeNotFound(theme)) && theme@ == name@
            } else {
                r matches Ok(action) && action@ == (ActionView::RemoveDir {
                    path: theme_path(self.root@, name@),
                })
            },
    {
        if same(self.settings.theme.as_str(), name) {
            return Err(Error::ThemeInUse(name.to_owned()));
        }
        if !is_dir {
            return Err(Error::ThemeNotFound(name.to_owned()));
        }
        Ok(Action::RemoveDir { path: self.theme_dir(name) })
    }

    /// Makes `name` the theme of the blog. `is_dir` says whether the
    /// directory of `theme_dir` is there; where it is not, the blog stays as
    /// it was.
    pub fn set_blog_theme(&mut self, name: &str, is_dir: bool) -> (r: Result<(), Error>)
        ensures
            if is_dir {
                &&& r is Ok
                &&& final(self).settings.theme@ == name@
                &&& final(self).settings.site_logo == old(self).settings.site_logo
                &&& final(self).settings.site_name == old(self).settings.site_name
                &&& final(self).settings.site_motto == old(self).settings.site_motto
                &&& final(self).settings.footer_note == old(self).settings.footer_note
                &&& final(self).settings.build_dir == old(self).settings.build_dir
                &&& final(self).settings.rebuild_interval == old(self).settings.rebuild_interval
            } else {
                &&& r matches Err(Error::ThemeNotFound(theme))
                &&& theme@ == name@
                &&& final(self).settings == old(self).settings
            },
            final(self).root == old(self).root,
            final(self).theme == old(self).theme,
            final(self).posts == old(self).posts,
            final(self).tags == old(self).tags,
    {
        if !is_dir {
            return Err(Error::ThemeNotFound(name.to_owned()));
        }
        self.settings.theme = name.to_owned();
        Ok(())
    }
}

} // verus!
