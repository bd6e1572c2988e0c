//! The blog: its settings, its theme, its posts and their tag index.

use crate::errors::Error;
use crate::order::{insertion_point, lemma_insertion_point_step};
use crate::post::{parse_post, refuses, Malformed, Post, PostView};
use crate::settings::Settings;
use crate::tags::{
    build_index, newer, newest_first, post_views, tag_index, tag_views, Tag, TagView,
};
use crate::text::{ends_with, has_prefix, has_suffix, starts_with};
use crate::theme::Theme;
use vstd::prelude::*;

verus! {

/// Whether the walk passes over an entry of this name, and over all that
/// lies under it: the name starts with a dot.
pub fn is_hidden(name: &str) -> (hidden: bool)
    ensures
        hidden == starts_with(name@, "."@),
{
    has_prefix(name, ".")
}

/// Whether an entry of the walk is a post: a file whose name ends in `.md`
/// and starts neither with a dot nor with a tilde.
pub fn is_markdown_file(name: &str, is_file: bool) -> (markdown: bool)
    ensures
        markdown == (is_file && !starts_with(name@, "."@) && !starts_with(name@, "~"@)
            && ends_with(name@, ".md"@)),
{
    if !is_file {
        return false;
    }
    if has_prefix(name, ".") || has_prefix(name, "~") {
        false
    } else {
        has_suffix(name, ".md")
    }
}

/// The text of one file under the posts directory.
#[derive(Debug, Clone, PartialEq, Eq)]
pub struct SourceFile {
    /// Where the file lies, relative to the blog's root.
    pub path: String,
    /// What the file holds.
    pub content: String,
}

/// The files of `files` as plain values: path and content.
pub open spec fn sources(files: Seq<SourceFile>) -> Seq<(Seq<char>, Seq<char>)> {
    files.map_values(|f: SourceFile| (f.path@, f.content@))
}

/// The posts that the files are, in the order of the files; where a file is
/// no post, the place of the first such file and what is wrong with it.
pub open spec fn parse_all(files: Seq<(Seq<char>, Seq<char>)>) -> Result<
    Seq<PostView>,
    (int, Malformed),
>
    decreases files.len(),
{
    if files.len() == 0 {
        Ok(Seq::empty())
    } else {
        match parse_all(files.drop_last()) {
            Err(failure) => Err(failure),
            Ok(posts) => match parse_post(files.last().0, files.last().1) {
                Ok(post) => Ok(posts.push(post)),
                Err(why) => Err((files.len() - 1, why)),
            },
        }
    }
}

/// A file that is no post makes the whole of the files fail, whatever
/// follows it.
proof fn lemma_parse_all_prefix(files: Seq<(Seq<char>, Seq<char>)>, k: int)
    requires
        0 <= k <= files.len(),
        parse_all(files.take(k)) is Err,
    ensures
        parse_all(files) == parse_all(files.take(k)),
    decreases files.len() - k,
{
    if k < files.len() {
        assert(files.take(k + 1).drop_last() =~= files.take(k));
        lemma_parse_all_prefix(files, k + 1);
    } else {
        assert(files.take(k) =~= files);
    }
}

/// Reads every file as a post and puts the posts in order, the newest first.
/// The first file that is no post makes the whole fail.
pub fn load_posts(files: &Vec<SourceFile>) -> (r: Result<Vec<Post>, Error>)
    ensures
        match parse_all(sources(files@)) {
            Ok(parsed) => r matches Ok(posts) && post_views(posts@) == newest_first(parsed),
            Err((at, why)) => {
                &&& 0 <= at < files.len()
                &&& r matches Err(failure)
                &&& refuses(failure, files@[at].path@, why)
            },
        },
{
    let ghost all = sources(files@);
    let ghost mut parsed: Seq<PostView> = Seq::empty();
    let mut posts: Vec<Post> = Vec::new();
    let mut i: usize = 0;
    assert(all.take(0) =~= Seq::<(Seq<char>, Seq<char>)>::empty());
    assert(post_views(posts@) =~= Seq::empty());
    while i < files.len()
        invariant
            0 <= i <= files.len(),
            all == sources(files@),
            parse_all(all.take(i as int)) == Ok::<Seq<PostView>, (int, Malformed)>(parsed),
            post_views(posts@) == newest_first(parsed),
        decreases files.len() - i,
    {
        assert(all.take(i + 1).drop_last() =~= all.take(i as int));
        assert(all.take(i + 1).last() == (files@[i as int].path@, files@[i as int].content@));
        let post = match Post::parse(files[i].path.as_str(), files[i].content.as_str()) {
            Ok(post) => post,
            Err(failure) => {
                proof {
                    assert(parse_all(all.take(i + 1)) is Err);
                    lemma_parse_all_prefix(all, i + 1);
                }
                return Err(failure);
            },
        };
        let ghost sorted = post_views(posts@);
        let mut k: usize = 0;
        assert(sorted.skip(0) =~= sorted);
        while k < posts.len() && !(post.datetime > posts[k].datetime)
            invariant
                0 <= k <= posts.len(),
                sorted == post_views(posts@),
                insertion_point(sorted, post@, newer()) == k + insertion_point(
                    sorted.skip(k as int),
                    post@,
                    newer(),
                ),
            decreases posts.len() - k,
        {
            proof {
                assert(sorted[k as int] == posts@[k as int]@);
                lemma_insertion_point_step(sorted, post@, newer(), k as int);
            }
            k += 1;
        }
        proof {
            if k < posts.len() {
                assert(sorted.skip(k as int)[0] == posts@[k as int]@);
            }
            assert(insertion_point(sorted, post@, newer()) == k);
            assert(parsed.push(post@).drop_last() =~= parsed);
            parsed = parsed.push(post@);
        }
        posts.insert(k, post);
        assert(post_views(posts@) =~= sorted.insert(k as int, post@));
        i += 1;
    }
    assert(all.take(files.len() as int) =~= all);
    Ok(posts)
}

/// A blog.
pub struct Mdblog {
    /// The blog's root directory.
    pub root: String,
    /// The blog's settings.
    pub settings: Settings,
    /// The blog's theme.
    pub theme: Theme,
    /// The posts, the newest first.
    pub posts: Vec<Post>,
    /// The tag index of the posts.
    pub tags: Vec<Tag>,
}

impl Mdblog {
    /// The posts as plain values.
    pub open spec fn posts_view(&self) -> Seq<PostView> {
        post_views(self.posts@)
    }

    /// The tag index as plain values.
    pub open spec fn tags_view(&self) -> Seq<TagView> {
        tag_views(self.tags@)
    }

    /// The tag index is the index of the posts.
    pub open spec fn consistent(&self) -> bool {
        self.tags_view() == tag_index(self.posts_view())
    }

    /// The blog holds the posts that `files` are, and their index.
    pub open spec fn holds_posts_of(&self, files: Seq<(Seq<char>, Seq<char>)>) -> bool {
        &&& parse_all(files) matches Ok(parsed)
        &&& self.posts_view() == newest_first(parsed)
        &&& self.tags_view() == tag_index(newest_first(parsed))
    }

    /// A blog at `root` without posts.
    pub fn new(root: &str, settings: Settings, theme: Theme) -> (blog: Mdblog)
        ensures
            blog.root@ == root@,
            blog.settings == settings,
            blog.theme == theme,
            blog.posts@.len() == 0,
            blog.tags@.len() == 0,
            blog.consistent(),
    {
        let blog = Mdblog {
            root: root.to_owned(),
            settings,
            theme,
            posts: Vec::new(),
            tags: Vec::new(),
        };
        assert(blog.posts_view() =~= Seq::empty());
        assert(blog.tags_view() =~= tag_index(blog.posts_view()));
        blog
    }

    /// Replaces the posts and the tag index by what `files` hold: the text
    /// of each markdown file under the posts directory, in the order in
    /// which the directory was walked.
    ///
    /// Where a file is no post the blog stays as it was.
    pub fn load(&mut self, files: &Vec<SourceFile>) -> (r: Result<(), Error>)
        ensures
            match parse_all(sources(files@)) {
                Ok(parsed) => r is Ok && final(self).holds_posts_of(sources(files@)),
                Err((at, why)) => {
                    &&& 0 <= at < files.len()
                    &&& r matches Err(failure)
                    &&& refuses(failure, files@[at].path@, why)
                },
            },
            r is Ok ==> final(self).consistent(),
            r is Err ==> *final(self) == *old(self),
            final(self).root == old(self).root,
            final(self).settings == old(self).settings,
            final(self).theme == old(self).theme,
    {
        match load_posts(files) {
            Err(failure) => Err(failure),
            Ok(posts) => {
                let tags = build_index(&posts);
                self.posts = posts;
                self.tags = tags;
                Ok(())
            },
        }
    }
}

/// Loading the same files twice gives the same posts and the same index.
pub proof fn lemma_load_is_repeatable(
    first: Mdblog,
    second: Mdblog,
    files: Seq<(Seq<char>, Seq<char>)>,
)
    requires
        first.holds_posts_of(files),
        second.holds_posts_of(files),
    ensures
        first.posts_view() == second.posts_view(),
        first.tags_view() == second.tags_view(),
{
}

} // verus!
