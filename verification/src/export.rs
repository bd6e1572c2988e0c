//! The export: what has to be done to the build directory, in order.
//! Nothing is written or rendered here: the caller carries the steps out.
//! For a page it renders the template with the context that the step holds,
//! and writes what `page_of` and `write_page` make of the outcome.

use crate::blog::{parse_all, sources, Mdblog, SourceFile};
use crate::errors::Error;
use crate::paths::{
    expand, is_relative, join, path_is_relative, path_join, path_strip_prefix, plain,
    strip_prefix,
};
use crate::post::{refuses, PostView};
use crate::render::{
    first_lacking, index_rendering, lemma_first_lacking, lemma_index_lacks_no_tag, missing_tag,
    names_missing_tag, post_rendering, tag_rendering, Rendering, RenderingView,
};
use crate::settings::Settings;
use crate::tags::{lemma_tag_position, TagView};
use crate::text::concat;
use crate::theme::Asset;
use vstd::prelude::*;
use vstd::string::*;

verus! {

/// One step of an export as plain values.
pub enum ActionView {
    /// Make the directory `path`, and those above it.
    CreateDir { path: Seq<char> },
    /// Remove the directory `path` with all it holds.
    RemoveDir { path: Seq<char> },
    /// Copy the file `from` to `to`, byte for byte.
    CopyFile { from: Seq<char>, to: Seq<char> },
    /// Write `content` to the file `path`, in place of what it held.
    WriteFile { path: Seq<char>, content: Seq<u8> },
    /// Render `page`, and write the page it gives to the file `path`.
    RenderPage { path: Seq<char>, page: RenderingView },
}

/// One step of an export.
#[derive(Debug, PartialEq)]
pub enum Action {
    /// Make the directory `path`, and those above it.
    CreateDir { path: String },
    /// Remove the directory `path` with all it holds.
    RemoveDir { path: String },
    /// Copy the file `from` to `to`, byte for byte.
    CopyFile { from: String, to: String },
    /// Write `content` to the file `path`, in place of what it held.
    WriteFile { path: String, content: Vec<u8> },
    /// Render `page`, and write the page it gives to the file `path`.
    RenderPage { path: String, page: Rendering },
}

impl View for Action {
    type V = ActionView;

    open spec fn view(&self) -> ActionView {
        match self {
            Action::CreateDir { path } => ActionView::CreateDir { path: path@ },
            Action::RemoveDir { path } => ActionView::RemoveDir { path: path@ },
            Action::CopyFile { from, to } => ActionView::CopyFile { from: from@, to: to@ },
            Action::WriteFile { path, content } => ActionView::WriteFile {
                path: path@,
                content: content@,
            },
            Action::RenderPage { path, page } => ActionView::RenderPage { path: path@, page: page@ },
        }
    }
}

/// The steps of `actions` as plain values.
pub open spec fn action_views(actions: Seq<Action>) -> Seq<ActionView> {
    actions.map_values(|a: Action| a@)
}

/// One entry of the walk through the media directory.
#[derive(Debug, Clone, PartialEq, Eq)]
pub struct MediaEntry {
    /// The entry's path, the blog's root in front.
    pub path: String,
    /// Whether the entry is a directory.
    pub is_dir: bool,
}

/// The entries of `entries` as plain values: path, and whether a directory.
pub open spec fn media_views(entries: Seq<MediaEntry>) -> Seq<(Seq<char>, bool)> {
    entries.map_values(|e: MediaEntry| (e.path@, e.is_dir))
}

/// The build directory that the expanded setting `expanded` stands for: a
/// relative one lies under the blog's root.
pub open spec fn resolved_build_dir(root: Seq<char>, expanded: Seq<char>) -> Seq<char> {
    if path_is_relative(expanded) {
        path_join(root, expanded)
    } else {
        expanded
    }
}

/// The blog's media directory.
pub open spec fn media_dir(root: Seq<char>) -> Seq<char> {
    path_join(root, "media"@)
}

/// Where the media file `media` goes: its path under the media directory,
/// under the build directory. `None` where it does not lie under the media
/// directory.
pub open spec fn media_target(root: Seq<char>, build_dir: Seq<char>, media: Seq<char>) -> Option<
    Seq<char>,
> {
    match path_strip_prefix(media, media_dir(root)) {
        Some(rest) => Some(path_join(build_dir, rest)),
        None => None,
    }
}

/// What is done for one entry of the media directory: a directory is made, a
/// file is copied.
pub open spec fn media_action(
    root: Seq<char>,
    build_dir: Seq<char>,
    entry: (Seq<char>, bool),
) -> Option<ActionView> {
    match media_target(root, build_dir, entry.0) {
        Some(target) => Some(
            if entry.1 {
                ActionView::CreateDir { path: target }
            } else {
                ActionView::CopyFile { from: entry.0, to: target }
            },
        ),
        None => None,
    }
}

/// What is done for the entries of the media directory, in their order;
/// where an entry does not lie under the media directory, the place of the
/// first such entry.
pub open spec fn media_actions(
    root: Seq<char>,
    build_dir: Seq<char>,
    entries: Seq<(Seq<char>, bool)>,
) -> Result<Seq<ActionView>, int>
    decreases entries.len(),
{
    if entries.len() == 0 {
        Ok(Seq::empty())
    } else {
        match media_actions(root, build_dir, entries.drop_last()) {
            Err(at) => Err(at),
            Ok(actions) => match media_action(root, build_dir, entries.last()) {
                Some(action) => Ok(actions.push(action)),
                None => Err(entries.len() - 1),
            },
        }
    }
}

/// What is done for the static files of the theme: each is written under
/// the build directory.
pub open spec fn static_actions(build_dir: Seq<char>, assets: Seq<Asset>) -> Seq<ActionView> {
    assets.map_values(
        |a: Asset| ActionView::WriteFile { path: path_join(build_dir, a.path@), content: a.content@ },
    )
}

/// Where the index page goes.
pub open spec fn index_target(build_dir: Seq<char>) -> Seq<char> {
    path_join(build_dir, "index.html"@)
}

/// Where the page of the tag `name` goes.
pub open spec fn tag_target(build_dir: Seq<char>, name: Seq<char>) -> Seq<char> {
    path_join(build_dir, "blog/tags/"@ + name + ".html"@)
}

/// What makes the page of `post`: its rendering, and where the page goes.
pub open spec fn post_page(
    settings: Settings,
    build_dir: Seq<char>,
    post: PostView,
    tags: Seq<TagView>,
) -> ActionView {
    ActionView::RenderPage {
        path: path_join(build_dir, post.dest),
        page: post_rendering(settings, post, tags),
    }
}

/// What makes the pages of the posts, hidden or not, in the order of the
/// collection.
pub open spec fn post_pages(
    settings: Settings,
    build_dir: Seq<char>,
    posts: Seq<PostView>,
    tags: Seq<TagView>,
) -> Seq<ActionView> {
    posts.map_values(|post: PostView| post_page(settings, build_dir, post, tags))
}

/// What makes the index page.
pub open spec fn index_page(
    settings: Settings,
    build_dir: Seq<char>,
    posts: Seq<PostView>,
    tags: Seq<TagView>,
) -> ActionView {
    ActionView::RenderPage {
        path: index_target(build_dir),
        page: index_rendering(settings, posts, tags),
    }
}

/// What makes the page of the tag `name`.
pub open spec fn tag_page(
    settings: Settings,
    build_dir: Seq<char>,
    posts: Seq<PostView>,
    tags: Seq<TagView>,
    name: Seq<char>,
) -> ActionView {
    ActionView::RenderPage {
        path: tag_target(build_dir, name),
        page: tag_rendering(settings, posts, tags, name),
    }
}

/// What makes the pages of the tags, in the order of the index.
pub open spec fn tag_pages(
    settings: Settings,
    build_dir: Seq<char>,
    posts: Seq<PostView>,
    tags: Seq<TagView>,
) -> Seq<ActionView> {
    tags.map_values(|tag: TagView| tag_page(settings, build_dir, posts, tags, tag.name))
}

/// What makes all the pages: those of the posts, the index page, those of
/// the tags.
pub open spec fn pages(
    settings: Settings,
    build_dir: Seq<char>,
    posts: Seq<PostView>,
    tags: Seq<TagView>,
) -> Seq<ActionView> {
    post_pages(settings, build_dir, posts, tags).push(
        index_page(settings, build_dir, posts, tags),
    ) + tag_pages(settings, build_dir, posts, tags)
}

/// A media entry outside the media directory makes the whole fail,
/// whatever follows it.
proof fn lemma_media_actions_prefix(
    root: Seq<char>,
    build_dir: Seq<char>,
    entries: Seq<(Seq<char>, bool)>,
    k: int,
)
    requires
        0 <= k <= entries.len(),
        media_actions(root, build_dir, entries.take(k)) is Err,
    ensures
        media_actions(root, build_dir, entries) == media_actions(root, build_dir, entries.take(k)),
    decreases entries.len() - k,
{
    if k < entries.len() {
        assert(entries.take(k + 1).drop_last() =~= entries.take(k));
        lemma_media_actions_prefix(root, build_dir, entries, k + 1);
    } else {
        assert(entries.take(k) =~= entries);
    }
}

/// The build directory that the expanded setting `expanded` stands for.
pub fn resolve_build_dir(root: &str, expanded: &str) -> (build_dir: String)
    ensures
        build_dir@ == resolved_build_dir(root@, expanded@),
{
    if is_relative(expanded) {
        join(root, expanded)
    } else {
        expanded.to_owned()
    }
}

/// The step that writes `html` to `path`.
pub fn write_page(path: String, html: &str) -> (action: Action)
    ensures
        action@ == (ActionView::WriteFile { path: path@, content: html.spec_bytes() }),
{
    Action::WriteFile { path, content: html.as_bytes_vec() }
}

impl Mdblog {
    /// The build directory: the setting, expanded by the shell's rules, and
    /// put under the blog's root where it is relative.
    ///
    /// A setting without `$` and without a leading `~` stands for itself.
    /// What the expansion of another gives depends on the environment;
    /// whatever it gives is resolved as `resolve_build_dir` says.
    pub fn get_build_dir(&self) -> (r: Result<String, Error>)
        ensures
            match r {
                Ok(build_dir) => exists|expanded: Seq<char>|
                    build_dir@ == resolved_build_dir(self.root@, expanded),
                Err(failure) => failure is Config,
            },
            plain(self.settings.build_dir@) ==> (r matches Ok(build_dir) && build_dir@
                == resolved_build_dir(self.root@, self.settings.build_dir@)),
    {
        match expand(self.settings.build_dir.as_str()) {
            Err(name) => Err(Error::Config(name)),
            Ok(expanded) => Ok(resolve_build_dir(self.root.as_str(), expanded.as_str())),
        }
    }

    /// Where the media file `media` goes under `build_dir`.
    pub fn media_dest(&self, build_dir: &str, media: &str) -> (r: Result<String, Error>)
        ensures
            match media_target(self.root@, build_dir@, media@) {
                Some(target) => r matches Ok(dest) && dest@ == target,
                None => r matches Err(Error::PathPrefix(path)) && path@ == media@,
            },
    {
        let from = join(self.root.as_str(), "media");
        match strip_prefix(media, from.as_str()) {
            Some(rest) => Ok(join(build_dir, rest.as_str())),
            None => Err(Error::PathPrefix(media.to_owned())),
        }
    }

    /// What mirrors the media directory under `build_dir`: for each entry of
    /// the walk, in its order, a directory to make or a file to copy.
    pub fn export_media(&self, build_dir: &str, entries: &Vec<MediaEntry>) -> (r: Result<
        Vec<Action>,
        Error,
    >)
        ensures
            match media_actions(self.root@, build_dir@, media_views(entries@)) {
                Ok(expected) => r matches Ok(actions) && action_views(actions@) == expected,
                Err(at) => {
                    &&& 0 <= at < entries.len()
                    &&& r matches Err(Error::PathPrefix(path))
                    &&& path@ == entries@[at].path@
                },
            },
    {
        let ghost all = media_views(entries@);
        let mut actions: Vec<Action> = Vec::new();
        let mut i: usize = 0;
        assert(all.take(0) =~= Seq::<(Seq<char>, bool)>::empty());
        assert(action_views(actions@) =~= Seq::empty());
        while i < entries.len()
            invariant
                0 <= i <= entries.len(),
                all == media_views(entries@),
                media_actions(self.root@, build_dir@, all.take(i as int)) == Ok::<
                    Seq<ActionView>,
                    int,
                >(action_views(actions@)),
            decreases entries.len() - i,
        {
            assert(all.take(i + 1).drop_last() =~= all.take(i as int));
            assert(all.take(i + 1).last() == (entries@[i as int].path@, entries@[i as int].is_dir));
            let dest = match self.media_dest(build_dir, entries[i].path.as_str()) {
                Ok(dest) => dest,
                Err(failure) => {
                    proof {
                        assert(media_actions(self.root@, build_dir@, all.take(i + 1)) is Err);
                        lemma_media_actions_prefix(self.root@, build_dir@, all, i + 1);
                    }
                    return Err(failure);
                },
            };
            let action = if entries[i].is_dir {
                Action::CreateDir { path: dest }
            } else {
                Action::CopyFile { from: entries[i].path.clone(), to: dest }
            };
            let ghost before = action_views(actions@);
            actions.push(action);
            assert(action_views(actions@) =~= before.push(action@));
            i += 1;
        }
        assert(all.take(entries.len() as int) =~= all);
        Ok(actions)
    }

    /// What puts the static files of the theme under `build_dir`.
    pub fn export_static(&self, build_dir: &str) -> (r: Result<Vec<Action>, Error>)
        ensures
            r matches Ok(actions) && action_views(actions@) == static_actions(
                build_dir@,
                self.theme.assets@,
            ),
    {
        let mut actions: Vec<Action> = Vec::new();
        let mut i: usize = 0;
        assert(action_views(actions@) =~= static_actions(build_dir@, self.theme.assets@).take(0));
        while i < self.theme.assets.len()
            invariant
                0 <= i <= self.theme.assets.len(),
                action_views(actions@) == static_actions(build_dir@, self.theme.assets@).take(
                    i as int,
                ),
            decreases self.theme.assets.len() - i,
        {
            let asset = &self.theme.assets[i];
            let action = Action::WriteFile {
                path: join(build_dir, asset.path.as_str()),
                content: asset.content.clone(),
            };
            let ghost before = action_views(actions@);
            actions.push(action);
            assert(action_views(actions@) =~= before.push(action@));
            assert(static_actions(build_dir@, self.theme.assets@).take(i + 1) =~= before.push(
                action@,
            ));
            i += 1;
        }
        assert(static_actions(build_dir@, self.theme.assets@).take(
            self.theme.assets.len() as int,
        ) =~= static_actions(build_dir@, self.theme.assets@));
        Ok(actions)
    }

    /// What makes the page of every post, hidden or not, under `build_dir`:
    /// for each post, in the order of the collection, its rendering and
    /// where the page goes.
    ///
    /// The first post that lacks a tag is the failure of the whole.
    pub fn export_posts(&self, build_dir: &str) -> (r: Result<Vec<Action>, Error>)
        ensures
            if first_lacking(self.posts_view(), self.tags_view()) < self.posts@.len() {
                r matches Err(failure) && names_missing_tag(
                    failure,
                    self.posts_view(),
                    self.tags_view(),
                )
            } else {
                r matches Ok(actions) && action_views(actions@) == post_pages(
                    self.settings,
                    build_dir@,
                    self.posts_view(),
                    self.tags_view(),
                )
            },
    {
        let ghost expected = post_pages(
            self.settings,
            build_dir@,
            self.posts_view(),
            self.tags_view(),
        );
        let mut actions: Vec<Action> = Vec::new();
        let mut i: usize = 0;
        assert(action_views(actions@) =~= expected.take(0));
        while i < self.posts.len()
            invariant
                0 <= i <= self.posts.len(),
                expected == post_pages(
                    self.settings,
                    build_dir@,
                    self.posts_view(),
                    self.tags_view(),
                ),
                action_views(actions@) == expected.take(i as int),
                forall|j: int|
                    0 <= j < i ==> missing_tag(
                        #[trigger] self.posts_view()[j],
                        self.tags_view(),
                    ) is None,
            decreases self.posts.len() - i,
        {
            let post = &self.posts[i];
            proof {
                assert(self.posts_view()[i as int] == post@);
                lemma_first_lacking(self.posts_view(), self.tags_view());
            }
            let page = match self.render_post(post) {
                Ok(page) => page,
                Err(failure) => {
                    return Err(failure);
                },
            };
            let action = Action::RenderPage { path: join(build_dir, post.dest.as_str()), page };
            let ghost before = action_views(actions@);
            actions.push(action);
            proof {
                assert(action_views(actions@) =~= before.push(action@));
                assert(expected[i as int] == action@);
                assert(expected.take(i + 1) =~= expected.take(i as int).push(expected[i as int]));
            }
            i += 1;
        }
        proof {
            assert(expected.take(self.posts.len() as int) =~= expected);
            lemma_first_lacking(self.posts_view(), self.tags_view());
        }
        Ok(actions)
    }

    /// What makes the index page under `build_dir`.
    pub fn export_index(&self, build_dir: &str) -> (r: Result<Vec<Action>, Error>)
        ensures
            r matches Ok(actions) && action_views(actions@) == seq![
                index_page(self.settings, build_dir@, self.posts_view(), self.tags_view()),
            ],
    {
        let page = match self.render_index() {
            Ok(page) => page,
            Err(failure) => {
                return Err(failure);
            },
        };
        let mut actions: Vec<Action> = Vec::new();
        let action = Action::RenderPage { path: join(build_dir, "index.html"), page };
        actions.push(action);
        assert(action_views(actions@) =~= seq![action@]);
        Ok(actions)
    }

    /// What makes the page of every tag of the index under `build_dir`, in
    /// the order of the index.
    pub fn export_tags(&self, build_dir: &str) -> (r: Result<Vec<Action>, Error>)
        ensures
            r matches Ok(actions) && action_views(actions@) == tag_pages(
                self.settings,
                build_dir@,
                self.posts_view(),
                self.tags_view(),
            ),
    {
        let ghost expected = tag_pages(
            self.settings,
            build_dir@,
            self.posts_view(),
            self.tags_view(),
        );
        let mut actions: Vec<Action> = Vec::new();
        let mut i: usize = 0;
        assert(action_views(actions@) =~= expected.take(0));
        while i < self.tags.len()
            invariant
                0 <= i <= self.tags.len(),
                expected == tag_pages(
                    self.settings,
                    build_dir@,
                    self.posts_view(),
                    self.tags_view(),
                ),
                action_views(actions@) == expected.take(i as int),
            decreases self.tags.len() - i,
        {
            let name = self.tags[i].name.as_str();
            let file = concat(concat("blog/tags/", name).as_str(), ".html");
            proof {
                assert(self.tags_view()[i as int] == self.tags@[i as int]@);
                lemma_tag_position(self.tags_view(), name@);
            }
            let page = match self.render_tag(name) {
                Ok(page) => page,
                Err(failure) => {
                    return Err(failure);
                },
            };
            let action = Action::RenderPage { path: join(build_dir, file.as_str()), page };
            let ghost before = action_views(actions@);
            actions.push(action);
            proof {
                assert(action_views(actions@) =~= before.push(action@));
                assert(expected[i as int] == action@);
                assert(expected.take(i + 1) =~= expected.take(i as int).push(expected[i as int]));
            }
            i += 1;
        }
        assert(expected.take(self.tags.len() as int) =~= expected);
        Ok(actions)
    }

    /// Whether `r` is the outcome of the whole export to `build_dir`: the
    /// steps for the media, those for the static files, and what makes the
    /// page of each post, the index page and the page of each tag, in this
    /// order; or the failure of the first step that cannot be made.
    pub open spec fn exports(
        &self,
        build_dir: Seq<char>,
        entries: Seq<(Seq<char>, bool)>,
        r: Result<Vec<Action>, Error>,
    ) -> bool {
        match media_actions(self.root@, build_dir, entries) {
            Ok(media) => if first_lacking(self.posts_view(), self.tags_view()) < self.posts@.len() {
                r matches Err(failure) && names_missing_tag(
                    failure,
                    self.posts_view(),
                    self.tags_view(),
                )
            } else {
                r matches Ok(actions) && action_views(actions@) == media + static_actions(
                    build_dir,
                    self.theme.assets@,
                ) + pages(self.settings, build_dir, self.posts_view(), self.tags_view())
            },
            Err(at) => {
                &&& 0 <= at < entries.len()
                &&& r matches Err(Error::PathPrefix(path))
                &&& path@ == entries[at].0
            },
        }
    }

    /// The whole export to `build_dir`: the media, the static files of the
    /// theme, the pages of the posts, the index page, the pages of the tags,
    /// in this order.
    pub fn export(&self, build_dir: &str, entries: &Vec<MediaEntry>) -> (r: Result<
        Vec<Action>,
        Error,
    >)
        ensures
            self.exports(build_dir@, media_views(entries@), r),
    {
        let mut actions = match self.export_media(build_dir, entries) {
            Ok(actions) => actions,
            Err(failure) => {
                return Err(failure);
            },
        };
        let ghost media = action_views(actions@);
        let mut placed = match self.export_static(build_dir) {
            Ok(actions) => actions,
            Err(failure) => {
                return Err(failure);
            },
        };
        let ghost statics = action_views(placed@);
        let mut posts = match self.export_posts(build_dir) {
            Ok(actions) => actions,
            Err(failure) => {
                return Err(failure);
            },
        };
        let ghost post_steps = action_views(posts@);
        let mut index = match self.export_index(build_dir) {
            Ok(actions) => actions,
            Err(failure) => {
                return Err(failure);
            },
        };
        let ghost index_steps = action_views(index@);
        let mut tags = match self.export_tags(build_dir) {
            Ok(actions) => actions,
            Err(failure) => {
                return Err(failure);
            },
        };
        let ghost tag_steps = action_views(tags@);
        actions.append(&mut placed);
        actions.append(&mut posts);
        actions.append(&mut index);
        actions.append(&mut tags);
        proof {
            let all = pages(self.settings, build_dir@, self.posts_view(), self.tags_view());
            assert(all =~= post_steps + index_steps + tag_steps);
            assert(action_views(actions@) =~= media + statics + all);
        }
        Ok(actions)
    }

    /// The build of the site: the whole export.
    pub fn build(&self, build_dir: &str, entries: &Vec<MediaEntry>) -> (r: Result<
        Vec<Action>,
        Error,
    >)
        ensures
            self.exports(build_dir@, media_views(entries@), r),
    {
        self.export(build_dir, entries)
    }

    /// One rebuild: the posts are loaded from `files`, and the site is
    /// exported to `build_dir`.
    ///
    /// Where a file is no post, nothing is exported and the blog stays as
    /// it was. Else the blog holds the new posts, and the export fails only
    /// for a media entry outside the media directory.
    pub fn rebuild(
        &mut self,
        files: &Vec<SourceFile>,
        build_dir: &str,
        entries: &Vec<MediaEntry>,
    ) -> (r: Result<Vec<Action>, Error>)
        ensures
            match parse_all(sources(files@)) {
                Err((at, why)) => {
                    &&& 0 <= at < files.len()
                    &&& r matches Err(failure)
                    &&& refuses(failure, files@[at].path@, why)
                    &&& *final(self) == *old(self)
                },
                Ok(_) => {
                    &&& final(self).holds_posts_of(sources(files@))
                    &&& final(self).consistent()
                    &&& final(self).exports(build_dir@, media_views(entries@), r)
                    &&& r matches Err(failure) ==> failure is PathPrefix
                },
            },
            final(self).root == old(self).root,
            final(self).settings == old(self).settings,
            final(self).theme == old(self).theme,
    {
        match self.load(files) {
            Err(failure) => Err(failure),
            Ok(()) => {
                proof {
                    lemma_index_lacks_no_tag(self.posts_view());
                }
                self.export(build_dir, entries)
            },
        }
    }
}

} // verus!
