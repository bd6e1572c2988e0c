//! The contexts of the pages, and what is to be rendered.
//!
//! Every page gets the site's texts and the list of all tags; a post's page
//! gets its content, date and tags besides, the index page and a tag's page
//! a listing of posts.

use crate::blog::Mdblog;
use crate::errors::Error;
use crate::markdown::markdown_html;
use crate::order::{
    insertion_point, lemma_insertion_point_step, lemma_stable_sort_ordered,
    lemma_stable_sort_permutes, ordered, stable_sort,
};
use crate::post::{date_string, date_text, post_record, Post, PostView};
use crate::settings::Settings;
use crate::tags::{
    carries, find_tag, indices, lemma_tag_names, lemma_tag_position, post_views, tag_index,
    tag_names, tag_position, tag_views, Tag, TagView,
};
use crate::template::{
    context_lists, context_texts, new_context, new_record, no_lists, no_texts, record_fields,
    records_view, set_field, set_list, set_text,
};
use crate::text::{
    concat, decimal, lemma_lex_irreflexive, lemma_lex_transitive, less, lex_lt, lowercased, texts,
    to_chars, to_decimal, to_lowercase,
};
use vstd::prelude::*;

verus! {

/// The address of a tag's page on the site.
pub open spec fn tag_address(name: Seq<char>) -> Seq<char> {
    "/blog/tags/"@ + name + ".html"@
}

/// A tag as the pages show it: its name, the number of its posts and the
/// address of its page.
pub open spec fn tag_record(name: Seq<char>, count: nat) -> Map<Seq<char>, Seq<char>> {
    no_texts().insert("name"@, name).insert("num"@, decimal(count)).insert(
        "url"@,
        tag_address(name),
    )
}

/// The order of the tags on the pages: by name, letter case aside.
pub open spec fn by_lowercase() -> spec_fn(TagView, TagView) -> bool {
    |x: TagView, y: TagView| lex_lt(lowercased(x.name), lowercased(y.name))
}

/// The tags as the pages show them.
pub open spec fn tag_records(tags: Seq<TagView>) -> Seq<Map<Seq<char>, Seq<char>>> {
    stable_sort(tags, by_lowercase()).map_values(
        |tag: TagView| tag_record(tag.name, tag.posts.len()),
    )
}

/// The texts that every page gets.
pub open spec fn base_texts(settings: Settings, title: Seq<char>) -> Map<Seq<char>, Seq<char>> {
    no_texts().insert("title"@, title).insert("site_logo"@, settings.site_logo@).insert(
        "site_name"@,
        settings.site_name@,
    ).insert("site_motto"@, settings.site_motto@).insert("footer_note"@, settings.footer_note@)
}

/// The lists that every page gets.
pub open spec fn base_lists(tags: Seq<TagView>) -> Map<Seq<char>, Seq<Map<Seq<char>, Seq<char>>>> {
    no_lists().insert("all_tags"@, tag_records(tags))
}

/// The posts at `places` as a listing shows them. A place outside the
/// collection and a hidden post are passed over.
pub open spec fn listed(posts: Seq<PostView>, places: Seq<int>) -> Seq<Map<Seq<char>, Seq<char>>>
    decreases places.len(),
{
    if places.len() == 0 {
        Seq::empty()
    } else {
        let before = listed(posts, places.drop_last());
        let at = places.last();
        if 0 <= at < posts.len() && !posts[at].hidden {
            before.push(post_record(posts[at]))
        } else {
            before
        }
    }
}

/// The places of a collection of `n` posts.
pub open spec fn all_places(n: nat) -> Seq<int> {
    Seq::new(n, |i: int| i)
}

/// Whether the index has an entry for `name`.
pub open spec fn has_entry(tags: Seq<TagView>, name: Seq<char>) -> bool {
    0 <= tag_position(tags, name) < tags.len()
}

/// The first of `names` for which the index has no entry.
pub open spec fn first_missing(names: Seq<Seq<char>>, tags: Seq<TagView>) -> Option<Seq<char>>
    decreases names.len(),
{
    if names.len() == 0 {
        None
    } else {
        match first_missing(names.drop_last(), tags) {
            Some(name) => Some(name),
            None => if has_entry(tags, names.last()) {
                None
            } else {
                Some(names.last())
            },
        }
    }
}

/// The tag that keeps the page of `post` from being made: the first of its
/// tags without an entry in the index. A hidden post shows no tags.
pub open spec fn missing_tag(post: PostView, tags: Seq<TagView>) -> Option<Seq<char>> {
    if post.hidden {
        None
    } else {
        first_missing(post.tags, tags)
    }
}

/// The place of the first post whose page a missing tag keeps from being
/// made; the length of `posts` where there is none.
pub open spec fn first_lacking(posts: Seq<PostView>, tags: Seq<TagView>) -> int
    decreases posts.len(),
{
    if posts.len() == 0 {
        0
    } else if missing_tag(posts[0], tags) is Some {
        0
    } else {
        1 + first_lacking(posts.drop_first(), tags)
    }
}

/// Whether `failure` names the tag that the first post lacking one lacks.
pub open spec fn names_missing_tag(failure: Error, posts: Seq<PostView>, tags: Seq<TagView>) -> bool {
    let at = first_lacking(posts, tags);
    &&& 0 <= at < posts.len()
    &&& failure matches Error::TagMissing(tag)
    &&& missing_tag(posts[at], tags) == Some(tag@)
}

/// The tags `names` as a post's page shows them, each with the number of
/// posts that the index lists for it.
pub open spec fn named_records(names: Seq<Seq<char>>, tags: Seq<TagView>) -> Seq<
    Map<Seq<char>, Seq<char>>,
> {
    names.map_values(
        |name: Seq<char>| tag_record(name, tags[tag_position(tags, name)].posts.len()),
    )
}

/// The texts of a post's page. A hidden post shows no date.
pub open spec fn post_texts(settings: Settings, post: PostView) -> Map<Seq<char>, Seq<char>> {
    base_texts(settings, post.title).insert("content"@, markdown_html(post.body)).insert(
        "datetime"@,
        if post.hidden {
            Seq::empty()
        } else {
            date_text(post.datetime)
        },
    )
}

/// The lists of a post's page. A hidden post shows no tags.
pub open spec fn post_lists(post: PostView, tags: Seq<TagView>) -> Map<
    Seq<char>,
    Seq<Map<Seq<char>, Seq<char>>>,
> {
    base_lists(tags).insert(
        "post_tags"@,
        if post.hidden {
            Seq::empty()
        } else {
            named_records(post.tags, tags)
        },
    )
}

/// The lists of a page with a listing of the posts at `places`.
pub open spec fn listing_lists(posts: Seq<PostView>, tags: Seq<TagView>, places: Seq<int>) -> Map<
    Seq<char>,
    Seq<Map<Seq<char>, Seq<char>>>,
> {
    base_lists(tags).insert("posts"@, listed(posts, places))
}

/// What is to be rendered, as plain values.
pub struct RenderingView {
    /// The name of the template.
    pub template: Seq<char>,
    /// The texts of the context.
    pub texts: Map<Seq<char>, Seq<char>>,
    /// The lists of the context.
    pub lists: Map<Seq<char>, Seq<Map<Seq<char>, Seq<char>>>>,
}

/// What is to be rendered: a template, by its name, and its context. The
/// caller renders it; `page_of` says what is made of the outcome.
#[derive(Debug, PartialEq)]
pub struct Rendering {
    /// The name of the template.
    pub template: String,
    /// The context.
    pub context: tera::Context,
}

impl View for Rendering {
    type V = RenderingView;

    open spec fn view(&self) -> RenderingView {
        RenderingView {
            template: self.template@,
            texts: context_texts(self.context),
            lists: context_lists(self.context),
        }
    }
}

/// What renders the page of `post`: the template `post.tpl` with the post's
/// texts and lists.
pub open spec fn post_rendering(settings: Settings, post: PostView, tags: Seq<TagView>) -> RenderingView {
    RenderingView {
        template: "post.tpl"@,
        texts: post_texts(settings, post),
        lists: post_lists(post, tags),
    }
}

/// What renders the index page: the template `index.tpl` with the listing
/// of all posts that are not hidden, under the site's name.
pub open spec fn index_rendering(
    settings: Settings,
    posts: Seq<PostView>,
    tags: Seq<TagView>,
) -> RenderingView {
    RenderingView {
        template: "index.tpl"@,
        texts: base_texts(settings, settings.site_name@),
        lists: listing_lists(posts, tags, all_places(posts.len())),
    }
}

/// What renders the page of the tag `name`: the template `tag.tpl` with
/// the listing of the posts of the first entry for `name`, under `name`.
pub open spec fn tag_rendering(
    settings: Settings,
    posts: Seq<PostView>,
    tags: Seq<TagView>,
    name: Seq<char>,
) -> RenderingView {
    RenderingView {
        template: "tag.tpl"@,
        texts: base_texts(settings, name),
        lists: listing_lists(posts, tags, tags[tag_position(tags, name)].posts),
    }
}

/// The keys of the texts and those of the lists are different words.
proof fn lemma_keys_differ()
    ensures
        "all_tags"@ != "title"@,
        "all_tags"@ != "site_logo"@,
        "all_tags"@ != "site_name"@,
        "all_tags"@ != "site_motto"@,
        "all_tags"@ != "footer_note"@,
        "all_tags"@ != "content"@,
        "all_tags"@ != "datetime"@,
        "post_tags"@ != "title"@,
        "post_tags"@ != "site_logo"@,
        "post_tags"@ != "site_name"@,
        "post_tags"@ != "site_motto"@,
        "post_tags"@ != "footer_note"@,
        "post_tags"@ != "content"@,
        "post_tags"@ != "datetime"@,
        "posts"@ != "title"@,
        "posts"@ != "site_logo"@,
        "posts"@ != "site_name"@,
        "posts"@ != "site_motto"@,
        "posts"@ != "footer_note"@,
{
    reveal_strlit("all_tags");
    reveal_strlit("post_tags");
    reveal_strlit("posts");
    reveal_strlit("title");
    reveal_strlit("site_logo");
    reveal_strlit("site_name");
    reveal_strlit("site_motto");
    reveal_strlit("footer_note");
    reveal_strlit("content");
    reveal_strlit("datetime");
    assert("all_tags"@[0] != "datetime"@[0]);
    assert("post_tags"@[0] != "site_logo"@[0]);
    assert("post_tags"@[0] != "site_name"@[0]);
    assert("posts"@[0] != "title"@[0]);
}

/// The address of a tag's page on the site.
pub fn tag_url(name: &str) -> (url: String)
    ensures
        url@ == tag_address(name@),
{
    let start = concat("/blog/tags/", name);
    concat(start.as_str(), ".html")
}

/// A tag as the pages show it.
pub fn tag_map(name: &str, count: usize) -> (record: serde_json::Map<String, serde_json::Value>)
    ensures
        record_fields(record) == tag_record(name@, count as nat),
{
    let mut record = new_record();
    set_field(&mut record, "name", name);
    set_field(&mut record, "num", to_decimal(count).as_str());
    set_field(&mut record, "url", tag_url(name).as_str());
    record
}

/// The entries at `order`, as plain values.
pub open spec fn picked(tags: Seq<Tag>, order: Seq<usize>) -> Seq<TagView> {
    order.map_values(|i: usize| tags[i as int]@)
}

/// The places of the entries of `tags` in the order of the pages: by name,
/// letter case aside; entries whose names differ in case only stay in the
/// order of `tags`.
pub fn order_by_lowercase(tags: &Vec<Tag>) -> (order: Vec<usize>)
    ensures
        order.len() == tags.len(),
        forall|k: int| 0 <= k < order.len() ==> order@[k] < tags.len(),
        picked(tags@, order@) == stable_sort(tag_views(tags@), by_lowercase()),
{
    let ghost all = tag_views(tags@);
    let mut keys: Vec<Vec<char>> = Vec::new();
    let mut order: Vec<usize> = Vec::new();
    let mut i: usize = 0;
    assert(all.take(0) =~= Seq::<TagView>::empty());
    assert(picked(tags@, order@) =~= Seq::empty());
    while i < tags.len()
        invariant
            0 <= i <= tags.len(),
            all == tag_views(tags@),
            keys.len() == i,
            order.len() == i,
            forall|j: int| 0 <= j < i ==> (#[trigger] keys@[j])@ == lowercased(tags@[j].name@),
            forall|k: int| 0 <= k < order.len() ==> #[trigger] order@[k] < i,
            picked(tags@, order@) == stable_sort(all.take(i as int), by_lowercase()),
        decreases tags.len() - i,
    {
        let key = to_chars(to_lowercase(tags[i].name.as_str()).as_str());
        let ghost sorted = picked(tags@, order@);
        let ghost tag = tags@[i as int]@;
        let mut k: usize = 0;
        assert(sorted.skip(0) =~= sorted);
        while k < order.len() && !less(&key, &keys[order[k]])
            invariant
                0 <= k <= order.len(),
                0 <= i < tags.len(),
                keys.len() == i,
                key@ == lowercased(tags@[i as int].name@),
                tag == tags@[i as int]@,
                sorted == picked(tags@, order@),
                forall|j: int| 0 <= j < i ==> (#[trigger] keys@[j])@ == lowercased(tags@[j].name@),
                forall|k: int| 0 <= k < order.len() ==> #[trigger] order@[k] < i,
                insertion_point(sorted, tag, by_lowercase()) == k + insertion_point(
                    sorted.skip(k as int),
                    tag,
                    by_lowercase(),
                ),
            decreases order.len() - k,
        {
            proof {
                assert(sorted[k as int] == tags@[order@[k as int] as int]@);
                lemma_insertion_point_step(sorted, tag, by_lowercase(), k as int);
            }
            k += 1;
        }
        proof {
            if k < order.len() {
                assert(sorted.skip(k as int)[0] == tags@[order@[k as int] as int]@);
            }
            assert(insertion_point(sorted, tag, by_lowercase()) == k);
            assert(all.take(i + 1).drop_last() =~= all.take(i as int));
            assert(all.take(i + 1).last() == tag);
        }
        order.insert(k, i);
        keys.push(key);
        assert(picked(tags@, order@) =~= sorted.insert(k as int, tag));
        i += 1;
    }
    assert(all.take(tags.len() as int) =~= all);
    order
}

/// The tags as the pages show them.
pub fn all_tag_maps(tags: &Vec<Tag>) -> (records: Vec<serde_json::Map<String, serde_json::Value>>)
    ensures
        records_view(records@) == tag_records(tag_views(tags@)),
{
    let order = order_by_lowercase(tags);
    let ghost sorted = stable_sort(tag_views(tags@), by_lowercase());
    let mut records: Vec<serde_json::Map<String, serde_json::Value>> = Vec::new();
    let mut k: usize = 0;
    assert(records_view(records@) =~= tag_records(tag_views(tags@)).take(0));
    while k < order.len()
        invariant
            0 <= k <= order.len(),
            order.len() == tags.len(),
            forall|k: int| 0 <= k < order.len() ==> order@[k] < tags.len(),
            sorted == picked(tags@, order@),
            sorted == stable_sort(tag_views(tags@), by_lowercase()),
            records_view(records@) == tag_records(tag_views(tags@)).take(k as int),
        decreases order.len() - k,
    {
        let tag = &tags[order[k]];
        let record = tag_map(tag.name.as_str(), tag.posts.len());
        let ghost before = records_view(records@);
        proof {
            assert(sorted[k as int] == tag@);
            assert(tag@.posts.len() == tag.posts.len());
            assert(tag_records(tag_views(tags@))[k as int] == record_fields(record));
            assert(tag_records(tag_views(tags@)).take(k + 1) =~= tag_records(
                tag_views(tags@),
            ).take(k as int).push(record_fields(record)));
        }
        records.push(record);
        assert(records_view(records@) =~= before.push(record_fields(record)));
        k += 1;
    }
    assert(tag_records(tag_views(tags@)).take(order.len() as int) =~= tag_records(
        tag_views(tags@),
    ));
    records
}

/// The posts at `places` as a listing shows them.
pub fn posts_maps(posts: &Vec<Post>, places: &Vec<usize>) -> (records: Vec<
    serde_json::Map<String, serde_json::Value>,
>)
    ensures
        records_view(records@) == listed(post_views(posts@), indices(places@)),
{
    let ghost all = indices(places@);
    let mut records: Vec<serde_json::Map<String, serde_json::Value>> = Vec::new();
    let mut k: usize = 0;
    assert(all.take(0) =~= Seq::<int>::empty());
    assert(records_view(records@) =~= Seq::empty());
    while k < places.len()
        invariant
            0 <= k <= places.len(),
            all == indices(places@),
            records_view(records@) == listed(post_views(posts@), all.take(k as int)),
        decreases places.len() - k,
    {
        assert(all.take(k + 1).drop_last() =~= all.take(k as int));
        assert(all.take(k + 1).last() == places@[k as int] as int);
        let at: usize = places[k];
        if at < posts.len() && !posts[at].hidden {
            let record = posts[at].map();
            let ghost before = records_view(records@);
            records.push(record);
            assert(records_view(records@) =~= before.push(record_fields(record)));
        }
        k += 1;
    }
    assert(all.take(places.len() as int) =~= all);
    records
}

/// The places `0, 1, ..` of a collection of `n` posts.
pub fn every_place(n: usize) -> (places: Vec<usize>)
    ensures
        indices(places@) == all_places(n as nat),
{
    let mut places: Vec<usize> = Vec::new();
    let mut i: usize = 0;
    while i < n
        invariant
            0 <= i <= n,
            places.len() == i,
            forall|j: int| 0 <= j < i ==> places@[j] == j,
        decreases n - i,
    {
        places.push(i);
        i += 1;
    }
    assert(indices(places@) =~= all_places(n as nat));
    places
}

/// What is made of the renderer's outcome: the page, or a template failure
/// with the renderer's description.
pub fn page_of(outcome: Result<String, String>) -> (r: Result<String, Error>)
    ensures
        match outcome {
            Ok(html) => r == Ok::<String, Error>(html),
            Err(description) => r == Err::<String, Error>(Error::Template(description)),
        },
{
    match outcome {
        Ok(html) => Ok(html),
        Err(description) => Err(Error::Template(description)),
    }
}

impl Mdblog {
    /// The context that every page starts from: the title, the site's texts
    /// and the list of all tags.
    pub fn get_base_context(&self, title: &str) -> (r: Result<tera::Context, Error>)
        ensures
            r matches Ok(context) && context_texts(context) == base_texts(self.settings, title@)
                && context_lists(context) == base_lists(self.tags_view()),
    {
        let mut context = new_context();
        set_text(&mut context, "title", title);
        set_text(&mut context, "site_logo", self.settings.site_logo.as_str());
        set_text(&mut context, "site_name", self.settings.site_name.as_str());
        set_text(&mut context, "site_motto", self.settings.site_motto.as_str());
        set_text(&mut context, "footer_note", self.settings.footer_note.as_str());
        assert(context_lists(context) =~= no_lists());
        let all_tags = all_tag_maps(&self.tags);
        set_list(&mut context, "all_tags", &all_tags);
        proof {
            lemma_keys_differ();
            assert(context_texts(context) =~= base_texts(self.settings, title@));
        }
        Ok(context)
    }

    /// The tags of `post` as its page shows them; the first of them that the
    /// index does not hold is a failure.
    fn post_tag_maps(&self, post: &Post) -> (r: Result<
        Vec<serde_json::Map<String, serde_json::Value>>,
        Error,
    >)
        ensures
            match first_missing(post@.tags, self.tags_view()) {
                Some(name) => r matches Err(Error::TagMissing(tag)) && tag@ == name,
                None => r matches Ok(records) && records_view(records@) == named_records(
                    post@.tags,
                    self.tags_view(),
                ),
            },
    {
        let ghost names = post@.tags;
        let ghost index = self.tags_view();
        let mut records: Vec<serde_json::Map<String, serde_json::Value>> = Vec::new();
        let mut j: usize = 0;
        assert(names.take(0) =~= Seq::<Seq<char>>::empty());
        assert(records_view(records@) =~= named_records(names.take(0), index));
        while j < post.tags.len()
            invariant
                0 <= j <= post.tags.len(),
                names == post@.tags,
                names == texts(post.tags@),
                index == self.tags_view(),
                first_missing(names.take(j as int), index) is None,
                records_view(records@) == named_records(names.take(j as int), index),
            decreases post.tags.len() - j,
        {
            assert(names.take(j + 1).drop_last() =~= names.take(j as int));
            assert(names.take(j + 1).last() == post.tags@[j as int]@);
            match find_tag(&self.tags, post.tags[j].as_str()) {
                None => {
                    proof {
                        assert(first_missing(names.take(j + 1), index) == Some(names[j as int]));
                        lemma_first_missing_prefix(names, index, j + 1);
                    }
                    return Err(Error::TagMissing(post.tags[j].clone()));
                },
                Some(at) => {
                    let record = tag_map(post.tags[j].as_str(), self.tags[at].posts.len());
                    let ghost before = records_view(records@);
                    proof {
                        assert(index[at as int] == self.tags@[at as int]@);
                        assert(index[at as int].posts.len() == self.tags@[at as int].posts.len());
                    }
                    records.push(record);
                    assert(records_view(records@) =~= before.push(record_fields(record)));
                    assert(named_records(names.take(j + 1), index) =~= named_records(
                        names.take(j as int),
                        index,
                    ).push(record_fields(record)));
                },
            }
            j += 1;
        }
        assert(names.take(post.tags.len() as int) =~= names);
        Ok(records)
    }

    /// The context of the page of `post`.
    ///
    /// A post that is not hidden and has a tag that the index does not hold
    /// gets no page.
    pub fn post_context(&self, post: &Post) -> (r: Result<tera::Context, Error>)
        ensures
            match missing_tag(post@, self.tags_view()) {
                Some(name) => r matches Err(Error::TagMissing(tag)) && tag@ == name,
                None => r matches Ok(context) && context_texts(context) == post_texts(
                    self.settings,
                    post@,
                ) && context_lists(context) == post_lists(post@, self.tags_view()),
            },
    {
        let mut context = match self.get_base_context(post.title.as_str()) {
            Ok(context) => context,
            Err(failure) => {
                return Err(failure);
            },
        };
        let ghost start = context;
        proof {
            lemma_keys_differ();
        }
        set_text(&mut context, "content", post.content().as_str());
        let post_tags = if !post.hidden {
            set_text(&mut context, "datetime", date_string(post.datetime).as_str());
            match self.post_tag_maps(post) {
                Ok(records) => records,
                Err(failure) => {
                    return Err(failure);
                },
            }
        } else {
            set_text(&mut context, "datetime", "");
            let none: Vec<serde_json::Map<String, serde_json::Value>> = Vec::new();
            assert(records_view(none@) =~= Seq::empty());
            none
        };
        proof {
            reveal_strlit("");
            assert(""@ =~= Seq::<char>::empty());
            assert(context_lists(context) =~= context_lists(start));
        }
        set_list(&mut context, "post_tags", &post_tags);
        assert(context_texts(context) =~= post_texts(self.settings, post@));
        Ok(context)
    }

    /// The context of a page that lists the posts at `places` under `title`.
    pub fn listing_context(&self, title: &str, places: &Vec<usize>) -> (r: Result<
        tera::Context,
        Error,
    >)
        ensures
            r matches Ok(context) && context_texts(context) == base_texts(self.settings, title@)
                && context_lists(context) == listing_lists(
                self.posts_view(),
                self.tags_view(),
                indices(places@),
            ),
    {
        let mut context = match self.get_base_context(title) {
            Ok(context) => context,
            Err(failure) => {
                return Err(failure);
            },
        };
        let ghost start = context;
        let records = posts_maps(&self.posts, places);
        set_list(&mut context, "posts", &records);
        proof {
            lemma_keys_differ();
            assert(context_texts(context) =~= context_texts(start));
        }
        Ok(context)
    }

    /// The posts of `posts` at `places` as a listing shows them.
    pub fn get_posts_maps(&self, places: &Vec<usize>) -> (r: Result<
        Vec<serde_json::Map<String, serde_json::Value>>,
        Error,
    >)
        ensures
            r matches Ok(records) && records_view(records@) == listed(
                self.posts_view(),
                indices(places@),
            ),
    {
        Ok(posts_maps(&self.posts, places))
    }

    /// What renders the page of `post`: the template `post.tpl` with
    /// `post_context`.
    ///
    /// A post that is not hidden and has a tag that the index does not hold
    /// gets no page.
    pub fn render_post(&self, post: &Post) -> (r: Result<Rendering, Error>)
        ensures
            match missing_tag(post@, self.tags_view()) {
                Some(name) => r matches Err(Error::TagMissing(tag)) && tag@ == name,
                None => r matches Ok(page) && page@ == post_rendering(
                    self.settings,
                    post@,
                    self.tags_view(),
                ),
            },
    {
        match self.post_context(post) {
            Err(failure) => Err(failure),
            Ok(context) => Ok(Rendering { template: "post.tpl".to_owned(), context }),
        }
    }

    /// What renders the index page: the template `index.tpl` with
    /// `index_context`.
    pub fn render_index(&self) -> (r: Result<Rendering, Error>)
        ensures
            r matches Ok(page) && page@ == index_rendering(
                self.settings,
                self.posts_view(),
                self.tags_view(),
            ),
    {
        match self.index_context() {
            Err(failure) => Err(failure),
            Ok(context) => Ok(Rendering { template: "index.tpl".to_owned(), context }),
        }
    }

    /// The context of the index page.
    pub fn index_context(&self) -> (r: Result<tera::Context, Error>)
        ensures
            r matches Ok(context) && context_texts(context) == base_texts(
                self.settings,
                self.settings.site_name@,
            ) && context_lists(context) == listing_lists(
                self.posts_view(),
                self.tags_view(),
                all_places(self.posts@.len()),
            ),
    {
        let places = every_place(self.posts.len());
        self.listing_context(self.settings.site_name.as_str(), &places)
    }

    /// The context of the page of the tag `tag`; a failure where the index
    /// has no entry for it.
    pub fn tag_context(&self, tag: &str) -> (r: Result<tera::Context, Error>)
        ensures
            if has_entry(self.tags_view(), tag@) {
                r matches Ok(context) && context_texts(context) == base_texts(self.settings, tag@)
                    && context_lists(context) == listing_lists(
                    self.posts_view(),
                    self.tags_view(),
                    self.tags_view()[tag_position(self.tags_view(), tag@)].posts,
                )
            } else {
                r matches Err(Error::TagMissing(name)) && name@ == tag@
            },
    {
        match find_tag(&self.tags, tag) {
            None => Err(Error::TagMissing(tag.to_owned())),
            Some(at) => {
                assert(self.tags_view()[at as int] == self.tags@[at as int]@);
                self.listing_context(tag, &self.tags[at].posts)
            },
        }
    }

    /// What renders the page of the tag `tag`: the template `tag.tpl` with
    /// `tag_context`; a failure where the index has no entry for it.
    pub fn render_tag(&self, tag: &str) -> (r: Result<Rendering, Error>)
        ensures
            if has_entry(self.tags_view(), tag@) {
                r matches Ok(page) && page@ == tag_rendering(
                    self.settings,
                    self.posts_view(),
                    self.tags_view(),
                    tag@,
                )
            } else {
                r matches Err(Error::TagMissing(name)) && name@ == tag@
            },
    {
        match self.tag_context(tag) {
            Err(failure) => Err(failure),
            Ok(context) => Ok(Rendering { template: "tag.tpl".to_owned(), context }),
        }
    }
}

/// A tag without an entry keeps every longer list of tags from passing.
proof fn lemma_first_missing_prefix(names: Seq<Seq<char>>, tags: Seq<TagView>, k: int)
    requires
        0 <= k <= names.len(),
        first_missing(names.take(k), tags) is Some,
    ensures
        first_missing(names, tags) == first_missing(names.take(k), tags),
    decreases names.len() - k,
{
    if k < names.len() {
        assert(names.take(k + 1).drop_last() =~= names.take(k));
        lemma_first_missing_prefix(names, tags, k + 1);
    } else {
        assert(names.take(k) =~= names);
    }
}

/// The places of the posts that a listing shows: those in the collection
/// whose post is not hidden.
pub open spec fn shown(posts: Seq<PostView>) -> spec_fn(int) -> bool {
    |at: int| 0 <= at < posts.len() && !posts[at].hidden
}

/// A listing shows the posts at the places that are in the collection and
/// not hidden, in the order of the places, and no others.
pub proof fn lemma_listed_shows_visible_posts(posts: Seq<PostView>, places: Seq<int>)
    ensures
        listed(posts, places) == places.filter(shown(posts)).map_values(
            |at: int| post_record(posts[at]),
        ),
    decreases places.len(),
{
    reveal(Seq::filter);
    let record = |at: int| post_record(posts[at]);
    if places.len() > 0 {
        let init = places.drop_last();
        lemma_listed_shows_visible_posts(posts, init);
        let kept = init.filter(shown(posts));
        if shown(posts)(places.last()) {
            assert(kept.push(places.last()).map_values(record) =~= kept.map_values(record).push(
                record(places.last()),
            ));
        }
    } else {
        assert(places.filter(shown(posts)).map_values(record) =~= Seq::empty());
    }
}

/// Where the index has an entry for each of the names, none is missing.
pub proof fn lemma_none_missing(names: Seq<Seq<char>>, tags: Seq<TagView>)
    requires
        forall|k: int| 0 <= k < names.len() ==> has_entry(tags, #[trigger] names[k]),
    ensures
        first_missing(names, tags) is None,
    decreases names.len(),
{
    if names.len() > 0 {
        let init = names.drop_last();
        assert forall|k: int| 0 <= k < init.len() implies has_entry(tags, #[trigger] init[k]) by {
            assert(init[k] == names[k]);
        }
        lemma_none_missing(init, tags);
        assert(has_entry(tags, names[names.len() - 1]));
    }
}

/// The index of a collection has an entry for every tag of every post of
/// the collection that is not hidden: the page of each of its posts can be
/// made.
pub proof fn lemma_index_misses_no_tag(posts: Seq<PostView>, i: int)
    requires
        0 <= i < posts.len(),
    ensures
        missing_tag(posts[i], tag_index(posts)) is None,
{
    let post = posts[i];
    let index = tag_index(posts);
    if !post.hidden {
        lemma_tag_names(posts);
        assert forall|k: int| 0 <= k < post.tags.len() implies has_entry(
            index,
            #[trigger] post.tags[k],
        ) by {
            let name = post.tags[k];
            assert(carries(posts[i], name));
            assert(tag_names(posts).contains(name));
            let e = choose|e: int| 0 <= e < tag_names(posts).len() && tag_names(posts)[e] == name;
            assert(index[e].name == name);
            lemma_tag_position(index, name);
        }
        lemma_none_missing(post.tags, index);
    }
}

/// The tags stand on the pages in the order of their names, letter case
/// aside, and each tag of the index stands there as often as in the index.
pub proof fn lemma_tag_records_in_order(tags: Seq<TagView>)
    ensures
        ordered(stable_sort(tags, by_lowercase()), by_lowercase()),
        stable_sort(tags, by_lowercase()).to_multiset() == tags.to_multiset(),
        tag_records(tags).len() == tags.len(),
{
    assert forall|a: TagView| !#[trigger] by_lowercase()(a, a) by {
        lemma_lex_irreflexive(lowercased(a.name));
    }
    assert forall|a: TagView, b: TagView, c: TagView| #[trigger]
        by_lowercase()(a, b) && #[trigger] by_lowercase()(b, c) implies by_lowercase()(a, c) by {
        lemma_lex_transitive(lowercased(a.name), lowercased(b.name), lowercased(c.name));
    }
    lemma_stable_sort_ordered(tags, by_lowercase());
    lemma_stable_sort_permutes(tags, by_lowercase());
}

/// `first_lacking` gives the least place of a post that lacks a tag.
pub proof fn lemma_first_lacking(posts: Seq<PostView>, tags: Seq<TagView>)
    ensures
        0 <= first_lacking(posts, tags) <= posts.len(),
        forall|j: int|
            0 <= j < first_lacking(posts, tags) ==> missing_tag(#[trigger] posts[j], tags) is None,
        first_lacking(posts, tags) < posts.len() ==> missing_tag(
            posts[first_lacking(posts, tags)],
            tags,
        ) is Some,
    decreases posts.len(),
{
    if posts.len() > 0 && missing_tag(posts[0], tags) is None {
        let rest = posts.drop_first();
        lemma_first_lacking(rest, tags);
        assert forall|j: int| 0 <= j < first_lacking(posts, tags) implies missing_tag(
            #[trigger] posts[j],
            tags,
        ) is None by {
            if j > 0 {
                assert(posts[j] == rest[j - 1]);
            }
        }
        if first_lacking(posts, tags) < posts.len() {
            assert(posts[first_lacking(posts, tags)] == rest[first_lacking(rest, tags)]);
        }
    }
}

/// In a blog whose index is the index of its posts, no post lacks a tag: no
/// page fails for a missing tag.
pub proof fn lemma_index_lacks_no_tag(posts: Seq<PostView>)
    ensures
        first_lacking(posts, tag_index(posts)) == posts.len(),
{
    lemma_first_lacking(posts, tag_index(posts));
    let at = first_lacking(posts, tag_index(posts));
    if at < posts.len() {
        lemma_index_misses_no_tag(posts, at);
    }
}

} // verus!
