//! The tag index: for each tag of a post that is not hidden, the posts that
//! carry it. A post is named by its place in the post collection.

use crate::order::{
    insertion_point, lemma_insertion_point, lemma_insertion_point_step, lemma_stable_sort_ordered,
    lemma_stable_sort_permutes, ordered, stable_sort, strict_order,
};
use crate::post::{Post, PostView};
use crate::text::{
    contains, lemma_lex_total, lemma_lex_transitive, less, lex_lt, same,
    same_chars, string_of, texts, to_chars, views,
};
use vstd::prelude::*;

verus! {

/// One entry of the tag index as plain values.
pub struct TagView {
    /// The tag.
    pub name: Seq<char>,
    /// The places, in the post collection, of the posts that carry it.
    pub posts: Seq<int>,
}

/// One entry of the tag index.
#[derive(Debug, Clone, PartialEq, Eq)]
pub struct Tag {
    /// The tag.
    pub name: String,
    /// The places, in the post collection, of the posts that carry it.
    pub posts: Vec<usize>,
}

/// The places of `places` as integers.
pub open spec fn indices(places: Seq<usize>) -> Seq<int> {
    places.map_values(|i: usize| i as int)
}

impl View for Tag {
    type V = TagView;

    open spec fn view(&self) -> TagView {
        TagView { name: self.name@, posts: indices(self.posts@) }
    }
}

/// The posts of `posts` as plain values.
pub open spec fn post_views(posts: Seq<Post>) -> Seq<PostView> {
    posts.map_values(|p: Post| p@)
}

/// The entries of `tags` as plain values.
pub open spec fn tag_views(tags: Seq<Tag>) -> Seq<TagView> {
    tags.map_values(|t: Tag| t@)
}

/// The order of the post collection: `x` is newer than `y`.
pub open spec fn newer() -> spec_fn(PostView, PostView) -> bool {
    |x: PostView, y: PostView| x.datetime > y.datetime
}

/// The posts with the newest first; posts of one date stay in the order
/// they came in.
pub open spec fn newest_first(posts: Seq<PostView>) -> Seq<PostView> {
    stable_sort(posts, newer())
}

/// Whether `post` counts for `tag`: it is not hidden and has the tag.
pub open spec fn carries(post: PostView, tag: Seq<char>) -> bool {
    !post.hidden && post.tags.contains(tag)
}

/// The places of the posts that carry `tag`, in the order of the collection.
pub open spec fn tagged(posts: Seq<PostView>, tag: Seq<char>) -> Seq<int>
    decreases posts.len(),
{
    if posts.len() == 0 {
        Seq::empty()
    } else if carries(posts.last(), tag) {
        tagged(posts.drop_last(), tag).push(posts.len() - 1)
    } else {
        tagged(posts.drop_last(), tag)
    }
}

/// The order of the names in the index: `x` is not after `y`.
pub open spec fn not_after() -> spec_fn(Seq<char>, Seq<char>) -> bool {
    |x: Seq<char>, y: Seq<char>| !lex_lt(y, x)
}

/// The sorted names `names` with `name` among them.
pub open spec fn add_name(names: Seq<Seq<char>>, name: Seq<char>) -> Seq<Seq<char>> {
    let at = insertion_point(names, name, not_after());
    if 0 <= at < names.len() && names[at] == name {
        names
    } else {
        names.insert(at, name)
    }
}

/// The sorted names `names` with each of `tags` among them.
pub open spec fn add_names(names: Seq<Seq<char>>, tags: Seq<Seq<char>>) -> Seq<Seq<char>>
    decreases tags.len(),
{
    if tags.len() == 0 {
        names
    } else {
        add_name(add_names(names, tags.drop_last()), tags.last())
    }
}

/// The tags of the posts that are not hidden, each once, in lexicographic
/// order.
pub open spec fn tag_names(posts: Seq<PostView>) -> Seq<Seq<char>>
    decreases posts.len(),
{
    if posts.len() == 0 {
        Seq::empty()
    } else if posts.last().hidden {
        tag_names(posts.drop_last())
    } else {
        add_names(tag_names(posts.drop_last()), posts.last().tags)
    }
}

/// The tag index of the collection `posts`.
pub open spec fn tag_index(posts: Seq<PostView>) -> Seq<TagView> {
    tag_names(posts).map_values(|name: Seq<char>| TagView { name, posts: tagged(posts, name) })
}

fn add_name_to(names: &mut Vec<Vec<char>>, name: Vec<char>)
    ensures
        views(final(names)@) == add_name(views(old(names)@), name@),
{
    let ghost all = views(names@);
    let mut k: usize = 0;
    assert(all.skip(0) =~= all);
    while k < names.len() && less(&names[k], &name)
        invariant
            0 <= k <= names.len(),
            all == views(names@),
            names@ == old(names)@,
            insertion_point(all, name@, not_after()) == k + insertion_point(
                all.skip(k as int),
                name@,
                not_after(),
            ),
        decreases names.len() - k,
    {
        proof {
            assert(all[k as int] == names@[k as int]@);
            lemma_insertion_point_step(all, name@, not_after(), k as int);
        }
        k += 1;
    }
    proof {
        if k < names.len() {
            assert(all.skip(k as int)[0] == names@[k as int]@);
        }
        assert(insertion_point(all, name@, not_after()) == k);
    }
    if k < names.len() && same_chars(&names[k], &name) {
        assert(all[k as int] == name@);
    } else {
        assert(k < names.len() ==> all[k as int] != name@);
        names.insert(k, name);
        assert(views(names@) =~= all.insert(k as int, name@));
    }
}

fn collect_names(posts: &Vec<Post>) -> (names: Vec<Vec<char>>)
    ensures
        views(names@) == tag_names(post_views(posts@)),
{
    let ghost all = post_views(posts@);
    let mut names: Vec<Vec<char>> = Vec::new();
    let mut i: usize = 0;
    assert(all.take(0) =~= Seq::<PostView>::empty());
    assert(views(names@) =~= Seq::empty());
    while i < posts.len()
        invariant
            0 <= i <= posts.len(),
            all == post_views(posts@),
            views(names@) == tag_names(all.take(i as int)),
        decreases posts.len() - i,
    {
        assert(all.take(i + 1).drop_last() =~= all.take(i as int));
        assert(all.take(i + 1).last() == posts@[i as int]@);
        if !posts[i].hidden {
            let ghost tags = texts(posts@[i as int].tags@);
            let ghost start = views(names@);
            let mut j: usize = 0;
            assert(tags.take(0) =~= Seq::<Seq<char>>::empty());
            while j < posts[i].tags.len()
                invariant
                    0 <= i < posts.len(),
                    0 <= j <= posts@[i as int].tags.len(),
                    tags == texts(posts@[i as int].tags@),
                    views(names@) == add_names(start, tags.take(j as int)),
                decreases posts@[i as int].tags.len() - j,
            {
                assert(tags.take(j + 1).drop_last() =~= tags.take(j as int));
                assert(tags.take(j + 1).last() == posts@[i as int].tags@[j as int]@);
                let name = to_chars(posts[i].tags[j].as_str());
                add_name_to(&mut names, name);
                j += 1;
            }
            assert(tags.take(tags.len() as int) =~= tags);
        }
        i += 1;
    }
    assert(all.take(posts.len() as int) =~= all);
    names
}

/// The places of the posts of `posts` that carry `tag`.
pub fn tagged_posts(posts: &Vec<Post>, tag: &str) -> (found: Vec<usize>)
    ensures
        indices(found@) == tagged(post_views(posts@), tag@),
{
    let ghost all = post_views(posts@);
    let mut found: Vec<usize> = Vec::new();
    let mut i: usize = 0;
    assert(all.take(0) =~= Seq::<PostView>::empty());
    assert(indices(found@) =~= Seq::empty());
    while i < posts.len()
        invariant
            0 <= i <= posts.len(),
            all == post_views(posts@),
            indices(found@) == tagged(all.take(i as int), tag@),
        decreases posts.len() - i,
    {
        assert(all.take(i + 1).drop_last() =~= all.take(i as int));
        assert(all.take(i + 1).last() == posts@[i as int]@);
        if !posts[i].hidden && contains(&posts[i].tags, tag) {
            let ghost before = indices(found@);
            found.push(i);
            assert(indices(found@) =~= before.push(i as int));
        }
        i += 1;
    }
    assert(all.take(posts.len() as int) =~= all);
    found
}

/// The tag index of the collection `posts`.
pub fn build_index(posts: &Vec<Post>) -> (tags: Vec<Tag>)
    ensures
        tag_views(tags@) == tag_index(post_views(posts@)),
{
    let names = collect_names(posts);
    let ghost all = post_views(posts@);
    let mut tags: Vec<Tag> = Vec::new();
    let mut i: usize = 0;
    assert(tag_views(tags@) =~= tag_index(all).take(0));
    while i < names.len()
        invariant
            0 <= i <= names.len(),
            all == post_views(posts@),
            views(names@) == tag_names(all),
            tag_views(tags@) == tag_index(all).take(i as int),
        decreases names.len() - i,
    {
        let name = string_of(&names[i]);
        let found = tagged_posts(posts, name.as_str());
        let ghost before = tag_views(tags@);
        let tag = Tag { name, posts: found };
        assert(views(names@)[i as int] == names@[i as int]@);
        assert(tag@ == tag_index(all)[i as int]);
        tags.push(tag);
        assert(tag_views(tags@) =~= before.push(tag@));
        assert(tag_index(all).take(i + 1) =~= tag_index(all).take(i as int).push(
            tag_index(all)[i as int],
        ));
        i += 1;
    }
    assert(tag_index(all).take(names.len() as int) =~= tag_index(all));
    tags
}

/// The place in `tags` of the first entry for `name`; the length of `tags`
/// where there is none.
pub open spec fn tag_position(tags: Seq<TagView>, name: Seq<char>) -> int
    decreases tags.len(),
{
    if tags.len() == 0 {
        0
    } else if tags[0].name == name {
        0
    } else {
        1 + tag_position(tags.drop_first(), name)
    }
}

/// `tag_position` gives the least place of an entry for the name.
pub proof fn lemma_tag_position(tags: Seq<TagView>, name: Seq<char>)
    ensures
        0 <= tag_position(tags, name) <= tags.len(),
        forall|j: int| 0 <= j < tag_position(tags, name) ==> (#[trigger] tags[j]).name != name,
        tag_position(tags, name) < tags.len() ==> tags[tag_position(tags, name)].name == name,
    decreases tags.len(),
{
    if tags.len() > 0 && tags[0].name != name {
        let rest = tags.drop_first();
        lemma_tag_position(rest, name);
        assert forall|j: int| 0 <= j < tag_position(tags, name) implies (#[trigger] tags[j]).name
            != name by {
            if j > 0 {
                assert(tags[j] == rest[j - 1]);
            }
        }
        if tag_position(tags, name) < tags.len() {
            assert(tags[tag_position(tags, name)] == rest[tag_position(rest, name)]);
        }
    }
}

/// The place in `tags` of the first entry for `name`.
pub fn find_tag(tags: &Vec<Tag>, name: &str) -> (at: Option<usize>)
    ensures
        match at {
            Some(i) => i < tags.len() && i == tag_position(tag_views(tags@), name@),
            None => tag_position(tag_views(tags@), name@) == tags.len(),
        },
{
    let ghost all = tag_views(tags@);
    let mut i: usize = 0;
    assert(all.skip(0) =~= all);
    while i < tags.len()
        invariant
            0 <= i <= tags.len(),
            all == tag_views(tags@),
            tag_position(all, name@) == i + tag_position(all.skip(i as int), name@),
        decreases tags.len() - i,
    {
        assert(all.skip(i as int)[0] == tags@[i as int]@);
        if same(tags[i].name.as_str(), name) {
            return Some(i);
        }
        assert(all.skip(i as int).drop_first() =~= all.skip(i + 1));
        i += 1;
    }
    None
}

/// Each name is before the names that follow it.
pub open spec fn increasing(names: Seq<Seq<char>>) -> bool {
    forall|i: int, j: int| 0 <= i < j < names.len() ==> lex_lt(#[trigger] names[i], #[trigger] names[j])
}

/// The post collection has the newest first, and holds the posts it was
/// made of, each as often as before.
pub proof fn lemma_newest_first(posts: Seq<PostView>)
    ensures
        ordered(newest_first(posts), newer()),
        newest_first(posts).len() == posts.len(),
        newest_first(posts).to_multiset() == posts.to_multiset(),
        forall|i: int, j: int|
            0 <= i < j < posts.len() ==> (#[trigger] newest_first(posts)[i]).datetime >= (
            #[trigger] newest_first(posts)[j]).datetime,
{
    assert(strict_order(newer()));
    lemma_stable_sort_ordered(posts, newer());
    lemma_stable_sort_permutes(posts, newer());
    let sorted = newest_first(posts);
    assert forall|i: int, j: int| 0 <= i < j < posts.len() implies (#[trigger] sorted[i]).datetime
        >= (#[trigger] sorted[j]).datetime by {
        assert(!newer()(sorted[j], sorted[i]));
    }
}

/// What the sequence of a tag holds: places of the collection, each of a
/// post that carries the tag, in rising order; and every such place.
pub proof fn lemma_tagged(posts: Seq<PostView>, tag: Seq<char>)
    ensures
        forall|k: int|
            0 <= k < tagged(posts, tag).len() ==> 0 <= #[trigger] tagged(posts, tag)[k]
                < posts.len() && carries(posts[tagged(posts, tag)[k]], tag),
        forall|a: int, b: int|
            0 <= a < b < tagged(posts, tag).len() ==> #[trigger] tagged(posts, tag)[a]
                < #[trigger] tagged(posts, tag)[b],
        forall|i: int|
            0 <= i < posts.len() && carries(#[trigger] posts[i], tag) ==> tagged(
                posts,
                tag,
            ).contains(i),
    decreases posts.len(),
{
    if posts.len() > 0 {
        let init = posts.drop_last();
        let before = tagged(init, tag);
        let all = tagged(posts, tag);
        lemma_tagged(init, tag);
        assert forall|k: int| 0 <= k < all.len() implies 0 <= #[trigger] all[k] < posts.len()
            && carries(posts[all[k]], tag) by {
            if k < before.len() {
                assert(all[k] == before[k]);
                assert(posts[before[k]] == init[before[k]]);
            }
        }
        assert forall|a: int, b: int| 0 <= a < b < all.len() implies #[trigger] all[a]
            < #[trigger] all[b] by {
            assert(all[a] == before[a]);
            if b < before.len() {
                assert(all[b] == before[b]);
            }
        }
        assert forall|i: int| 0 <= i < posts.len() && carries(#[trigger] posts[i], tag) implies all.contains(
            i,
        ) by {
            if i < init.len() {
                assert(init[i] == posts[i]);
                assert(before.contains(i));
                let k = choose|k: int| 0 <= k < before.len() && before[k] == i;
                assert(all[k] == i);
            } else {
                assert(all[all.len() - 1] == i);
            }
        }
    }
}

/// Adding a name to sorted names keeps them sorted, and adds that name and
/// no other.
pub proof fn lemma_add_name(names: Seq<Seq<char>>, name: Seq<char>)
    requires
        increasing(names),
    ensures
        increasing(add_name(names, name)),
        forall|x: Seq<char>| add_name(names, name).contains(x) <==> names.contains(x) || x == name,
{
    lemma_insertion_point(names, name, not_after());
    let at = insertion_point(names, name, not_after());
    let out = add_name(names, name);
    if 0 <= at < names.len() && names[at] == name {
        assert forall|x: Seq<char>| out.contains(x) <==> names.contains(x) || x == name by {
            if x == name {
                assert(names[at] == x);
            }
        }
    } else {
        assert(out =~= names.insert(at, name));
        assert forall|i: int, j: int| 0 <= i < j < out.len() implies lex_lt(
            #[trigger] out[i],
            #[trigger] out[j],
        ) by {
            if j == at {
                assert(out[i] == names[i]);
                assert(!not_after()(name, names[i]));
            } else if i == at {
                assert(out[j] == names[j - 1]);
                assert(not_after()(name, names[at]));
                lemma_lex_total(name, names[at]);
                if j - 1 > at {
                    lemma_lex_transitive(name, names[at], names[j - 1]);
                }
            } else {
                let a = if i < at { i } else { i - 1 };
                let b = if j < at { j } else { j - 1 };
                assert(out[i] == names[a]);
                assert(out[j] == names[b]);
            }
        }
        assert forall|x: Seq<char>| out.contains(x) <==> names.contains(x) || x == name by {
            if out.contains(x) {
                let k = choose|k: int| 0 <= k < out.len() && out[k] == x;
                if k < at {
                    assert(names[k] == x);
                } else if k > at {
                    assert(names[k - 1] == x);
                }
            }
            if names.contains(x) {
                let k = choose|k: int| 0 <= k < names.len() && names[k] == x;
                if k < at {
                    assert(out[k] == x);
                } else {
                    assert(out[k + 1] == x);
                }
            }
            if x == name {
                assert(out[at] == x);
            }
        }
    }
}

/// Adding names to sorted names keeps them sorted, and adds those names
/// and no others.
pub proof fn lemma_add_names(names: Seq<Seq<char>>, tags: Seq<Seq<char>>)
    requires
        increasing(names),
    ensures
        increasing(add_names(names, tags)),
        forall|x: Seq<char>|
            add_names(names, tags).contains(x) <==> names.contains(x) || tags.contains(x),
    decreases tags.len(),
{
    if tags.len() > 0 {
        let init = tags.drop_last();
        lemma_add_names(names, init);
        lemma_add_name(add_names(names, init), tags.last());
        assert forall|x: Seq<char>| add_names(names, tags).contains(x) <==> names.contains(x)
            || tags.contains(x) by {
            if init.contains(x) {
                let k = choose|k: int| 0 <= k < init.len() && init[k] == x;
                assert(tags[k] == x);
            }
            if tags.contains(x) {
                let k = choose|k: int| 0 <= k < tags.len() && tags[k] == x;
                if k < init.len() {
                    assert(init[k] == x);
                }
            }
            if x == tags.last() {
                assert(tags[tags.len() - 1] == x);
            }
        }
    }
}

/// The names of the index are sorted, each standing once; a name is among
/// them exactly where a post that is not hidden has that tag.
pub proof fn lemma_tag_names(posts: Seq<PostView>)
    ensures
        increasing(tag_names(posts)),
        forall|x: Seq<char>|
            tag_names(posts).contains(x) <==> exists|i: int|
                0 <= i < posts.len() && carries(#[trigger] posts[i], x),
    decreases posts.len(),
{
    if posts.len() > 0 {
        let init = posts.drop_last();
        lemma_tag_names(init);
        if !posts.last().hidden {
            lemma_add_names(tag_names(init), posts.last().tags);
        }
        assert forall|x: Seq<char>| tag_names(posts).contains(x) <==> exists|i: int|
            0 <= i < posts.len() && carries(#[trigger] posts[i], x) by {
            if tag_names(init).contains(x) {
                let i = choose|i: int| 0 <= i < init.len() && carries(#[trigger] init[i], x);
                assert(carries(posts[i], x));
            }
            if carries(posts.last(), x) {
                assert(carries(posts[posts.len() - 1], x));
            }
            if exists|i: int| 0 <= i < posts.len() && carries(#[trigger] posts[i], x) {
                let i = choose|i: int| 0 <= i < posts.len() && carries(#[trigger] posts[i], x);
                if i < init.len() {
                    assert(carries(init[i], x));
                }
            }
        }
    }
}

/// A post that is not hidden stands exactly once in the sequence of each of
/// its tags, and the index has an entry for each of them.
pub proof fn lemma_index_holds_post_once(posts: Seq<PostView>, i: int, tag: Seq<char>)
    requires
        0 <= i < posts.len(),
        !posts[i].hidden,
        posts[i].tags.contains(tag),
    ensures
        exists|e: int|
            0 <= e < tag_index(posts).len() && (#[trigger] tag_index(posts)[e]).name == tag,
        forall|e: int|
            0 <= e < tag_index(posts).len() && (#[trigger] tag_index(posts)[e]).name == tag ==> {
                &&& tag_index(posts)[e].posts.contains(i)
                &&& tag_index(posts)[e].posts.no_duplicates()
            },
{
    lemma_tag_names(posts);
    lemma_tagged(posts, tag);
    assert(carries(posts[i], tag));
    assert(tag_names(posts).contains(tag));
    let e = choose|e: int| 0 <= e < tag_names(posts).len() && tag_names(posts)[e] == tag;
    assert(tag_index(posts)[e].name == tag);
}

/// The names of the index rise strictly, so no tag has two entries.
pub proof fn lemma_index_names_rise(posts: Seq<PostView>)
    ensures
        forall|a: int, b: int|
            0 <= a < b < tag_index(posts).len() ==> lex_lt(
                (#[trigger] tag_index(posts)[a]).name,
                (#[trigger] tag_index(posts)[b]).name,
            ),
{
    lemma_tag_names(posts);
    assert forall|a: int, b: int| 0 <= a < b < tag_index(posts).len() implies lex_lt(
        (#[trigger] tag_index(posts)[a]).name,
        (#[trigger] tag_index(posts)[b]).name,
    ) by {
        assert(lex_lt(tag_names(posts)[a], tag_names(posts)[b]));
    }
}

/// Every entry of the index lists at least one post; each post it lists is
/// in the collection, is not hidden and has the entry's tag.
pub proof fn lemma_index_lists_visible_posts(posts: Seq<PostView>, e: int)
    requires
        0 <= e < tag_index(posts).len(),
    ensures
        tag_index(posts)[e].posts.len() > 0,
        forall|k: int|
            0 <= k < tag_index(posts)[e].posts.len() ==> {
                let at = #[trigger] tag_index(posts)[e].posts[k];
                &&& 0 <= at < posts.len()
                &&& !posts[at].hidden
                &&& posts[at].tags.contains(tag_index(posts)[e].name)
            },
{
    let name = tag_names(posts)[e];
    lemma_tag_names(posts);
    lemma_tagged(posts, name);
    assert(tag_names(posts).contains(name));
    let i = choose|i: int| 0 <= i < posts.len() && carries(#[trigger] posts[i], name);
    assert(tagged(posts, name).contains(i));
}

/// Where the collection has the newest first, so has the sequence of each
/// tag.
pub proof fn lemma_index_lists_newest_first(posts: Seq<PostView>, e: int)
    requires
        ordered(posts, newer()),
        0 <= e < tag_index(posts).len(),
    ensures
        forall|a: int, b: int|
            0 <= a < b < tag_index(posts)[e].posts.len() ==> posts[#[trigger] tag_index(
                posts,
            )[e].posts[a]].datetime >= posts[#[trigger] tag_index(posts)[e].posts[b]].datetime,
{
    let name = tag_names(posts)[e];
    let list = tagged(posts, name);
    lemma_tagged(posts, name);
    assert forall|a: int, b: int| 0 <= a < b < list.len() implies posts[#[trigger] list[a]].datetime
        >= posts[#[trigger] list[b]].datetime by {
        assert(list[a] < list[b]);
        assert(!newer()(posts[list[b]], posts[list[a]]));
    }
}

/// The posts of the date `date`.
pub open spec fn of_date(date: i64) -> spec_fn(PostView) -> bool {
    |post: PostView| post.datetime == date
}

/// Posts of one date stand in the collection in the order they came in.
pub proof fn lemma_newest_first_is_stable(posts: Seq<PostView>, date: i64)
    ensures
        newest_first(posts).filter(of_date(date)) == posts.filter(of_date(date)),
    decreases posts.len(),
{
    reveal(Seq::filter);
    if posts.len() > 0 {
        let init = posts.drop_last();
        let last = posts.last();
        let sorted = newest_first(init);
        let at = insertion_point(sorted, last, newer());
        let keep = of_date(date);
        lemma_newest_first_is_stable(init, date);
        lemma_newest_first(init);
        lemma_insertion_point(sorted, last, newer());
        let head = sorted.subrange(0, at);
        let tail = sorted.subrange(at, sorted.len() as int);
        assert(sorted =~= head + tail);
        assert(newest_first(posts) =~= head.push(last) + tail);
        Seq::filter_distributes_over_add(head, tail, keep);
        Seq::filter_distributes_over_add(head.push(last), tail, keep);
        assert(head.push(last).drop_last() =~= head);
        if keep(last) {
            assert forall|k: int| 0 <= k < tail.len() implies !keep(#[trigger] tail[k]) by {
                assert(tail[k] == sorted[at + k]);
                assert(newer()(last, sorted[at]));
                if k > 0 {
                    assert(!newer()(sorted[at + k], sorted[at]));
                }
            }
            tail.lemma_all_neg_filter_empty(keep);
            assert(tail.filter(keep) =~= Seq::empty());
            assert(head.filter(keep) + tail.filter(keep) =~= head.filter(keep));
            assert(head.push(last).filter(keep) + tail.filter(keep) =~= head.filter(keep).push(
                last,
            ));
        }
    } else {
        assert(newest_first(posts) =~= posts);
    }
}

} // verus!
