//! One post: a head of `key: value` lines, a blank line, a markdown body.

use crate::dates::{datetime_formatted, datetime_parsed, format_datetime, parse_datetime};
use crate::errors::Error;
use crate::markdown::{markdown_html, markdown_to_html};
use crate::paths::{file_stem, no_separator, path_file_stem, path_with_extension, with_extension};
use crate::template::{new_record, record_fields, set_field};
use crate::text::{
    concat, contains, find_from, index_of, is_space, lemma_trim, same, slice, split, split_chars,
    string_of, texts, to_chars, trim, trimmed, views,
};
use vstd::prelude::*;

verus! {

/// A post as plain values.
pub struct PostView {
    /// Where the post lies, relative to the blog's root.
    pub path: Seq<char>,
    /// The head's keys and values, in the order of its lines.
    pub metadata: Seq<(Seq<char>, Seq<char>)>,
    /// When the post was written: seconds from the start of 1970.
    pub datetime: i64,
    /// The post's tags, each once, in the order of their first mention.
    pub tags: Seq<Seq<char>>,
    /// Whether the post is left out of the listings.
    pub hidden: bool,
    /// The post's title.
    pub title: Seq<char>,
    /// The markdown body.
    pub body: Seq<char>,
    /// Where the post's page goes, relative to the build directory.
    pub dest: Seq<char>,
}

/// Why a text is no post.
pub enum Malformed {
    /// A line of the head holds no colon.
    Head,
    /// There is no blank line after the head, or nothing but white space
    /// after it.
    NoBody,
}

/// The format of a post's date, in `chrono`'s notation.
pub open spec fn datetime_format() -> Seq<char> {
    "%Y-%m-%d %H:%M:%S"@
}

/// The index of the first line feed that another line feed follows; the
/// length of `s` where there is none.
pub open spec fn blank_line(s: Seq<char>) -> int
    decreases s.len(),
{
    if s.len() < 2 {
        s.len() as int
    } else if s[0] == '\n' && s[1] == '\n' {
        0
    } else {
        1 + blank_line(s.drop_first())
    }
}

/// The key and the value of one line of a head: what stands before its first
/// colon and what stands after it, both trimmed. `None` without a colon.
pub open spec fn parse_line(line: Seq<char>) -> Option<(Seq<char>, Seq<char>)> {
    let at = index_of(line, ':');
    if 0 <= at < line.len() {
        Some((trim(line.take(at)), trim(line.skip(at + 1))))
    } else {
        None
    }
}

/// The keys and values of the lines; `None` where one of them has no colon.
pub open spec fn parse_lines(lines: Seq<Seq<char>>) -> Option<Seq<(Seq<char>, Seq<char>)>>
    decreases lines.len(),
{
    if lines.len() == 0 {
        Some(Seq::empty())
    } else {
        match (parse_lines(lines.drop_last()), parse_line(lines.last())) {
            (Some(before), Some(pair)) => Some(before.push(pair)),
            _ => None,
        }
    }
}

/// The keys and values of a trimmed head. An empty head has no lines.
pub open spec fn parse_head(head: Seq<char>) -> Option<Seq<(Seq<char>, Seq<char>)>> {
    if head.len() == 0 {
        Some(Seq::empty())
    } else {
        parse_lines(split(head, '\n'))
    }
}

/// The value of the last line of the head with the key `key`.
pub open spec fn lookup(metadata: Seq<(Seq<char>, Seq<char>)>, key: Seq<char>) -> Option<
    Seq<char>,
>
    decreases metadata.len(),
{
    if metadata.len() == 0 {
        None
    } else if metadata.last().0 == key {
        Some(metadata.last().1)
    } else {
        lookup(metadata.drop_last(), key)
    }
}

/// The tags among `pieces`: each piece trimmed, the empty ones and the
/// repeated ones dropped.
pub open spec fn tags_of(pieces: Seq<Seq<char>>) -> Seq<Seq<char>>
    decreases pieces.len(),
{
    if pieces.len() == 0 {
        Seq::empty()
    } else {
        let before = tags_of(pieces.drop_last());
        let tag = trim(pieces.last());
        if tag.len() == 0 || before.contains(tag) {
            before
        } else {
            before.push(tag)
        }
    }
}

/// The date of a post whose head is `metadata`: what `chrono` reads from the
/// value of `date`; the start of 1970 where there is no such line or nothing
/// can be read from it.
pub open spec fn datetime_of(metadata: Seq<(Seq<char>, Seq<char>)>) -> i64 {
    match lookup(metadata, "date"@) {
        Some(date) => match datetime_parsed(date, datetime_format()) {
            Some(seconds) => seconds,
            None => 0,
        },
        None => 0,
    }
}

/// The title of a post: the value of `title` in its head, else the stem of
/// its file name as it stands, else nothing.
pub open spec fn title_of(path: Seq<char>, metadata: Seq<(Seq<char>, Seq<char>)>) -> Seq<char> {
    match lookup(metadata, "title"@) {
        Some(title) => title,
        None => match path_file_stem(path) {
            Some(stem) => stem,
            None => Seq::empty(),
        },
    }
}

/// The post at `path` with the head `metadata` and the body `body`.
pub open spec fn post_of(
    path: Seq<char>,
    metadata: Seq<(Seq<char>, Seq<char>)>,
    body: Seq<char>,
) -> PostView {
    PostView {
        path,
        metadata,
        datetime: datetime_of(metadata),
        tags: match lookup(metadata, "tags"@) {
            Some(list) => tags_of(split(list, ',')),
            None => Seq::empty(),
        },
        hidden: lookup(metadata, "hidden"@) == Some("true"@),
        title: title_of(path, metadata),
        body,
        dest: path_with_extension(path, "html"@),
    }
}

/// What the text `content` of the file at `path` is as a post.
pub open spec fn parse_post(path: Seq<char>, content: Seq<char>) -> Result<PostView, Malformed> {
    let at = blank_line(content);
    if 0 <= at < content.len() {
        let head = trim(content.take(at));
        let body = trim(content.skip(at + 2));
        if body.len() == 0 {
            Err(Malformed::NoBody)
        } else {
            match parse_head(head) {
                Some(metadata) => Ok(post_of(path, metadata, body)),
                None => Err(Malformed::Head),
            }
        }
    } else {
        Err(Malformed::NoBody)
    }
}

/// Whether `failure` says of the file at `path` what `why` says.
pub open spec fn refuses(failure: Error, path: Seq<char>, why: Malformed) -> bool {
    match why {
        Malformed::Head => failure matches Error::PostHead(at) && at@ == path,
        Malformed::NoBody => failure matches Error::PostNoBody(at) && at@ == path,
    }
}

/// The text of the moment `seconds`; empty where the moment lies outside
/// the calendar.
pub open spec fn date_text(seconds: i64) -> Seq<char> {
    match datetime_formatted(seconds, datetime_format()) {
        Some(text) => text,
        None => Seq::empty(),
    }
}

/// A post as a listing shows it.
pub open spec fn post_record(post: PostView) -> Map<Seq<char>, Seq<char>> {
    Map::empty().insert("title"@, post.title).insert("url"@, "/"@ + post.dest).insert(
        "datetime"@,
        date_text(post.datetime),
    )
}

/// The keys and values of `metadata` as plain values.
pub open spec fn pairs(metadata: Seq<(String, String)>) -> Seq<(Seq<char>, Seq<char>)> {
    metadata.map_values(|pair: (String, String)| (pair.0@, pair.1@))
}

/// A line of the head without a colon makes the head malformed, whatever
/// follows it.
proof fn lemma_parse_lines_prefix(lines: Seq<Seq<char>>, k: int)
    requires
        0 <= k <= lines.len(),
        parse_lines(lines.take(k)) is None,
    ensures
        parse_lines(lines) is None,
    decreases lines.len() - k,
{
    if k < lines.len() {
        assert(lines.take(k + 1).drop_last() =~= lines.take(k));
        lemma_parse_lines_prefix(lines, k + 1);
    } else {
        assert(lines.take(k) =~= lines);
    }
}

fn find_blank_line(v: &Vec<char>) -> (r: usize)
    ensures
        r == blank_line(v@),
        r == v.len() || r + 2 <= v.len(),
{
    let mut i: usize = 0;
    assert(v@.skip(0) =~= v@);
    while v.len() - i >= 2 && !(v[i] == '\n' && v[i + 1] == '\n')
        invariant
            0 <= i <= v.len(),
            blank_line(v@) == i + blank_line(v@.skip(i as int)),
        decreases v.len() - i,
    {
        assert(v@.skip(i as int).drop_first() =~= v@.skip(i + 1));
        i += 1;
    }
    if v.len() - i >= 2 {
        i
    } else {
        v.len()
    }
}

fn parse_header_line(line: &Vec<char>) -> (r: Option<(String, String)>)
    ensures
        match parse_line(line@) {
            Some(pair) => r matches Some(found) && found.0@ == pair.0 && found.1@ == pair.1,
            None => r is None,
        },
{
    assert(line@.skip(0) =~= line@);
    let at: usize = find_from(line, ':', 0);
    if at >= line.len() {
        return None;
    }
    let key = trimmed(&slice(line, 0, at));
    let value = trimmed(&slice(line, at + 1, line.len()));
    assert(line@.take(at as int) =~= line@.subrange(0, at as int));
    assert(line@.skip(at + 1) =~= line@.subrange(at + 1, line.len() as int));
    Some((string_of(&key), string_of(&value)))
}

fn parse_header(head: &Vec<char>) -> (r: Option<Vec<(String, String)>>)
    ensures
        match parse_head(head@) {
            Some(metadata) => r matches Some(found) && pairs(found@) == metadata,
            None => r is None,
        },
{
    let mut metadata: Vec<(String, String)> = Vec::new();
    if head.len() == 0 {
        assert(pairs(metadata@) =~= Seq::empty());
        return Some(metadata);
    }
    let lines = split_chars(head, '\n');
    let ghost all = views(lines@);
    let mut i: usize = 0;
    assert(all.take(0) =~= Seq::<Seq<char>>::empty());
    assert(pairs(metadata@) =~= Seq::empty());
    while i < lines.len()
        invariant
            0 <= i <= lines.len(),
            all == views(lines@),
            head@.len() > 0,
            all == split(head@, '\n'),
            parse_lines(all.take(i as int)) == Some(pairs(metadata@)),
        decreases lines.len() - i,
    {
        assert(all.take(i + 1).drop_last() =~= all.take(i as int));
        assert(all.take(i + 1).last() == lines@[i as int]@);
        match parse_header_line(&lines[i]) {
            None => {
                proof {
                    assert(parse_line(all.take(i + 1).last()) is None);
                    assert(parse_lines(all.take(i + 1)) is None);
                    lemma_parse_lines_prefix(all, i + 1);
                }
                return None;
            },
            Some(pair) => {
                let ghost before = pairs(metadata@);
                metadata.push(pair);
                assert(pairs(metadata@) =~= before.push((pair.0@, pair.1@)));
            },
        }
        i += 1;
    }
    assert(all.take(lines.len() as int) =~= all);
    Some(metadata)
}

fn find_value<'a>(metadata: &'a Vec<(String, String)>, key: &str) -> (r: Option<&'a String>)
    ensures
        match lookup(pairs(metadata@), key@) {
            Some(value) => r matches Some(found) && found@ == value,
            None => r is None,
        },
{
    let ghost all = pairs(metadata@);
    let mut i: usize = metadata.len();
    assert(all.take(i as int) =~= all);
    while i > 0
        invariant
            0 <= i <= metadata.len(),
            all == pairs(metadata@),
            lookup(all, key@) == lookup(all.take(i as int), key@),
        decreases i,
    {
        assert(all.take(i as int).drop_last() =~= all.take(i - 1));
        assert(all.take(i as int).last() == (metadata@[i - 1].0@, metadata@[i - 1].1@));
        if same(metadata[i - 1].0.as_str(), key) {
            return Some(&metadata[i - 1].1);
        }
        i -= 1;
    }
    None
}

/// The tags that the value `list` of a head names: its pieces between
/// commas, trimmed, without the empty ones and without repetitions.
pub fn parse_tags(list: &str) -> (tags: Vec<String>)
    ensures
        texts(tags@) == tags_of(split(list@, ',')),
{
    let chars = to_chars(list);
    let pieces = split_chars(&chars, ',');
    let ghost all = views(pieces@);
    let mut tags: Vec<String> = Vec::new();
    let mut i: usize = 0;
    assert(all.take(0) =~= Seq::<Seq<char>>::empty());
    assert(texts(tags@) =~= Seq::empty());
    while i < pieces.len()
        invariant
            0 <= i <= pieces.len(),
            all == views(pieces@),
            texts(tags@) == tags_of(all.take(i as int)),
        decreases pieces.len() - i,
    {
        assert(all.take(i + 1).drop_last() =~= all.take(i as int));
        assert(all.take(i + 1).last() == pieces@[i as int]@);
        let tag = string_of(&trimmed(&pieces[i]));
        let empty: bool = tag.as_str().is_empty();
        if !empty && !contains(&tags, tag.as_str()) {
            let ghost before = texts(tags@);
            tags.push(tag);
            assert(texts(tags@) =~= before.push(tag@));
        }
        i += 1;
    }
    assert(all.take(pieces.len() as int) =~= all);
    tags
}

/// One post.
#[derive(Debug, Clone, PartialEq, Eq)]
pub struct Post {
    /// Where the post lies, relative to the blog's root.
    pub path: String,
    /// The head's keys and values, in the order of its lines.
    pub metadata: Vec<(String, String)>,
    /// When the post was written: seconds from the start of 1970.
    pub datetime: i64,
    /// The post's tags, each once, in the order of their first mention.
    pub tags: Vec<String>,
    /// Whether the post is left out of the listings.
    pub hidden: bool,
    /// The post's title.
    pub title: String,
    /// The markdown body.
    pub body: String,
    /// Where the post's page goes, relative to the build directory.
    pub dest: String,
}

impl View for Post {
    type V = PostView;

    open spec fn view(&self) -> PostView {
        PostView {
            path: self.path@,
            metadata: pairs(self.metadata@),
            datetime: self.datetime,
            tags: texts(self.tags@),
            hidden: self.hidden,
            title: self.title@,
            body: self.body@,
            dest: self.dest@,
        }
    }
}

/// The text of the moment `seconds`, as the pages show it; empty where the
/// moment lies outside the calendar.
pub fn date_string(seconds: i64) -> (text: String)
    ensures
        text@ == date_text(seconds),
{
    match format_datetime(seconds, "%Y-%m-%d %H:%M:%S") {
        Some(text) => text,
        None => String::new(),
    }
}

impl Post {
    fn assemble(path: &str, metadata: Vec<(String, String)>, body: String) -> (post: Post)
        ensures
            post@ == post_of(path@, pairs(metadata@), body@),
    {
        let datetime: i64 = match find_value(&metadata, "date") {
            Some(date) => match parse_datetime(date.as_str(), "%Y-%m-%d %H:%M:%S") {
                Some(seconds) => seconds,
                None => 0,
            },
            None => 0,
        };
        let tags: Vec<String> = match find_value(&metadata, "tags") {
            Some(list) => parse_tags(list.as_str()),
            None => Vec::new(),
        };
        assert(lookup(pairs(metadata@), "tags"@) is None ==> texts(tags@) =~= Seq::empty());
        let hidden: bool = match find_value(&metadata, "hidden") {
            Some(flag) => same(flag.as_str(), "true"),
            None => false,
        };
        let title: String = match find_value(&metadata, "title") {
            Some(title) => title.clone(),
            None => match file_stem(path) {
                Some(stem) => stem,
                None => String::new(),
            },
        };
        proof {
            reveal_strlit("html");
            assert(no_separator("html"@));
        }
        let dest = with_extension(path, "html");
        Post { path: path.to_owned(), metadata, datetime, tags, hidden, title, body, dest }
    }

    /// Reads the text `content` of the file at `path` as a post.
    ///
    /// The head ends at the first blank line. Each of its lines is
    /// `key: value`; `date`, `tags`, `hidden` and `title` are understood.
    /// The body is what follows, trimmed, and may not be empty.
    ///
    /// A post is hidden where the value of `hidden` is the word `true`, in
    /// small letters; any other value, `True`, `yes` and `1` among them,
    /// leaves it in the listings, as does a head without `hidden`.
    pub fn parse(path: &str, content: &str) -> (r: Result<Post, Error>)
        ensures
            match parse_post(path@, content@) {
                Ok(view) => r matches Ok(post) && post@ == view,
                Err(why) => r matches Err(failure) && refuses(failure, path@, why),
            },
            r matches Ok(post) ==> post.dest@ == path_with_extension(path@, "html"@),
    {
        let chars = to_chars(content);
        let at: usize = find_blank_line(&chars);
        if at >= chars.len() {
            return Err(Error::PostNoBody(path.to_owned()));
        }
        let head = trimmed(&slice(&chars, 0, at));
        let body = trimmed(&slice(&chars, at + 2, chars.len()));
        assert(content@.take(at as int) =~= chars@.subrange(0, at as int));
        assert(content@.skip(at + 2) =~= chars@.subrange(at + 2, chars.len() as int));
        if body.len() == 0 {
            return Err(Error::PostNoBody(path.to_owned()));
        }
        match parse_header(&head) {
            None => Err(Error::PostHead(path.to_owned())),
            Some(metadata) => Ok(Post::assemble(path, metadata, string_of(&body))),
        }
    }

    /// The post's title.
    pub fn title(&self) -> (title: &str)
        ensures
            title@ == self@.title,
    {
        self.title.as_str()
    }

    /// The post's tags.
    pub fn tags(&self) -> (tags: &Vec<String>)
        ensures
            texts(tags@) == self@.tags,
    {
        &self.tags
    }

    /// Whether the post is left out of the listings.
    pub fn is_hidden(&self) -> (hidden: bool)
        ensures
            hidden == self@.hidden,
    {
        self.hidden
    }

    /// When the post was written: seconds from the start of 1970.
    pub fn datetime(&self) -> (seconds: i64)
        ensures
            seconds == self@.datetime,
    {
        self.datetime
    }

    /// Where the post's page goes, relative to the build directory.
    pub fn dest(&self) -> (dest: &str)
        ensures
            dest@ == self@.dest,
    {
        self.dest.as_str()
    }

    /// The address of the post's page on the site.
    pub fn url(&self) -> (url: String)
        ensures
            url@ == "/"@ + self@.dest,
    {
        concat("/", self.dest.as_str())
    }

    /// The body as HTML.
    pub fn content(&self) -> (html: String)
        ensures
            html@ == markdown_html(self@.body),
    {
        markdown_to_html(self.body.as_str())
    }

    /// The post as a listing shows it: its title, address and date.
    pub fn map(&self) -> (record: serde_json::Map<String, serde_json::Value>)
        ensures
            record_fields(record) == post_record(self@),
    {
        let mut record = new_record();
        set_field(&mut record, "title", self.title.as_str());
        set_field(&mut record, "url", self.url().as_str());
        set_field(&mut record, "datetime", date_string(self.datetime).as_str());
        record
    }
}

/// The tags of a post stand once each, and none is empty; each is a piece
/// of the list, trimmed, and every piece that is more than white space is
/// among them.
pub proof fn lemma_tags_of(pieces: Seq<Seq<char>>)
    ensures
        tags_of(pieces).no_duplicates(),
        forall|k: int| 0 <= k < tags_of(pieces).len() ==> (#[trigger] tags_of(pieces)[k]).len() > 0,
        forall|tag: Seq<char>|
            tags_of(pieces).contains(tag) <==> tag.len() > 0 && exists|j: int|
                0 <= j < pieces.len() && trim(#[trigger] pieces[j]) == tag,
    decreases pieces.len(),
{
    if pieces.len() > 0 {
        let init = pieces.drop_last();
        let before = tags_of(init);
        let last = trim(pieces.last());
        let all = tags_of(pieces);
        lemma_tags_of(init);
        assert forall|tag: Seq<char>| all.contains(tag) <==> tag.len() > 0 && exists|j: int|
            0 <= j < pieces.len() && trim(#[trigger] pieces[j]) == tag by {
            if before.contains(tag) {
                let j = choose|j: int| 0 <= j < init.len() && trim(#[trigger] init[j]) == tag;
                assert(trim(pieces[j]) == tag);
                let k = choose|k: int| 0 <= k < before.len() && before[k] == tag;
                assert(all[k] == tag);
            }
            if all.contains(tag) && !before.contains(tag) {
                let k = choose|k: int| 0 <= k < all.len() && all[k] == tag;
                if k < before.len() {
                    assert(before[k] == tag);
                }
                assert(tag == last);
                assert(trim(pieces[pieces.len() - 1]) == tag);
            }
            if tag.len() > 0 && exists|j: int|
                0 <= j < pieces.len() && trim(#[trigger] pieces[j]) == tag {
                let j = choose|j: int| 0 <= j < pieces.len() && trim(#[trigger] pieces[j]) == tag;
                if j < init.len() {
                    assert(trim(init[j]) == tag);
                } else if !before.contains(tag) {
                    assert(all[all.len() - 1] == tag);
                }
            }
        }
    }
}

/// What holds of every post that a file is: it lies where the file lies,
/// its body is more than white space, its page goes where the file lies
/// with the extension `html`, and its tags stand once each.
pub proof fn lemma_parsed_post(path: Seq<char>, content: Seq<char>)
    requires
        parse_post(path, content) is Ok,
    ensures
        parse_post(path, content)->Ok_0.path == path,
        parse_post(path, content)->Ok_0.dest == path_with_extension(path, "html"@),
        parse_post(path, content)->Ok_0.body.len() > 0,
        !is_space(parse_post(path, content)->Ok_0.body[0]),
        parse_post(path, content)->Ok_0.tags.no_duplicates(),
        0 <= blank_line(content) < content.len(),
{
    let post = parse_post(path, content)->Ok_0;
    lemma_trim(content.skip(blank_line(content) + 2));
    match lookup(post.metadata, "tags"@) {
        Some(list) => {
            lemma_tags_of(split(list, ','));
        },
        None => {},
    }
}

} // verus!
