use mdblog::blog::{is_hidden, is_markdown_file, load_posts, SourceFile};
use mdblog::tags::{build_index, find_tag, tagged_posts, Tag};
use mdblog::{Error, Mdblog, Settings, Theme};

fn blog() -> Mdblog {
    let theme = Theme { name: "simple".to_string(), assets: Vec::new() };
    Mdblog::new("blog", Settings::default(), theme)
}

fn file(path: &str, content: &str) -> SourceFile {
    SourceFile { path: path.to_string(), content: content.to_string() }
}

fn two_posts() -> Vec<SourceFile> {
    vec![
        file("posts/hello.md", "date: 2020-01-01 10:00:00\ntags: intro\n\nHello"),
        file("posts/math.md", "date: 2020-02-01 10:00:00\ntags: math, intro\n\nMath"),
    ]
}

fn titles(blog: &Mdblog) -> Vec<String> {
    blog.posts.iter().map(|p| p.title().to_string()).collect()
}

#[test]
fn new_blog_is_empty() {
    let blog = blog();
    assert_eq!(blog.root, "blog");
    assert_eq!(blog.settings, Settings::default());
    assert!(blog.posts.is_empty());
    assert!(blog.tags.is_empty());
}

#[test]
fn posts_come_newest_first() {
    let mut blog = blog();
    assert_eq!(blog.load(&two_posts()), Ok(()));
    assert_eq!(titles(&blog), vec!["math".to_string(), "hello".to_string()]);
    assert_eq!(blog.posts[0].datetime(), 1580551200);
    assert_eq!(blog.posts[1].datetime(), 1577872800);
}

#[test]
fn tag_index_lists_posts_by_tag() {
    let mut blog = blog();
    blog.load(&two_posts()).unwrap();
    assert_eq!(
        blog.tags,
        vec![
            Tag { name: "intro".to_string(), posts: vec![0, 1] },
            Tag { name: "math".to_string(), posts: vec![0] },
        ]
    );
}

#[test]
fn posts_of_one_date_keep_their_order() {
    let mut blog = blog();
    let files = vec![
        file("posts/a.md", "date: 2020-01-01 10:00:00\n\na"),
        file("posts/b.md", "date: 2021-01-01 10:00:00\n\nb"),
        file("posts/c.md", "date: 2020-01-01 10:00:00\n\nc"),
        file("posts/d.md", "date: 2021-01-01 10:00:00\n\nd"),
        file("posts/e.md", "k: v\n\ne"),
    ];
    blog.load(&files).unwrap();
    let expected: Vec<String> = ["b", "d", "a", "c", "e"].iter().map(|s| s.to_string()).collect();
    assert_eq!(titles(&blog), expected);
}

#[test]
fn loading_twice_gives_the_same() {
    let mut first = blog();
    let mut second = blog();
    first.load(&two_posts()).unwrap();
    second.load(&two_posts()).unwrap();
    second.load(&two_posts()).unwrap();
    assert_eq!(first.posts, second.posts);
    assert_eq!(first.tags, second.tags);
}

#[test]
fn loading_replaces_what_was_there() {
    let mut blog = blog();
    blog.load(&two_posts()).unwrap();
    blog.load(&vec![file("posts/only.md", "tags: solo\n\nbody")]).unwrap();
    assert_eq!(titles(&blog), vec!["only".to_string()]);
    assert_eq!(blog.tags, vec![Tag { name: "solo".to_string(), posts: vec![0] }]);
    blog.load(&Vec::new()).unwrap();
    assert!(blog.posts.is_empty());
    assert!(blog.tags.is_empty());
}

#[test]
fn malformed_post_fails_the_whole_load() {
    let mut blog = blog();
    blog.load(&two_posts()).unwrap();
    let posts = blog.posts.clone();
    let tags = blog.tags.clone();
    let files = vec![
        file("posts/good.md", "tags: x\n\nbody"),
        file("posts/bad.md", "date 2020\n\nbody"),
        file("posts/worse.md", "no body"),
    ];
    assert_eq!(blog.load(&files), Err(Error::PostHead("posts/bad.md".to_string())));
    assert_eq!(blog.posts, posts);
    assert_eq!(blog.tags, tags);
}

#[test]
fn post_without_body_fails_the_whole_load() {
    let mut blog = blog();
    let files = vec![file("posts/empty.md", "date: 2020-01-01 10:00:00\n"), file("posts/bad.md", "x\n\ny")];
    assert_eq!(blog.load(&files), Err(Error::PostNoBody("posts/empty.md".to_string())));
    assert!(blog.posts.is_empty());
    assert_eq!(load_posts(&files), Err(Error::PostNoBody("posts/empty.md".to_string())));
}

#[test]
fn hidden_posts_stay_out_of_the_tag_index() {
    let mut blog = blog();
    let files = vec![
        file("posts/shown.md", "date: 2020-01-01 10:00:00\ntags: a\n\nbody"),
        file("posts/secret.md", "date: 2020-03-01 10:00:00\ntags: a, b\nhidden: true\n\nbody"),
    ];
    blog.load(&files).unwrap();
    assert_eq!(titles(&blog), vec!["secret".to_string(), "shown".to_string()]);
    assert_eq!(blog.tags, vec![Tag { name: "a".to_string(), posts: vec![1] }]);
}

#[test]
fn each_post_stands_once_under_each_of_its_tags() {
    let mut blog = blog();
    let files = vec![
        file("posts/a.md", "date: 2020-01-01 10:00:00\ntags: x, y, x\n\nbody"),
        file("posts/b.md", "date: 2020-01-02 10:00:00\ntags: y\n\nbody"),
        file("posts/c.md", "date: 2020-01-03 10:00:00\ntags: z, x\n\nbody"),
    ];
    blog.load(&files).unwrap();
    for (place, post) in blog.posts.iter().enumerate() {
        for tag in post.tags() {
            let at = find_tag(&blog.tags, tag).unwrap();
            let times = blog.tags[at].posts.iter().filter(|p| **p == place).count();
            assert_eq!(times, 1);
        }
    }
    for tag in &blog.tags {
        assert!(!tag.posts.is_empty());
        for pair in tag.posts.windows(2) {
            assert!(blog.posts[pair[0]].datetime() >= blog.posts[pair[1]].datetime());
        }
    }
    assert_eq!(tagged_posts(&blog.posts, "x"), vec![0, 2]);
    assert_eq!(tagged_posts(&blog.posts, "none"), Vec::<usize>::new());
}

#[test]
fn tag_names_are_sorted_by_character() {
    let posts = load_posts(&vec![file("a.md", "tags: b, B, a, é, ab, \n\nbody")]).unwrap();
    let names: Vec<String> = build_index(&posts).into_iter().map(|t| t.name).collect();
    let mut sorted = names.clone();
    sorted.sort();
    assert_eq!(names, sorted);
    assert_eq!(names, vec!["B", "a", "ab", "b", "é"]);
}

#[test]
fn find_tag_gives_the_place_of_the_entry() {
    let tags = vec![
        Tag { name: "a".to_string(), posts: vec![0] },
        Tag { name: "b".to_string(), posts: vec![1] },
    ];
    assert_eq!(find_tag(&tags, "b"), Some(1));
    assert_eq!(find_tag(&tags, "c"), None);
}

#[test]
fn hidden_entries_start_with_a_dot() {
    assert!(is_hidden(".git"));
    assert!(is_hidden("."));
    assert!(!is_hidden("posts"));
    assert!(!is_hidden("a.md"));
    assert!(!is_hidden(""));
}

#[test]
fn markdown_files_end_in_md() {
    assert!(is_markdown_file("hello.md", true));
    assert!(!is_markdown_file("hello.md", false));
    assert!(!is_markdown_file(".hello.md", true));
    assert!(!is_markdown_file("~hello.md", true));
    assert!(!is_markdown_file("hello.txt", true));
    assert!(!is_markdown_file("md", true));
    assert!(is_markdown_file("x.md", true));
    assert!(!is_markdown_file("hello.md~", true));
}
