use mdblog::blog::SourceFile;
use mdblog::render::{all_tag_maps, order_by_lowercase, page_of, tag_map, tag_url, Rendering};
use mdblog::tags::Tag;
use mdblog::{Error, Mdblog, Post, Settings, Theme};

fn renderer() -> tera::Tera {
    let mut tera = tera::Tera::default();
    tera.add_raw_template(
        "post.tpl",
        "{{ title }}|{{ datetime }}|{{ content | safe }}|{% for t in post_tags %}{{ t.name }}:{{ t.num }}:{{ t.url }};{% endfor %}|{% for t in all_tags %}{{ t.name }}({{ t.num }}){% endfor %}",
    )
    .unwrap();
    tera.add_raw_template(
        "index.tpl",
        "{{ title }}:{% for p in posts %}{{ p.title }}@{{ p.url }}@{{ p.datetime }};{% endfor %}",
    )
    .unwrap();
    tera.add_raw_template(
        "tag.tpl",
        "{{ title }}:{% for p in posts %}{{ p.title }};{% endfor %}[{{ site_name }}]",
    )
    .unwrap();
    tera
}

fn rendered(tera: &tera::Tera, page: &Rendering) -> Result<String, Error> {
    page_of(tera.render(&page.template, &page.context).map_err(|failure| failure.to_string()))
}

fn loaded(files: &[(&str, &str)]) -> Mdblog {
    let theme = Theme { name: "simple".to_string(), assets: Vec::new() };
    let mut blog = Mdblog::new("blog", Settings::default(), theme);
    let files: Vec<SourceFile> = files
        .iter()
        .map(|(path, content)| SourceFile { path: path.to_string(), content: content.to_string() })
        .collect();
    blog.load(&files).unwrap();
    blog
}

fn two_posts() -> Mdblog {
    loaded(&[
        ("posts/hello.md", "date: 2020-01-01 10:00:00\ntags: intro\n\nHello"),
        ("posts/math.md", "date: 2020-02-01 10:00:00\ntags: math, intro\n\nMath"),
    ])
}

fn text_of<'a>(context: &'a tera::Context, key: &str) -> &'a str {
    context.get(key).unwrap().as_str().unwrap()
}

fn names_of(context: &tera::Context, key: &str, field: &str) -> Vec<String> {
    context
        .get(key)
        .unwrap()
        .as_array()
        .unwrap()
        .iter()
        .map(|record| record[field].as_str().unwrap().to_string())
        .collect()
}

#[test]
fn tag_url_is_under_blog_tags() {
    assert_eq!(tag_url("intro"), "/blog/tags/intro.html");
    assert_eq!(tag_url(""), "/blog/tags/.html");
}

#[test]
fn tag_map_holds_name_count_and_url() {
    let record = tag_map("math", 12);
    assert_eq!(record.len(), 3);
    assert_eq!(record["name"].as_str(), Some("math"));
    assert_eq!(record["num"].as_str(), Some("12"));
    assert_eq!(record["url"].as_str(), Some("/blog/tags/math.html"));
}

#[test]
fn base_context_holds_the_site_texts() {
    let blog = two_posts();
    let context = blog.get_base_context("A Title").unwrap();
    assert_eq!(text_of(&context, "title"), "A Title");
    assert_eq!(text_of(&context, "site_logo"), "/static/logo.png");
    assert_eq!(text_of(&context, "site_name"), "Mdblog");
    assert_eq!(text_of(&context, "site_motto"), "Simple is Beautiful!");
    assert_eq!(text_of(&context, "footer_note"), "Keep It Simple, Stupid!");
    assert_eq!(names_of(&context, "all_tags", "name"), vec!["intro", "math"]);
    assert_eq!(names_of(&context, "all_tags", "num"), vec!["2", "1"]);
    assert_eq!(
        names_of(&context, "all_tags", "url"),
        vec!["/blog/tags/intro.html", "/blog/tags/math.html"]
    );
    assert_eq!(context.clone().into_json().as_object().unwrap().len(), 6);
}

#[test]
fn all_tags_are_sorted_without_regard_to_case() {
    let blog = loaded(&[("a.md", "tags: beta, Alpha, alpha, Gamma, ALPHA, delta\n\nbody")]);
    let in_index: Vec<&str> = blog.tags.iter().map(|t| t.name.as_str()).collect();
    assert_eq!(in_index, vec!["ALPHA", "Alpha", "Gamma", "alpha", "beta", "delta"]);
    let context = blog.get_base_context("t").unwrap();
    assert_eq!(
        names_of(&context, "all_tags", "name"),
        vec!["ALPHA", "Alpha", "alpha", "beta", "delta", "Gamma"]
    );
    assert_eq!(order_by_lowercase(&blog.tags), vec![0, 1, 3, 4, 5, 2]);
    assert_eq!(all_tag_maps(&blog.tags).len(), 6);
}

#[test]
fn order_by_lowercase_of_no_tags() {
    assert_eq!(order_by_lowercase(&Vec::<Tag>::new()), Vec::<usize>::new());
}

#[test]
fn post_context_holds_content_date_and_tags() {
    let blog = two_posts();
    let context = blog.post_context(&blog.posts[0]).unwrap();
    assert_eq!(text_of(&context, "title"), "math");
    assert_eq!(text_of(&context, "content"), "<p>Math</p>\n");
    assert_eq!(text_of(&context, "datetime"), "2020-02-01 10:00:00");
    assert_eq!(names_of(&context, "post_tags", "name"), vec!["math", "intro"]);
    assert_eq!(names_of(&context, "post_tags", "num"), vec!["1", "2"]);
    assert_eq!(names_of(&context, "all_tags", "name"), vec!["intro", "math"]);
    assert_eq!(context.clone().into_json().as_object().unwrap().len(), 9);
}

#[test]
fn post_is_rendered_with_its_context_by_post_tpl() {
    let blog = two_posts();
    let page = blog.render_post(&blog.posts[1]).unwrap();
    assert_eq!(page.template, "post.tpl");
    assert_eq!(page.context, blog.post_context(&blog.posts[1]).unwrap());
    assert_eq!(
        rendered(&renderer(), &page).unwrap(),
        "hello|2020-01-01 10:00:00|<p>Hello</p>\n|intro:2:/blog/tags/intro.html;|intro(2)math(1)"
    );
}

#[test]
fn hidden_post_shows_neither_date_nor_tags() {
    let blog = loaded(&[
        ("posts/secret.md", "date: 2020-01-01 10:00:00\ntags: a\nhidden: true\n\nbody"),
        ("posts/shown.md", "date: 2020-01-01 10:00:00\ntags: b\n\nbody"),
    ]);
    let context = blog.post_context(&blog.posts[0]).unwrap();
    assert_eq!(text_of(&context, "title"), "secret");
    assert_eq!(text_of(&context, "datetime"), "");
    assert!(names_of(&context, "post_tags", "name").is_empty());
    let page = blog.render_post(&blog.posts[0]).unwrap();
    assert_eq!(rendered(&renderer(), &page).unwrap(), "secret||<p>body</p>\n||b(1)");
}

#[test]
fn post_with_a_tag_outside_the_index_is_refused() {
    let blog = two_posts();
    let stranger = Post::parse("posts/x.md", "tags: intro, nowhere, nothing\n\nbody").unwrap();
    assert_eq!(blog.render_post(&stranger), Err(Error::TagMissing("nowhere".to_string())));
    assert!(matches!(blog.post_context(&stranger), Err(Error::TagMissing(_))));
    let hidden = Post::parse("posts/x.md", "tags: nowhere\nhidden: true\n\nbody").unwrap();
    assert!(blog.render_post(&hidden).is_ok());
}

#[test]
fn index_lists_the_posts_that_are_not_hidden() {
    let blog = loaded(&[
        ("posts/hello.md", "date: 2020-01-01 10:00:00\ntags: intro\n\nHello"),
        ("posts/secret.md", "date: 2020-01-15 10:00:00\ntags: intro\nhidden: true\n\nSecret"),
        ("posts/math.md", "date: 2020-02-01 10:00:00\ntags: math, intro\n\nMath"),
    ]);
    let context = blog.index_context().unwrap();
    assert_eq!(text_of(&context, "title"), "Mdblog");
    assert_eq!(names_of(&context, "posts", "title"), vec!["math", "hello"]);
    let page = blog.render_index().unwrap();
    assert_eq!(page.template, "index.tpl");
    assert_eq!(page.context, context);
    assert_eq!(
        rendered(&renderer(), &page).unwrap(),
        "Mdblog:math@/posts/math.html@2020-02-01 10:00:00;hello@/posts/hello.html@2020-01-01 10:00:00;"
    );
}

#[test]
fn posts_maps_pass_over_hidden_posts_and_strange_places() {
    let blog = loaded(&[
        ("posts/a.md", "date: 2020-01-03 10:00:00\n\na"),
        ("posts/b.md", "date: 2020-01-02 10:00:00\nhidden: true\n\nb"),
        ("posts/c.md", "date: 2020-01-01 10:00:00\n\nc"),
    ]);
    let records = blog.get_posts_maps(&vec![2, 1, 7, 0, 2]).unwrap();
    let titles: Vec<&str> = records.iter().map(|r| r["title"].as_str().unwrap()).collect();
    assert_eq!(titles, vec!["c", "a", "c"]);
}

#[test]
fn tag_page_lists_the_posts_of_the_tag() {
    let blog = two_posts();
    let context = blog.tag_context("intro").unwrap();
    assert_eq!(text_of(&context, "title"), "intro");
    assert_eq!(names_of(&context, "posts", "title"), vec!["math", "hello"]);
    let page = blog.render_tag("intro").unwrap();
    assert_eq!(page.template, "tag.tpl");
    assert_eq!(page.context, context);
    assert_eq!(rendered(&renderer(), &page).unwrap(), "intro:math;hello;[Mdblog]");
    let math = blog.render_tag("math").unwrap();
    assert_eq!(rendered(&renderer(), &math).unwrap(), "math:math;[Mdblog]");
}

#[test]
fn tag_outside_the_index_has_no_page() {
    let blog = two_posts();
    assert_eq!(blog.render_tag("nowhere"), Err(Error::TagMissing("nowhere".to_string())));
    assert!(matches!(blog.tag_context("nowhere"), Err(Error::TagMissing(_))));
}

#[test]
fn missing_template_is_a_template_failure() {
    let blog = two_posts();
    let page = blog.render_index().unwrap();
    assert!(matches!(rendered(&tera::Tera::default(), &page), Err(Error::Template(_))));
}

#[test]
fn renderer_outcome_becomes_page_or_failure() {
    assert_eq!(page_of(Ok("<html>".to_string())), Ok("<html>".to_string()));
    assert_eq!(page_of(Err("broken".to_string())), Err(Error::Template("broken".to_string())));
}
