use mdblog::blog::SourceFile;
use mdblog::export::{resolve_build_dir, write_page, Action, MediaEntry};
use mdblog::render::{page_of, Rendering};
use mdblog::theme::Asset;
use mdblog::{Error, Mdblog, Settings, Theme};

fn renderer() -> tera::Tera {
    let mut tera = tera::Tera::default();
    tera.add_raw_template("post.tpl", "post {{ title }}").unwrap();
    tera.add_raw_template(
        "index.tpl",
        "index{% for p in posts %} {{ p.title }}{% endfor %}",
    )
    .unwrap();
    tera.add_raw_template(
        "tag.tpl",
        "tag {{ title }}:{% for p in posts %} {{ p.title }}{% endfor %}",
    )
    .unwrap();
    tera
}

/// Carries out the page steps as a caller does: renders, and gives the file
/// to write; the other steps stay as they are.
fn carried_out(tera: &tera::Tera, actions: Vec<Action>) -> Result<Vec<Action>, Error> {
    let mut done = Vec::new();
    for action in actions {
        match action {
            Action::RenderPage { path, page } => {
                let outcome = tera.render(&page.template, &page.context);
                let html = page_of(outcome.map_err(|failure| failure.to_string()))?;
                done.push(write_page(path, &html));
            }
            other => done.push(other),
        }
    }
    Ok(done)
}

fn blog_with(settings: Settings) -> Mdblog {
    let theme = Theme {
        name: "simple".to_string(),
        assets: vec![
            Asset { path: "static/main.css".to_string(), content: b"body {}".to_vec() },
            Asset { path: "static/logo.png".to_string(), content: vec![0, 159, 146, 150] },
        ],
    };
    let mut blog = Mdblog::new("blog", settings, theme);
    let files = vec![
        SourceFile {
            path: "posts/hello.md".to_string(),
            content: "date: 2020-01-01 10:00:00\ntags: intro\n\nHello".to_string(),
        },
        SourceFile {
            path: "posts/math.md".to_string(),
            content: "date: 2020-02-01 10:00:00\ntags: math, intro\n\nMath".to_string(),
        },
        SourceFile {
            path: "posts/draft.md".to_string(),
            content: "date: 2020-03-01 10:00:00\ntags: math\nhidden: true\n\nDraft".to_string(),
        },
    ];
    blog.load(&files).unwrap();
    blog
}

fn blog() -> Mdblog {
    blog_with(Settings::default())
}

fn write(path: &str, text: &str) -> Action {
    Action::WriteFile { path: path.to_string(), content: text.as_bytes().to_vec() }
}

fn page(path: &str, page: Rendering) -> Action {
    Action::RenderPage { path: path.to_string(), page }
}

fn entry(path: &str, is_dir: bool) -> MediaEntry {
    MediaEntry { path: path.to_string(), is_dir }
}

#[test]
fn relative_build_dir_lies_under_the_root() {
    assert_eq!(resolve_build_dir("/home/me/blog", "_build"), "/home/me/blog/_build");
    assert_eq!(resolve_build_dir("blog", "out/site"), "blog/out/site");
    assert_eq!(resolve_build_dir("/home/me/blog", "/var/www"), "/var/www");
}

#[test]
fn build_dir_comes_from_the_settings() {
    assert_eq!(blog().get_build_dir(), Ok("blog/_build".to_string()));
    let mut settings = Settings::default();
    settings.build_dir = "/var/www/site".to_string();
    assert_eq!(blog_with(settings).get_build_dir(), Ok("/var/www/site".to_string()));
}

#[test]
fn unknown_variable_in_the_build_dir_is_a_failure() {
    let mut settings = Settings::default();
    settings.build_dir = "$MDBLOG_TEST_VARIABLE_THAT_IS_NOT_SET/site".to_string();
    assert_eq!(
        blog_with(settings).get_build_dir(),
        Err(Error::Config("MDBLOG_TEST_VARIABLE_THAT_IS_NOT_SET".to_string()))
    );
}

#[test]
fn media_go_under_the_build_dir() {
    let blog = blog();
    assert_eq!(blog.media_dest("out", "blog/media/img/a.png"), Ok("out/img/a.png".to_string()));
    assert_eq!(blog.media_dest("out", "blog/media"), Ok("out/".to_string()));
    assert_eq!(
        blog.media_dest("out", "elsewhere/a.png"),
        Err(Error::PathPrefix("elsewhere/a.png".to_string()))
    );
}

#[test]
fn media_directories_are_made_and_files_copied() {
    let blog = blog();
    let entries = vec![
        entry("blog/media", true),
        entry("blog/media/img", true),
        entry("blog/media/img/a.png", false),
        entry("blog/media/b.txt", false),
    ];
    assert_eq!(
        blog.export_media("out", &entries),
        Ok(vec![
            Action::CreateDir { path: "out/".to_string() },
            Action::CreateDir { path: "out/img".to_string() },
            Action::CopyFile {
                from: "blog/media/img/a.png".to_string(),
                to: "out/img/a.png".to_string()
            },
            Action::CopyFile { from: "blog/media/b.txt".to_string(), to: "out/b.txt".to_string() },
        ])
    );
    assert_eq!(blog.export_media("out", &Vec::new()), Ok(Vec::new()));
}

#[test]
fn media_outside_the_media_directory_fail_the_export() {
    let blog = blog();
    let entries = vec![entry("blog/media", true), entry("other/x", false), entry("other/y", false)];
    assert_eq!(blog.export_media("out", &entries), Err(Error::PathPrefix("other/x".to_string())));
    assert_eq!(blog.export("out", &entries), Err(Error::PathPrefix("other/x".to_string())));
    assert!(blog.build("out", &entries).is_err());
}

#[test]
fn static_files_are_written_as_they_are() {
    assert_eq!(
        blog().export_static("out"),
        Ok(vec![
            Action::WriteFile { path: "out/static/main.css".to_string(), content: b"body {}".to_vec() },
            Action::WriteFile {
                path: "out/static/logo.png".to_string(),
                content: vec![0, 159, 146, 150]
            },
        ])
    );
}

#[test]
fn every_post_gets_a_page_hidden_or_not() {
    let blog = blog();
    assert_eq!(
        blog.export_posts("out"),
        Ok(vec![
            page("out/posts/draft.html", blog.render_post(&blog.posts[0]).unwrap()),
            page("out/posts/math.html", blog.render_post(&blog.posts[1]).unwrap()),
            page("out/posts/hello.html", blog.render_post(&blog.posts[2]).unwrap()),
        ])
    );
    assert_eq!(
        carried_out(&renderer(), blog.export_posts("out").unwrap()),
        Ok(vec![
            write("out/posts/draft.html", "post draft"),
            write("out/posts/math.html", "post math"),
            write("out/posts/hello.html", "post hello"),
        ])
    );
}

#[test]
fn index_page_leaves_hidden_posts_out() {
    let blog = blog();
    assert_eq!(
        blog.export_index("out"),
        Ok(vec![page("out/index.html", blog.render_index().unwrap())])
    );
    assert_eq!(
        carried_out(&renderer(), blog.export_index("out").unwrap()),
        Ok(vec![write("out/index.html", "index math hello")])
    );
}

#[test]
fn every_tag_gets_a_page() {
    let blog = blog();
    assert_eq!(
        blog.export_tags("out"),
        Ok(vec![
            page("out/blog/tags/intro.html", blog.render_tag("intro").unwrap()),
            page("out/blog/tags/math.html", blog.render_tag("math").unwrap()),
        ])
    );
    assert_eq!(
        carried_out(&renderer(), blog.export_tags("out").unwrap()),
        Ok(vec![
            write("out/blog/tags/intro.html", "tag intro: math hello"),
            write("out/blog/tags/math.html", "tag math: math"),
        ])
    );
}

#[test]
fn export_goes_media_static_posts_index_tags() {
    let blog = blog();
    let entries = vec![entry("blog/media", true), entry("blog/media/a.png", false)];
    let actions = blog.export("out", &entries).unwrap();
    let mut expected = blog.export_media("out", &entries).unwrap();
    expected.extend(blog.export_static("out").unwrap());
    expected.extend(blog.export_posts("out").unwrap());
    expected.extend(blog.export_index("out").unwrap());
    expected.extend(blog.export_tags("out").unwrap());
    assert_eq!(actions, expected);
    assert_eq!(actions.len(), 2 + 2 + 3 + 1 + 2);
    assert_eq!(blog.build("out", &entries), Ok(expected));
}

#[test]
fn pages_without_templates_are_template_failures() {
    let blog = blog();
    let none = tera::Tera::default();
    assert!(matches!(
        carried_out(&none, blog.export_posts("out").unwrap()),
        Err(Error::Template(_))
    ));
    assert!(matches!(
        carried_out(&none, blog.export_index("out").unwrap()),
        Err(Error::Template(_))
    ));
    assert!(matches!(
        carried_out(&none, blog.export_tags("out").unwrap()),
        Err(Error::Template(_))
    ));
    assert_eq!(
        carried_out(&none, blog.export_static("out").unwrap()),
        blog.export_static("out")
    );
}

#[test]
fn export_of_a_blog_without_posts() {
    let theme = Theme { name: "simple".to_string(), assets: Vec::new() };
    let blog = Mdblog::new("blog", Settings::default(), theme);
    assert_eq!(blog.export_posts("out"), Ok(Vec::new()));
    assert_eq!(blog.export_tags("out"), Ok(Vec::new()));
    assert_eq!(
        carried_out(&renderer(), blog.export("out", &Vec::new()).unwrap()),
        Ok(vec![write("out/index.html", "index")])
    );
}

#[test]
fn page_is_written_as_utf8() {
    assert_eq!(
        write_page("out/a.html".to_string(), "é!"),
        Action::WriteFile { path: "out/a.html".to_string(), content: vec![0xC3, 0xA9, 0x21] }
    );
}

#[test]
fn end_to_end() {
    let mut tera = tera::Tera::default();
    tera.add_raw_template("post.tpl", "{{ title }}").unwrap();
    tera.add_raw_template(
        "index.tpl",
        "{% for p in posts %}{{ p.title }},{% endfor %}",
    )
    .unwrap();
    tera.add_raw_template("tag.tpl", "{% for p in posts %}{{ p.title }},{% endfor %}").unwrap();
    let theme = Theme { name: "simple".to_string(), assets: Vec::new() };
    let mut blog = Mdblog::new("site", Settings::default(), theme);
    let files = vec![
        SourceFile {
            path: "posts/hello.md".to_string(),
            content: "date: 2020-01-01 10:00:00\ntags: intro\n\nHello".to_string(),
        },
        SourceFile {
            path: "posts/math.md".to_string(),
            content: "date: 2020-02-01 10:00:00\ntags: math, intro\n\nMath".to_string(),
        },
    ];
    blog.load(&files).unwrap();
    let titles: Vec<&str> = blog.posts.iter().map(|p| p.title()).collect();
    assert_eq!(titles, vec!["math", "hello"]);
    assert_eq!(blog.tags.len(), 2);
    assert_eq!(blog.tags[0].name, "intro");
    assert_eq!(blog.tags[0].posts, vec![0, 1]);
    assert_eq!(blog.tags[1].name, "math");
    assert_eq!(blog.tags[1].posts, vec![0]);
    let build_dir = blog.get_build_dir().unwrap();
    assert_eq!(build_dir, "site/_build");
    assert_eq!(
        carried_out(&tera, blog.export(&build_dir, &Vec::new()).unwrap()),
        Ok(vec![
            write("site/_build/posts/math.html", "math"),
            write("site/_build/posts/hello.html", "hello"),
            write("site/_build/index.html", "math,hello,"),
            write("site/_build/blog/tags/intro.html", "math,hello,"),
            write("site/_build/blog/tags/math.html", "math,"),
        ])
    );
}

#[test]
fn rebuild_loads_and_exports() {
    let theme = Theme { name: "simple".to_string(), assets: Vec::new() };
    let mut blog = Mdblog::new("blog", Settings::default(), theme);
    let files = vec![SourceFile {
        path: "posts/one.md".to_string(),
        content: "date: 2020-01-01 10:00:00\ntags: a\n\nOne".to_string(),
    }];
    let entries = vec![entry("blog/media", true)];
    let actions = blog.rebuild(&files, "out", &entries).unwrap();
    assert_eq!(blog.posts.len(), 1);
    assert_eq!(blog.tags.len(), 1);
    assert_eq!(Ok(&actions), blog.export("out", &entries).as_ref());
    assert_eq!(
        carried_out(&renderer(), actions),
        Ok(vec![
            Action::CreateDir { path: "out/".to_string() },
            write("out/posts/one.html", "post one"),
            write("out/index.html", "index one"),
            write("out/blog/tags/a.html", "tag a: one"),
        ])
    );
}

#[test]
fn rebuild_exports_nothing_after_a_failed_load() {
    let mut blog = blog();
    let posts = blog.posts.clone();
    let tags = blog.tags.clone();
    let files = vec![
        SourceFile { path: "posts/good.md".to_string(), content: "k: v\n\nbody".to_string() },
        SourceFile { path: "posts/bad.md".to_string(), content: "no colon\n\nbody".to_string() },
    ];
    assert_eq!(
        blog.rebuild(&files, "out", &Vec::new()),
        Err(Error::PostHead("posts/bad.md".to_string()))
    );
    assert_eq!(blog.posts, posts);
    assert_eq!(blog.tags, tags);
}

#[test]
fn rebuild_keeps_the_new_posts_when_the_export_fails() {
    let mut blog = blog();
    let files = vec![SourceFile {
        path: "posts/one.md".to_string(),
        content: "tags: a\n\nOne".to_string(),
    }];
    let outside = vec![entry("elsewhere/x", false)];
    assert_eq!(
        blog.rebuild(&files, "out", &outside),
        Err(Error::PathPrefix("elsewhere/x".to_string()))
    );
    assert_eq!(blog.posts.len(), 1);
    assert_eq!(blog.posts[0].title(), "one");
}

#[test]
fn post_lacking_a_tag_fails_the_export_with_that_tag() {
    let mut blog = blog();
    blog.tags.retain(|tag| tag.name != "math");
    assert_eq!(blog.export_posts("out"), Err(Error::TagMissing("math".to_string())));
    assert_eq!(blog.export("out", &Vec::new()), Err(Error::TagMissing("math".to_string())));
    blog.posts.remove(1);
    assert!(blog.export_posts("out").is_ok());
}
