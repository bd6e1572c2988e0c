use mdblog::export::Action;
use mdblog::site::{server_address, server_url, templates_glob, HELLO_POST, MATH_POST};
use mdblog::watch::ignore_patterns;
use mdblog::{Error, Mdblog, Post, Settings, Theme};

fn blog() -> Mdblog {
    let theme = Theme { name: "simple".to_string(), assets: Vec::new() };
    Mdblog::new("blog", Settings::default(), theme)
}

fn patterns() -> Vec<String> {
    ignore_patterns("blog/_build").unwrap()
}

fn tags(names: &[&str]) -> Vec<String> {
    names.iter().map(|n| n.to_string()).collect()
}

#[test]
fn default_settings() {
    let settings = Settings::default();
    assert_eq!(settings.theme, "simple");
    assert_eq!(settings.site_logo, "/static/logo.png");
    assert_eq!(settings.site_name, "Mdblog");
    assert_eq!(settings.site_motto, "Simple is Beautiful!");
    assert_eq!(settings.footer_note, "Keep It Simple, Stupid!");
    assert_eq!(settings.build_dir, "_build");
    assert_eq!(settings.rebuild_interval, 2);
}

#[test]
fn new_post_is_written_under_posts() {
    let r = blog().create_post("notes/first", &tags(&["a", "b"]), &patterns(), 1577872800, false, false);
    assert_eq!(
        r,
        Ok(Action::WriteFile {
            path: "blog/posts/notes/first.md".to_string(),
            content: b"date: 2020-01-01 10:00:00\ntags: a, b\n\nthis is a new post!\n".to_vec(),
        })
    );
    assert_eq!(blog().post_file_path("notes/first"), "blog/posts/notes/first.md");
}

#[test]
fn new_post_can_be_read_back() {
    let r = blog().create_post("first", &tags(&["x"]), &patterns(), 1580551200, false, false);
    let content = match r {
        Ok(Action::WriteFile { content, .. }) => String::from_utf8(content).unwrap(),
        _ => panic!("no file to write"),
    };
    let post = Post::parse("posts/first.md", &content).unwrap();
    assert_eq!(post.datetime(), 1580551200);
    assert_eq!(post.tags(), &tags(&["x"]));
    assert_eq!(post.body, "this is a new post!");
}

#[test]
fn new_post_without_tags() {
    let r = blog().create_post("first", &Vec::new(), &patterns(), 0, false, false);
    assert_eq!(
        r,
        Ok(Action::WriteFile {
            path: "blog/posts/first.md".to_string(),
            content: b"date: 1970-01-01 00:00:00\ntags: \n\nthis is a new post!\n".to_vec(),
        })
    );
}

#[test]
fn invalid_post_paths_are_refused() {
    let blog = blog();
    for path in ["/abs/first", "first.md", "", "..", "drafts/.hidden", "blog/_build/x/first"] {
        assert_eq!(
            blog.create_post(path, &Vec::new(), &patterns(), 0, false, false),
            Err(Error::PostPathInvaild(path.to_string()))
        );
    }
    assert_eq!(
        blog.create_post("first.md", &Vec::new(), &patterns(), 0, true, true),
        Err(Error::PostPathInvaild("first.md".to_string()))
    );
}

#[test]
fn post_that_is_there_is_not_created_again() {
    let blog = blog();
    assert_eq!(
        blog.create_post("first", &Vec::new(), &patterns(), 0, true, false),
        Err(Error::PostPathExisted("first".to_string()))
    );
    assert_eq!(
        blog.create_post("first", &Vec::new(), &patterns(), 0, false, true),
        Err(Error::PostPathExisted("first".to_string()))
    );
}

#[test]
fn theme_in_use_cannot_be_removed() {
    let blog = blog();
    assert_eq!(blog.delete_blog_theme("simple", true), Err(Error::ThemeInUse("simple".to_string())));
    assert_eq!(blog.delete_blog_theme("simple", false), Err(Error::ThemeInUse("simple".to_string())));
    assert_eq!(blog.delete_blog_theme("dark", false), Err(Error::ThemeNotFound("dark".to_string())));
    assert_eq!(
        blog.delete_blog_theme("dark", true),
        Ok(Action::RemoveDir { path: "blog/_themes/dark".to_string() })
    );
    assert_eq!(blog.theme_dir("dark"), "blog/_themes/dark");
}

#[test]
fn theme_is_set_where_it_is_there() {
    let mut blog = blog();
    assert_eq!(blog.set_blog_theme("dark", false), Err(Error::ThemeNotFound("dark".to_string())));
    assert_eq!(blog.settings, Settings::default());
    assert_eq!(blog.set_blog_theme("dark", true), Ok(()));
    assert_eq!(blog.settings.theme, "dark");
    assert_eq!(blog.settings.site_name, "Mdblog");
    assert_eq!(blog.delete_blog_theme("dark", true), Err(Error::ThemeInUse("dark".to_string())));
}

#[test]
fn settings_can_be_replaced() {
    let mut blog = blog();
    let mut settings = Settings::default();
    settings.site_name = "Mine".to_string();
    blog.load_customize_settings(settings.clone());
    assert_eq!(blog.settings, settings);
    assert_eq!(blog.root, "blog");
}

#[test]
fn templates_lie_under_the_theme() {
    assert_eq!(templates_glob("blog", "simple"), "blog/_themes/simple/templates/*");
}

#[test]
fn new_blog_starts_with_two_posts() {
    let blog = blog();
    assert_eq!(blog.init(true), Err(Error::RootDirExisted("blog".to_string())));
    assert_eq!(
        blog.init(false),
        Ok(vec![
            Action::WriteFile {
                path: "blog/posts/hello.md".to_string(),
                content: HELLO_POST.as_bytes().to_vec()
            },
            Action::WriteFile {
                path: "blog/posts/math.md".to_string(),
                content: MATH_POST.as_bytes().to_vec()
            },
            Action::CreateDir { path: "blog/media".to_string() },
        ])
    );
    let hello = Post::parse("posts/hello.md", HELLO_POST).unwrap();
    assert_eq!(hello.tags(), &tags(&["hello", "world"]));
    let math = Post::parse("posts/math.md", MATH_POST).unwrap();
    assert_eq!(math.tags(), &tags(&["math"]));
    assert!(math.datetime() > hello.datetime());
}

#[test]
fn failures_have_a_sentence() {
    assert_eq!(
        Error::PostHead("posts/a.md".to_string()).message(),
        "post `posts/a.md` head part format error"
    );
    assert_eq!(
        Error::PostNoBody("posts/a.md".to_string()).message(),
        "post `posts/a.md` has not body part"
    );
    assert_eq!(Error::Template("boom".to_string()).message(), "Template error: boom");
    assert_eq!(Error::ThemeNotFound("dark".to_string()).message(), "blog theme `dark` not found");
    assert_eq!(Error::ThemeInUse("dark".to_string()).message(), "blog theme `dark` is in use");
    assert_eq!(
        Error::RootDirExisted("blog".to_string()).message(),
        "blog root directory `blog` already exists"
    );
    assert_eq!(Error::PostPathInvaild("a.md".to_string()).message(), "post path `a.md` is invalid");
    assert_eq!(
        Error::PostPathExisted("a".to_string()).message(),
        "post path `a` already exists"
    );
    assert_eq!(
        Error::Config("HOME".to_string()).message(),
        "cannot expand the build directory: unknown variable `HOME`"
    );
    assert_eq!(Error::Pattern("[".to_string()).message(), "invalid glob pattern `[`");
    assert_eq!(
        Error::PathPrefix("x/y".to_string()).message(),
        "path `x/y` is outside the media directory"
    );
    assert_eq!(
        Error::TagMissing("t".to_string()).message(),
        "tag `t` is not in the tag index"
    );
}

#[test]
fn themes_are_the_directories() {
    let entries = vec![
        ("simple".to_string(), true),
        ("notes.txt".to_string(), false),
        ("dark".to_string(), true),
    ];
    assert_eq!(blog().list_blog_theme(&entries), vec!["simple".to_string(), "dark".to_string()]);
    assert!(blog().list_blog_theme(&Vec::new()).is_empty());
}

#[test]
fn site_is_served_on_this_machine() {
    assert_eq!(server_address(5000), "127.0.0.1:5000");
    assert_eq!(server_url(80), "http://127.0.0.1:80");
    assert_eq!(server_address(0), "127.0.0.1:0");
    assert_eq!(server_address(65535), "127.0.0.1:65535");
}
