use mdblog::watch::{ignore_patterns, is_ignored, strip_trailing, Event, Watcher};
use mdblog::{Mdblog, Settings, Theme};

fn watcher(build_dir: &str, seconds: u32) -> Watcher {
    Watcher::new(ignore_patterns(build_dir).unwrap(), seconds)
}

#[test]
fn trailing_slashes_are_taken_off() {
    assert_eq!(strip_trailing("_build///", '/'), "_build");
    assert_eq!(strip_trailing("a/b", '/'), "a/b");
    assert_eq!(strip_trailing("///", '/'), "");
    assert_eq!(strip_trailing("", '/'), "");
}

#[test]
fn patterns_name_hidden_files_and_the_build_dir() {
    assert_eq!(
        ignore_patterns("/home/me/blog/_build/"),
        Ok(vec!["**/.*".to_string(), "/home/me/blog/_build/**/*".to_string()])
    );
}

#[test]
fn build_dir_that_is_no_pattern_is_a_failure() {
    assert_eq!(
        ignore_patterns("site[/_build"),
        Err(mdblog::Error::Pattern("site[/_build/**/*".to_string()))
    );
}

#[test]
fn changes_under_the_build_dir_are_dropped() {
    let mut watcher = watcher("_build/", 2);
    assert!(!watcher.on_event(&Event::Write("_build/index.html".to_string()), 10_000));
    assert_eq!(watcher.last_run, None);
    assert!(watcher.on_event(&Event::Write("posts/new.md".to_string()), 10_000));
    assert_eq!(watcher.last_run, Some(10_000));
}

#[test]
fn changes_of_hidden_files_are_dropped() {
    let mut watcher = watcher("/blog/_build", 0);
    assert!(!watcher.on_event(&Event::Create("/blog/posts/.hello.md.swp".to_string()), 5));
    assert!(watcher.on_event(&Event::Create("/blog/posts/hello.md".to_string()), 5));
    assert!(is_ignored(&watcher.patterns, "/blog/_build/blog/tags/a.html"));
    assert!(!is_ignored(&watcher.patterns, "/blog/media/a.png"));
    assert!(!is_ignored(&Vec::new(), "/blog/.git"));
}

#[test]
fn two_changes_within_the_interval_rebuild_once() {
    let mut watcher = watcher("_build", 2);
    let change = Event::Write("posts/a.md".to_string());
    assert!(watcher.on_event(&change, 1_000));
    assert!(!watcher.on_event(&change, 1_500));
    assert!(!watcher.on_event(&change, 2_999));
    assert_eq!(watcher.last_run, Some(1_000));
    assert!(watcher.on_event(&change, 3_000));
    assert_eq!(watcher.last_run, Some(3_000));
}

#[test]
fn clock_that_goes_back_counts_as_no_time() {
    let mut watcher = watcher("_build", 1);
    let change = Event::Remove("posts/a.md".to_string());
    assert!(watcher.on_event(&change, 5_000));
    assert!(!watcher.on_event(&change, 4_000));
    assert_eq!(watcher.last_run, Some(5_000));
}

#[test]
fn renaming_goes_by_the_old_path() {
    let mut watcher = watcher("_build", 2);
    let out = Event::Rename("_build/a.html".to_string(), "posts/a.md".to_string());
    assert!(!watcher.on_event(&out, 0));
    let into = Event::Rename("posts/a.md".to_string(), "_build/a.html".to_string());
    assert!(watcher.on_event(&into, 0));
}

#[test]
fn other_changes_are_dropped() {
    let mut watcher = watcher("_build", 2);
    assert!(!watcher.on_event(&Event::Other, 0));
    assert_eq!(watcher.last_run, None);
}

#[test]
fn blog_makes_its_watcher() {
    let theme = Theme { name: "simple".to_string(), assets: Vec::new() };
    let mut settings = Settings::default();
    settings.rebuild_interval = 3;
    let blog = Mdblog::new("/home/me/blog", settings, theme);
    assert_eq!(
        blog.get_ignore_patterns(),
        Ok(vec!["**/.*".to_string(), "/home/me/blog/_build/**/*".to_string()])
    );
    let watcher = blog.watch().unwrap();
    assert_eq!(watcher.interval, 3_000);
    assert_eq!(watcher.last_run, None);
    assert_eq!(watcher.patterns, blog.get_ignore_patterns().unwrap());
}

#[test]
fn blog_without_valid_patterns_has_no_watcher() {
    let theme = Theme { name: "simple".to_string(), assets: Vec::new() };
    let mut settings = Settings::default();
    settings.build_dir = "/srv/site[".to_string();
    let blog = Mdblog::new("/home/me/blog", settings, theme);
    assert_eq!(
        blog.get_ignore_patterns(),
        Err(mdblog::Error::Pattern("/srv/site[/**/*".to_string()))
    );
    assert_eq!(blog.watch(), Err(mdblog::Error::Pattern("/srv/site[/**/*".to_string())));
    let mut unknown = Settings::default();
    unknown.build_dir = "$MDBLOG_TEST_VARIABLE_THAT_IS_NOT_SET".to_string();
    let theme = Theme { name: "simple".to_string(), assets: Vec::new() };
    let blog = Mdblog::new("/home/me/blog", unknown, theme);
    assert!(matches!(blog.watch(), Err(mdblog::Error::Config(_))));
}

#[test]
fn first_change_outside_the_build_dir_rebuilds() {
    let theme = Theme { name: "simple".to_string(), assets: Vec::new() };
    let mut settings = Settings::default();
    settings.build_dir = "_build/".to_string();
    let blog = Mdblog::new("/home/me/blog", settings, theme);
    let mut watcher = blog.watch().unwrap();
    for change in [
        Event::Write("/home/me/blog/_build/index.html".to_string()),
        Event::Create("/home/me/blog/_build/index.html".to_string()),
        Event::Remove("/home/me/blog/_build/index.html".to_string()),
        Event::Rename("/home/me/blog/_build/index.html".to_string(), "/tmp/x".to_string()),
    ] {
        assert!(!watcher.on_event(&change, 7));
        assert_eq!(watcher.last_run, None);
    }
    assert!(watcher.on_event(&Event::Create("/home/me/blog/posts/new.md".to_string()), 9));
    assert_eq!(watcher.last_run, Some(9));
}

#[test]
fn change_of_a_file_without_a_readable_path_rebuilds() {
    let mut watcher = watcher("_build", 2);
    assert!(watcher.on_event(&Event::Nameless, 100));
    assert_eq!(watcher.last_run, Some(100));
    assert!(!watcher.on_event(&Event::Nameless, 200));
    assert!(watcher.on_event(&Event::Nameless, 2_100));
}

#[test]
fn plain_build_dir_stands_for_itself() {
    let theme = Theme { name: "simple".to_string(), assets: Vec::new() };
    let mut settings = Settings::default();
    settings.build_dir = "out/site".to_string();
    let blog = Mdblog::new("/home/me/blog", settings, theme);
    assert_eq!(blog.get_build_dir(), Ok("/home/me/blog/out/site".to_string()));
    assert_eq!(
        blog.watch().unwrap().patterns,
        vec!["**/.*".to_string(), "/home/me/blog/out/site/**/*".to_string()]
    );
}
