//! The decisions of the watcher: which change of a file leads to a rebuild.
//!
//! The caller waits for the changes and reads the clock; for each change it
//! asks `Watcher::on_event`, and rebuilds where the answer is yes.

use crate::blog::Mdblog;
use crate::errors::Error;
use crate::export::resolved_build_dir;
use crate::paths::plain;
use crate::patterns::{glob_matches, glob_valid, is_pattern, pattern_matches};
use crate::text::{concat, from_chars, texts, to_chars};
use vstd::prelude::*;

verus! {

/// `s` without the characters `c` at its end.
pub open spec fn without_trailing(s: Seq<char>, c: char) -> Seq<char>
    decreases s.len(),
{
    if s.len() > 0 && s.last() == c {
        without_trailing(s.drop_last(), c)
    } else {
        s
    }
}

/// The pattern of the hidden files.
pub open spec fn hidden_pattern() -> Seq<char> {
    "**/.*"@
}

/// The pattern of all that lies under the build directory.
pub open spec fn build_pattern(build_dir: Seq<char>) -> Seq<char> {
    without_trailing(build_dir, '/') + "/**/*"@
}

/// The patterns of what the watcher passes over, for the build directory
/// `build_dir`: the hidden files, and all that lies under it.
pub open spec fn patterns_of(build_dir: Seq<char>) -> Seq<Seq<char>> {
    seq![hidden_pattern(), build_pattern(build_dir)]
}

/// Whether `glob` accepts each of the patterns.
pub open spec fn all_valid(patterns: Seq<Seq<char>>) -> bool {
    forall|i: int| 0 <= i < patterns.len() ==> glob_valid(#[trigger] patterns[i])
}

/// Whether `patterns` are the patterns for the build directory that the
/// expanded setting `expanded` stands for, each accepted by `glob`.
pub open spec fn made_for(root: Seq<char>, expanded: Seq<char>, patterns: Seq<Seq<char>>) -> bool {
    patterns == patterns_of(resolved_build_dir(root, expanded)) && all_valid(patterns)
}

/// Whether `failure` names one of the patterns for the build directory that
/// the expanded setting `expanded` stands for, which `glob` does not accept.
pub open spec fn refused_for(root: Seq<char>, expanded: Seq<char>, failure: Error) -> bool {
    match failure {
        Error::Pattern(text) => !glob_valid(text@) && patterns_of(
            resolved_build_dir(root, expanded),
        ).contains(text@),
        _ => false,
    }
}

/// Whether one of the patterns matches `path`.
pub open spec fn ignored(patterns: Seq<Seq<char>>, path: Seq<char>) -> bool {
    exists|i: int|
        0 <= i < patterns.len() && glob_valid(#[trigger] patterns[i]) && glob_matches(
            patterns[i],
            path,
        )
}

/// A change in the source tree.
#[derive(Debug, Clone, PartialEq, Eq)]
pub enum Event {
    /// A file was created.
    Create(String),
    /// A file was written.
    Write(String),
    /// A file was removed.
    Remove(String),
    /// A file was renamed: the old path and the new one.
    Rename(String, String),
    /// A file was created, written, removed or renamed whose path is no
    /// text: no pattern matches it.
    Nameless,
    /// Anything else.
    Other,
}

/// The path that decides about a change: the file's, or for a renaming the
/// old one. `None` for a change without a path.
pub open spec fn event_path(event: Event) -> Option<Seq<char>> {
    match event {
        Event::Create(path) => Some(path@),
        Event::Write(path) => Some(path@),
        Event::Remove(path) => Some(path@),
        Event::Rename(from, _) => Some(from@),
        Event::Nameless => None,
        Event::Other => None,
    }
}

/// Whether the change is passed over whenever it comes: it is no change of
/// a file, or a pattern matches its path.
pub open spec fn passed_over(patterns: Seq<Seq<char>>, event: Event) -> bool {
    match event {
        Event::Other => true,
        Event::Nameless => false,
        _ => ignored(patterns, event_path(event)->0),
    }
}

/// The time from `last` to `now`; none where the clock went back.
pub open spec fn elapsed(last: u64, now: u64) -> int {
    if now >= last {
        now - last
    } else {
        0
    }
}

/// Whether the last rebuild is less than `interval` ago.
pub open spec fn too_soon(last_run: Option<u64>, interval: u64, now: u64) -> bool {
    match last_run {
        Some(last) => elapsed(last, now) < interval,
        None => false,
    }
}

/// Whether the change `event`, seen at `now`, leads to a rebuild: it is a
/// change of a file, no pattern matches its path, and the last rebuild is
/// not less than `interval` ago.
pub open spec fn rebuilds(
    patterns: Seq<Seq<char>>,
    interval: u64,
    last_run: Option<u64>,
    event: Event,
    now: u64,
) -> bool {
    !passed_over(patterns, event) && !too_soon(last_run, interval, now)
}

/// The time of the last rebuild after the change `event`, seen at `now`:
/// `now` where the change leads to a rebuild, else what it was.
pub open spec fn next_run(
    patterns: Seq<Seq<char>>,
    interval: u64,
    last_run: Option<u64>,
    event: Event,
    now: u64,
) -> Option<u64> {
    if rebuilds(patterns, interval, last_run, event, now) {
        Some(now)
    } else {
        last_run
    }
}

/// `s` without the characters `c` at its end.
pub fn strip_trailing(s: &str, c: char) -> (r: String)
    ensures
        r@ == without_trailing(s@, c),
{
    let v = to_chars(s);
    let mut n: usize = v.len();
    assert(v@.subrange(0, n as int) =~= v@);
    while n > 0 && v[n - 1] == c
        invariant
            0 <= n <= v.len(),
            without_trailing(v@, c) == without_trailing(v@.subrange(0, n as int), c),
        decreases n,
    {
        assert(v@.subrange(0, n as int).drop_last() =~= v@.subrange(0, n - 1));
        n -= 1;
    }
    from_chars(&v, 0, n)
}

/// The patterns of what the watcher passes over: the hidden files, and all
/// that lies under `build_dir`. A text that is no pattern is a failure.
pub fn ignore_patterns(build_dir: &str) -> (r: Result<Vec<String>, Error>)
    ensures
        if !glob_valid(hidden_pattern()) {
            r matches Err(Error::Pattern(text)) && text@ == hidden_pattern()
        } else if !glob_valid(build_pattern(build_dir@)) {
            r matches Err(Error::Pattern(text)) && text@ == build_pattern(build_dir@)
        } else {
            r matches Ok(patterns) && texts(patterns@) == patterns_of(build_dir@)
        },
        r matches Ok(patterns) ==> all_valid(texts(patterns@)),
{
    let hidden = "**/.*".to_owned();
    if !is_pattern(hidden.as_str()) {
        return Err(Error::Pattern(hidden));
    }
    let under = concat(strip_trailing(build_dir, '/').as_str(), "/**/*");
    if !is_pattern(under.as_str()) {
        return Err(Error::Pattern(under));
    }
    let mut patterns: Vec<String> = Vec::new();
    patterns.push(hidden);
    patterns.push(under);
    assert(texts(patterns@) =~= patterns_of(build_dir@));
    Ok(patterns)
}

/// Whether one of `patterns` matches `path`.
pub fn is_ignored(patterns: &Vec<String>, path: &str) -> (r: bool)
    ensures
        r == ignored(texts(patterns@), path@),
{
    let mut i: usize = 0;
    while i < patterns.len()
        invariant
            0 <= i <= patterns.len(),
            forall|j: int|
                0 <= j < i ==> !(glob_valid(#[trigger] texts(patterns@)[j]) && glob_matches(
                    texts(patterns@)[j],
                    path@,
                )),
        decreases patterns.len() - i,
    {
        assert(texts(patterns@)[i as int] == patterns@[i as int]@);
        match pattern_matches(patterns[i].as_str(), path) {
            Some(true) => {
                return true;
            },
            _ => {},
        }
        i += 1;
    }
    false
}

/// What the watcher knows between two changes.
#[derive(Debug, Clone, PartialEq, Eq)]
pub struct Watcher {
    /// The patterns of what is passed over.
    pub patterns: Vec<String>,
    /// The least time between two rebuilds, in milliseconds.
    pub interval: u64,
    /// When the last rebuild began, in milliseconds of the caller's clock.
    pub last_run: Option<u64>,
}

impl Watcher {
    /// A watcher that has not rebuilt yet.
    pub fn new(patterns: Vec<String>, seconds: u32) -> (watcher: Watcher)
        ensures
            watcher.patterns == patterns,
            watcher.interval == seconds * 1000,
            watcher.last_run is None,
    {
        let interval: u64 = (seconds as u64) * 1000;
        Watcher { patterns, interval, last_run: None }
    }

    /// Whether the change `event`, seen at `now` milliseconds, leads to a
    /// rebuild. Where it does, `now` is kept as the time of the last
    /// rebuild, whether the rebuild succeeds or not; where it does not, the
    /// change is dropped and nothing is kept of it.
    pub fn on_event(&mut self, event: &Event, now: u64) -> (rebuild: bool)
        ensures
            rebuild == rebuilds(
                texts(old(self).patterns@),
                old(self).interval,
                old(self).last_run,
                *event,
                now,
            ),
            final(self).patterns == old(self).patterns,
            final(self).interval == old(self).interval,
            final(self).last_run == next_run(
                texts(old(self).patterns@),
                old(self).interval,
                old(self).last_run,
                *event,
                now,
            ),
    {
        let passed: bool = match event {
            Event::Create(path) => is_ignored(&self.patterns, path.as_str()),
            Event::Write(path) => is_ignored(&self.patterns, path.as_str()),
            Event::Remove(path) => is_ignored(&self.patterns, path.as_str()),
            Event::Rename(from, _) => is_ignored(&self.patterns, from.as_str()),
            Event::Nameless => false,
            Event::Other => true,
        };
        if passed {
            return false;
        }
        match self.last_run {
            Some(last) => {
                let since: u64 = if now >= last {
                    now - last
                } else {
                    0
                };
                if since < self.interval {
                    return false;
                }
            },
            None => {},
        }
        self.last_run = Some(now);
        true
    }
}

impl Mdblog {
    /// The patterns of what the watcher passes over, for the build directory
    /// that `get_build_dir` gives; each is accepted by `glob`.
    ///
    /// A pattern that `glob` does not accept is a failure that names it.
    pub fn get_ignore_patterns(&self) -> (r: Result<Vec<String>, Error>)
        ensures
            match r {
                Ok(patterns) => exists|expanded: Seq<char>|
                    made_for(self.root@, expanded, texts(patterns@)),
                Err(failure) => failure is Config || exists|expanded: Seq<char>|
                    refused_for(self.root@, expanded, failure),
            },
            !glob_valid(hidden_pattern()) ==> r is Err,
            plain(self.settings.build_dir@) ==> (match r {
                Ok(patterns) => made_for(
                    self.root@,
                    self.settings.build_dir@,
                    texts(patterns@),
                ),
                Err(failure) => refused_for(self.root@, self.settings.build_dir@, failure),
            }),
    {
        match self.get_build_dir() {
            Err(failure) => Err(failure),
            Ok(build_dir) => {
                let ghost expanded = choose|expanded: Seq<char>|
                    build_dir@ == resolved_build_dir(self.root@, expanded);
                let r = ignore_patterns(build_dir.as_str());
                proof {
                    let made = patterns_of(build_dir@);
                    assert(made[0] == hidden_pattern());
                    assert(made[1] == build_pattern(build_dir@));
                    if r is Ok {
                        assert(made_for(self.root@, expanded, texts(r->Ok_0@)));
                    } else {
                        assert(refused_for(self.root@, expanded, r->Err_0));
                    }
                    if plain(self.settings.build_dir@) {
                        let setting = self.settings.build_dir@;
                        if r is Ok {
                            assert(made_for(self.root@, setting, texts(r->Ok_0@)));
                        } else {
                            assert(refused_for(self.root@, setting, r->Err_0));
                        }
                    }
                }
                r
            },
        }
    }

    /// A watcher for this blog: it passes over what `get_ignore_patterns`
    /// names, and keeps the interval of the settings between two rebuilds.
    ///
    /// Where the build directory cannot be expanded, or a pattern is not
    /// accepted by `glob`, there is no watcher.
    pub fn watch(&self) -> (r: Result<Watcher, Error>)
        ensures
            match r {
                Ok(watcher) => {
                    &&& watcher.interval == self.settings.rebuild_interval * 1000
                    &&& watcher.last_run is None
                    &&& exists|expanded: Seq<char>|
                        made_for(self.root@, expanded, texts(watcher.patterns@))
                },
                Err(failure) => failure is Config || exists|expanded: Seq<char>|
                    refused_for(self.root@, expanded, failure),
            },
            !glob_valid(hidden_pattern()) ==> r is Err,
            plain(self.settings.build_dir@) ==> (match r {
                Ok(watcher) => made_for(
                    self.root@,
                    self.settings.build_dir@,
                    texts(watcher.patterns@),
                ),
                Err(failure) => refused_for(self.root@, self.settings.build_dir@, failure),
            }),
    {
        match self.get_ignore_patterns() {
            Err(failure) => Err(failure),
            Ok(patterns) => Ok(Watcher::new(patterns, self.settings.rebuild_interval)),
        }
    }
}

/// Of two changes that come within the interval, the first of which leads
/// to a rebuild, the second is dropped.
pub proof fn lemma_one_rebuild_per_interval(
    patterns: Seq<Seq<char>>,
    interval: u64,
    last_run: Option<u64>,
    first: Event,
    at: u64,
    second: Event,
    later: u64,
)
    requires
        rebuilds(patterns, interval, last_run, first, at),
        at <= later,
        later - at < interval,
    ensures
        next_run(patterns, interval, last_run, first, at) == Some(at),
        !rebuilds(patterns, interval, Some(at), second, later),
        next_run(patterns, interval, Some(at), second, later) == Some(at),
{
}

/// A change under a path that a pattern matches is dropped: it leads to no
/// rebuild, and the time of the last rebuild stays.
pub proof fn lemma_ignored_never_rebuilds(
    patterns: Seq<Seq<char>>,
    interval: u64,
    last_run: Option<u64>,
    event: Event,
    now: u64,
)
    requires
        event_path(event) matches Some(path) && ignored(patterns, path),
    ensures
        !rebuilds(patterns, interval, last_run, event, now),
        next_run(patterns, interval, last_run, event, now) == last_run,
{
}

/// A change under a path that no pattern matches, with no rebuild before
/// it, leads to a rebuild, and its time is kept.
pub proof fn lemma_first_change_rebuilds(
    patterns: Seq<Seq<char>>,
    interval: u64,
    event: Event,
    now: u64,
)
    requires
        event_path(event) matches Some(path) && !ignored(patterns, path),
    ensures
        rebuilds(patterns, interval, None, event, now),
        next_run(patterns, interval, None, event, now) == Some(now),
{
}

/// A change of a file whose path is no text, with no rebuild before it,
/// leads to a rebuild: no pattern matches it.
pub proof fn lemma_nameless_change_rebuilds(patterns: Seq<Seq<char>>, interval: u64, now: u64)
    ensures
        rebuilds(patterns, interval, None, Event::Nameless, now),
{
}

/// A change of no file is dropped, whenever it comes.
pub proof fn lemma_other_changes_are_dropped(
    patterns: Seq<Seq<char>>,
    interval: u64,
    last_run: Option<u64>,
    now: u64,
)
    ensures
        !rebuilds(patterns, interval, last_run, Event::Other, now),
        next_run(patterns, interval, last_run, Event::Other, now) == last_run,
{
}

} // verus!
