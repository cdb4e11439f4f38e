//! Skill feeds: git repositories of skills, listed in a configuration.
//!
//! The configuration is read, written and fetched by the host; the library
//! holds it and decides which feeds take part.

use vstd::prelude::*;
use crate::text::str_eq;

verus! {

/// A git repository of skills.
#[derive(Debug, Clone)]
pub struct Feed {
    pub name: String,
    pub url: String,
    pub enabled: bool,
    pub description: String,
    pub branch: Option<String>,
}

/// The feeds and where their clones are kept.
#[derive(Debug, Clone)]
pub struct FeedsConfig {
    pub feeds: Vec<Feed>,
    pub cache_dir: String,
}

/// The directory that holds the clones unless configured otherwise.
pub fn default_cache_dir() -> (r: String)
    ensures
        r@ == ".skill-cache"@,
{
    String::from_str(".skill-cache")
}

/// The default configuration: one enabled feed, `local`, with no URL.
pub open spec fn is_default_config(c: FeedsConfig) -> bool {
    &&& c.feeds@.len() == 1
    &&& c.feeds@[0].name@ == "local"@
    &&& c.feeds@[0].url@.len() == 0
    &&& c.feeds@[0].enabled
    &&& c.feeds@[0].description@ == "Local skills directory"@
    &&& c.feeds@[0].branch is None
    &&& c.cache_dir@ == ".skill-cache"@
}

impl Default for FeedsConfig {
    fn default() -> (r: FeedsConfig)
        ensures
            is_default_config(r),
    {
        let mut feeds: Vec<Feed> = Vec::new();
        feeds.push(Feed {
            name: String::from_str("local"),
            url: String::new(),
            enabled: true,
            description: String::from_str("Local skills directory"),
            branch: None,
        });
        FeedsConfig { feeds, cache_dir: default_cache_dir() }
    }
}

/// The feeds not named `name`, in order.
pub open spec fn without_name(feeds: Seq<Feed>, name: Seq<char>) -> Seq<Feed>
    decreases feeds.len(),
{
    if feeds.len() == 0 {
        feeds
    } else if feeds.last().name@ == name {
        without_name(feeds.drop_last(), name)
    } else {
        without_name(feeds.drop_last(), name).push(feeds.last())
    }
}

/// The enabled feeds, in order.
pub open spec fn enabled_of(feeds: Seq<Feed>) -> Seq<Feed>
    decreases feeds.len(),
{
    if feeds.len() == 0 {
        feeds
    } else if feeds.last().enabled {
        enabled_of(feeds.drop_last()).push(feeds.last())
    } else {
        enabled_of(feeds.drop_last())
    }
}

/// The enabled feeds that have a URL to fetch, in order.
pub open spec fn remote_of(feeds: Seq<Feed>) -> Seq<Feed>
    decreases feeds.len(),
{
    if feeds.len() == 0 {
        feeds
    } else if feeds.last().enabled && feeds.last().url@.len() > 0 {
        remote_of(feeds.drop_last()).push(feeds.last())
    } else {
        remote_of(feeds.drop_last())
    }
}

/// A copy of a feed.
pub fn copy_feed(f: &Feed) -> (r: Feed)
    ensures
        r == *f,
{
    Feed {
        name: f.name.clone(),
        url: f.url.clone(),
        enabled: f.enabled,
        description: f.description.clone(),
        branch: match &f.branch {
            Some(b) => Some(b.clone()),
            None => None,
        },
    }
}

impl FeedsConfig {
    /// Adds an enabled feed on the default branch.
    pub fn add_feed(&mut self, name: String, url: String, description: String)
        ensures
            final(self).feeds@ == old(self).feeds@.push(Feed { name, url, enabled: true, description, branch: None }),
            final(self).cache_dir == old(self).cache_dir,
    {
        self.feeds.push(Feed { name, url, enabled: true, description, branch: None });
    }

    /// Removes every feed named `name`; says whether there was one.
    pub fn remove_feed(&mut self, name: &str) -> (r: bool)
        ensures
            final(self).feeds@ == without_name(old(self).feeds@, name@),
            final(self).cache_dir == old(self).cache_dir,
            r == (final(self).feeds@.len() < old(self).feeds@.len()),
            r == exists|i: int| 0 <= i < old(self).feeds@.len() && #[trigger] old(self).feeds@[i].name@ == name@,
    {
        let ghost old_feeds = self.feeds@;
        let n = self.feeds.len();
        let mut kept: Vec<Feed> = Vec::new();
        let mut found = false;
        let mut k: usize = 0;
        while k < n
            invariant
                n == self.feeds.len(),
                self.feeds@ == old_feeds,
                k <= n,
                kept@ == without_name(old_feeds.take(k as int), name@),
                found == exists|i: int| 0 <= i < k && #[trigger] old_feeds[i].name@ == name@,
            decreases n - k,
        {
            assert(old_feeds.take(k + 1).drop_last() =~= old_feeds.take(k as int));
            if str_eq(self.feeds[k].name.as_str(), name) {
                found = true;
            } else {
                kept.push(copy_feed(&self.feeds[k]));
            }
            k += 1;
        }
        assert(old_feeds.take(n as int) =~= old_feeds);
        self.feeds = kept;
        proof {
            lemma_without_name_len(old_feeds, name@);
        }
        found
    }

    /// The enabled feeds, in order.
    pub fn enabled_feeds(&self) -> (r: Vec<&Feed>)
        ensures
            r@.len() == enabled_of(self.feeds@).len(),
            forall|i: int| 0 <= i < r@.len() ==> *#[trigger] r@[i] == enabled_of(self.feeds@)[i],
    {
        let mut r: Vec<&Feed> = Vec::new();
        let mut k: usize = 0;
        while k < self.feeds.len()
            invariant
                k <= self.feeds.len(),
                r@.len() == enabled_of(self.feeds@.take(k as int)).len(),
                forall|i: int| 0 <= i < r@.len() ==> *#[trigger] r@[i] == enabled_of(self.feeds@.take(k as int))[i],
            decreases self.feeds.len() - k,
        {
            assert(self.feeds@.take(k + 1).drop_last() =~= self.feeds@.take(k as int));
            if self.feeds[k].enabled {
                r.push(&self.feeds[k]);
            }
            k += 1;
        }
        assert(self.feeds@.take(self.feeds.len() as int) =~= self.feeds@);
        r
    }

    /// The enabled feeds that have a URL: those to fetch and to read skills
    /// from, in order.
    pub fn remote_feeds(&self) -> (r: Vec<&Feed>)
        ensures
            r@.len() == remote_of(self.feeds@).len(),
            forall|i: int| 0 <= i < r@.len() ==> *#[trigger] r@[i] == remote_of(self.feeds@)[i],
    {
        let mut r: Vec<&Feed> = Vec::new();
        let mut k: usize = 0;
        while k < self.feeds.len()
            invariant
                k <= self.feeds.len(),
                r@.len() == remote_of(self.feeds@.take(k as int)).len(),
                forall|i: int| 0 <= i < r@.len() ==> *#[trigger] r@[i] == remote_of(self.feeds@.take(k as int))[i],
            decreases self.feeds.len() - k,
        {
            assert(self.feeds@.take(k + 1).drop_last() =~= self.feeds@.take(k as int));
            if self.feeds[k].enabled && !self.feeds[k].url.as_str().is_empty() {
                r.push(&self.feeds[k]);
            }
            k += 1;
        }
        assert(self.feeds@.take(self.feeds.len() as int) =~= self.feeds@);
        r
    }
}

/// Removing by name shortens the list exactly when some feed has the name.
proof fn lemma_without_name_len(feeds: Seq<Feed>, name: Seq<char>)
    ensures
        without_name(feeds, name).len() <= feeds.len(),
        (without_name(feeds, name).len() < feeds.len()) == exists|i: int| 0 <= i < feeds.len() && #[trigger] feeds[i].name@ == name,
    decreases feeds.len(),
{
    if feeds.len() > 0 {
        let front = feeds.drop_last();
        lemma_without_name_len(front, name);
        if exists|i: int| 0 <= i < front.len() && #[trigger] front[i].name@ == name {
            let i = choose|i: int| 0 <= i < front.len() && #[trigger] front[i].name@ == name;
            assert(feeds[i].name@ == name);
        }
        if exists|i: int| 0 <= i < feeds.len() && #[trigger] feeds[i].name@ == name {
            let i = choose|i: int| 0 <= i < feeds.len() && #[trigger] feeds[i].name@ == name;
            if i < feeds.len() - 1 {
                assert(front[i].name@ == name);
            }
        }
    }
}

/// The feeds configuration with the place it is kept.
pub struct FeedManager {
    pub config: FeedsConfig,
    pub config_path: String,
    pub cache_dir: String,
}

impl FeedManager {
    /// A manager for a configuration read from `config_path`; clones are kept
    /// under the configuration's cache directory.
    pub fn new(config_path: String, config: FeedsConfig) -> (r: FeedManager)
        ensures
            r.config == config,
            r.config_path == config_path,
            r.cache_dir@ == config.cache_dir@,
    {
        let cache_dir = config.cache_dir.clone();
        FeedManager { config, config_path, cache_dir }
    }

    /// The configuration.
    pub fn config(&self) -> (r: &FeedsConfig)
        ensures
            *r == self.config,
    {
        &self.config
    }

    /// The configuration, to change.
    pub fn config_mut(&mut self) -> (r: &mut FeedsConfig)
        ensures
            *r == old(self).config,
            final(self).config == *final(r),
            final(self).config_path == old(self).config_path,
            final(self).cache_dir == old(self).cache_dir,
    {
        &mut self.config
    }
}

} // verus!
