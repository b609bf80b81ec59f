//! The browser-history bookmark provider. Its data path is dormant: it
//! contributes nothing to a search yet, but it keeps its place in the
//! provider set and parses its configuration.
use crate::config::{ConfigTable, ConfigValue};
use crate::model::{items_view, ItemModel, SearchItem};
use crate::source::Source;
use vstd::prelude::*;

verus! {

/// How long a cached scan stays fresh, in seconds, when the configuration
/// does not say: one day.
pub fn _default_cache_duration() -> (r: u64)
    ensures
        r == 86400,
{
    86400
}

/// Configuration of the history provider.
pub struct HistoryConfig {
    /// How long a cached scan stays fresh, in seconds.
    pub cache_duration: u64,
}

/// The configured cache duration: the `cache_duration` entry when it holds a
/// non-negative integer, one day otherwise.
pub open spec fn history_cache_duration(config: ConfigTable) -> int {
    match config.spec_get("cache_duration"@) {
        Some(ConfigValue::Int(v)) => if 0 <= v {
            v as int
        } else {
            86400
        },
        _ => 86400,
    }
}

impl HistoryConfig {
    /// Read the configuration from the provider's table.
    pub fn from_table(config: &ConfigTable) -> (c: HistoryConfig)
        ensures
            c.cache_duration as int == history_cache_duration(*config),
    {
        match config.get("cache_duration") {
            Some(ConfigValue::Int(v)) => {
                if *v >= 0 {
                    HistoryConfig { cache_duration: *v as u64 }
                } else {
                    HistoryConfig { cache_duration: 86400 }
                }
            },
            _ => HistoryConfig { cache_duration: 86400 },
        }
    }
}

/// The dormant browser-history provider.
pub struct HistorySource {
    cache_duration: u64,
}

impl HistorySource {
    /// The configured cache duration, in seconds.
    pub closed spec fn duration(&self) -> int {
        self.cache_duration as int
    }

    /// A fresh provider.
    pub fn new() -> (s: HistorySource)
        ensures
            s.duration() == 86400,
    {
        HistorySource { cache_duration: 86400 }
    }
}

impl Source for HistorySource {
    open spec fn name_spec(&self) -> Seq<char> {
        "history"@
    }

    open spec fn init_post(&self, config: ConfigTable, post: HistorySource) -> bool {
        post.duration() == history_cache_duration(config)
    }

    open spec fn search_spec(&self, query: Seq<char>) -> Seq<ItemModel> {
        Seq::empty()
    }

    fn name(&self) -> (n: &'static str) {
        "history"
    }

    fn init(&mut self, config: &ConfigTable) {
        let parsed = HistoryConfig::from_table(config);
        self.cache_duration = parsed.cache_duration;
    }

    fn deinit(&mut self) {
    }

    fn search(&self, query: &str) -> (r: Vec<SearchItem>) {
        let out: Vec<SearchItem> = Vec::new();
        proof {
            assert(items_view(out@) =~= Seq::<ItemModel>::empty());
        }
        out
    }
}

} // verus!
