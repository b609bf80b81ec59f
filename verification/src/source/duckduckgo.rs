//! The web-search provider, a two-phase interaction. Before any fetch it
//! offers a single "search the web" candidate whose action asks the front
//! end to fetch results for the query and hand them back; once results are
//! in, it offers them, fuzzy-scored. The fetching and page scraping are the
//! embedding program's business.
use crate::config::{ConfigTable, ConfigValue};
use crate::fuzzy::{match_score, spec_match_score};
use crate::model::{lemma_items_view_push, items_view, ActionModel, ItemLayer, ItemModel, SearchItem, SelectAction};
use crate::source::Source;
use vstd::prelude::*;

verus! {

/// How long a cached fetch stays fresh, in seconds, when the configuration
/// does not say: four hours.
pub fn _default_cache_duration() -> (r: u64)
    ensures
        r == 14400,
{
    14400
}

/// One fetched search result.
pub struct SearchResult {
    pub title: String,
    pub url: String,
}

/// Configuration of the web-search provider.
pub struct DuckduckgoConfig {
    /// How long a cached fetch stays fresh, in seconds.
    pub cache_duration: u64,
    /// The user agent the fetcher sends.
    pub user_agent: String,
}

/// The configured cache duration: four hours unless the table says
/// otherwise.
pub open spec fn ddg_cache_duration(config: ConfigTable) -> int {
    match config.spec_get("cache_duration"@) {
        Some(ConfigValue::Int(v)) => if 0 <= v {
            v as int
        } else {
            14400
        },
        _ => 14400,
    }
}

/// The configured user agent, or `None` for the fetcher's default.
pub open spec fn ddg_user_agent(config: ConfigTable) -> Option<Seq<char>> {
    match config.spec_get("user_agent"@) {
        Some(ConfigValue::Str(ua)) => Some(ua@),
        _ => None,
    }
}

/// The single candidate before anything was fetched: selecting it asks the
/// front end to fetch results for the query and stay interactive.
pub open spec fn ddg_prompt_item(q: Seq<char>) -> ItemModel {
    ItemModel {
        id: "duckduckgo"@,
        title: Some("Search DuckDuckGo"@),
        subtitle: Some(q),
        icon: None,
        image: None,
        score: 0,
        action: ActionModel::Refetch { source: "duckduckgo"@, query: q },
        layer: ItemLayer::Top,
        source: "duckduckgo"@,
    }
}

/// The candidate a fetched result becomes: selecting it opens the result.
pub open spec fn ddg_result_item(e: (Seq<char>, Seq<char>), q: Seq<char>) -> ItemModel {
    ItemModel {
        id: "duckduckgo"@,
        title: Some(e.0),
        subtitle: Some(e.1),
        icon: None,
        image: None,
        score: spec_match_score(e.0, q),
        action: ActionModel::OpenUrl(e.1),
        layer: ItemLayer::Top,
        source: "duckduckgo"@,
    }
}

/// The candidates for fetched results, in fetch order.
pub open spec fn ddg_result_items(es: Seq<(Seq<char>, Seq<char>)>, q: Seq<char>) -> Seq<ItemModel>
    decreases es.len(),
{
    if es.len() == 0 {
        Seq::empty()
    } else {
        ddg_result_items(es.drop_last(), q).push(ddg_result_item(es.last(), q))
    }
}

/// The views of fetched results.
pub open spec fn result_views(s: Seq<SearchResult>) -> Seq<(Seq<char>, Seq<char>)> {
    s.map_values(|e: SearchResult| (e.title@, e.url@))
}

/// The web-search provider.
pub struct DuckduckgoSource {
    results: Option<Vec<SearchResult>>,
    user_agent: Option<String>,
    cache_duration: u64,
}

impl DuckduckgoSource {
    /// The fetched results, if a fetch happened.
    pub closed spec fn state(&self) -> Option<Seq<(Seq<char>, Seq<char>)>> {
        match self.results {
            Some(rs) => Some(result_views(rs@)),
            None => None,
        }
    }

    /// The configured user agent, as a view.
    pub closed spec fn agent(&self) -> Option<Seq<char>> {
        match self.user_agent {
            Some(ua) => Some(ua@),
            None => None,
        }
    }

    /// The configured cache duration.
    pub closed spec fn duration(&self) -> int {
        self.cache_duration as int
    }

    /// A provider that has fetched nothing yet.
    pub fn new() -> (s: DuckduckgoSource)
        ensures
            s.state() is None,
            s.agent() is None,
    {
        DuckduckgoSource { results: None, user_agent: None, cache_duration: 14400 }
    }

    /// The configured user agent, for the fetcher.
    pub fn user_agent<'a>(&'a self) -> (r: &'a Option<String>)
        ensures
            r is Some <==> self.agent() is Some,
            r is Some ==> r->Some_0@ == self.agent()->Some_0,
    {
        &self.user_agent
    }

    /// Hand the provider the fetched results; it then answers queries from
    /// them.
    pub fn set_results(&mut self, results: Vec<SearchResult>)
        ensures
            final(self).state() == Some(result_views(results@)),
            final(self).agent() == old(self).agent(),
            final(self).duration() == old(self).duration(),
    {
        self.results = Some(results);
    }
}

impl Source for DuckduckgoSource {
    open spec fn name_spec(&self) -> Seq<char> {
        "duckduckgo"@
    }

    /// Initialization parses the cache duration and user agent; the fetch
    /// state stays.
    open spec fn init_post(&self, config: ConfigTable, post: DuckduckgoSource) -> bool {
        post.duration() == ddg_cache_duration(config) && post.agent() == ddg_user_agent(config)
            && post.state() == self.state()
    }

    open spec fn search_spec(&self, query: Seq<char>) -> Seq<ItemModel> {
        match self.state() {
            None => seq![ddg_prompt_item(query)],
            Some(es) => ddg_result_items(es, query),
        }
    }

    fn name(&self) -> (n: &'static str) {
        "duckduckgo"
    }

    fn init(&mut self, config: &ConfigTable) {
        self.cache_duration = match config.get("cache_duration") {
            Some(ConfigValue::Int(v)) => {
                if *v >= 0 {
                    *v as u64
                } else {
                    14400
                }
            },
            _ => 14400,
        };
        self.user_agent = match config.get("user_agent") {
            Some(ConfigValue::Str(ua)) => Some(ua.clone()),
            _ => None,
        };
    }

    fn deinit(&mut self) {
    }

    fn search(&self, query: &str) -> (r: Vec<SearchItem>) {
        let mut out: Vec<SearchItem> = Vec::new();
        match &self.results {
            None => {
                let item = SearchItem {
                    id: String::from_str("duckduckgo"),
                    title: Some(String::from_str("Search DuckDuckGo")),
                    subtitle: Some(String::from_str(query)),
                    icon: None,
                    image: None,
                    score: 0,
                    action: SelectAction::Refetch {
                        source: String::from_str("duckduckgo"),
                        query: String::from_str(query),
                    },
                    layer: ItemLayer::Top,
                    source: String::from_str("duckduckgo"),
                };
                proof {
                    assert(item@ == ddg_prompt_item(query@));
                }
                out.push(item);
                proof {
                    assert(items_view(out@) =~= seq![ddg_prompt_item(query@)]);
                }
            },
            Some(results) => {
                let ghost es = result_views(results@);
                let n = results.len();
                let mut i: usize = 0;
                proof {
                    assert(items_view(out@) =~= ddg_result_items(es.take(0), query@));
                }
                while i < n
                    invariant
                        n == results@.len(),
                        es == result_views(results@),
                        i <= n,
                        items_view(out@) == ddg_result_items(es.take(i as int), query@),
                    decreases n - i,
                {
                    proof {
                        assert(es.take(i + 1).drop_last() =~= es.take(i as int));
                        assert(es.take(i + 1).last() == es[i as int]);
                        assert(es[i as int] == (results@[i as int].title@, results@[i as int].url@));
                    }
                    let e = &results[i];
                    let score = match_score(e.title.as_str(), query);
                    let item = SearchItem {
                        id: String::from_str("duckduckgo"),
                        title: Some(e.title.clone()),
                        subtitle: Some(e.url.clone()),
                        icon: None,
                        image: None,
                        score,
                        action: SelectAction::OpenUrl(e.url.clone()),
                        layer: ItemLayer::Top,
                        source: String::from_str("duckduckgo"),
                    };
                    proof {
                        assert(item@ == ddg_result_item(es[i as int], query@));
                        lemma_items_view_push(out@, item);
                    }
                    out.push(item);
                    i += 1;
                }
                proof {
                    assert(es.take(n as int) =~= es);
                }
            },
        }
        out
    }
}

} // verus!
