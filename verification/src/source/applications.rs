//! The installed-applications provider: one candidate per desktop entry.
//! Scanning the entry files, decoding icons and caching the scan are the
//! embedding program's business; the provider holds the decoded entries as
//! plain values, with icons as opaque handles.
use crate::config::{ConfigTable, ConfigValue};
use crate::fuzzy::{match_score, spec_match_score};
use crate::model::{lemma_items_view_push, items_view, ActionModel, ItemLayer, ItemModel, SearchItem, SelectAction};
use crate::source::Source;
use crate::text::{concat_str, spec_strip_codes, strip_field_codes};
use vstd::prelude::*;

verus! {

/// One decoded desktop entry, as plain values.
pub struct ParsedDesktopEntry {
    pub name: String,
    pub description: String,
    pub icon: Option<u64>,
    pub command: String,
    pub terminal: bool,
}

/// Configuration of the applications provider.
pub struct ApplicationsConfig {
    /// Whether icons are looked up and shown.
    pub icons: bool,
    /// How long a cached scan stays fresh, in seconds.
    pub cache_duration: u64,
}

/// The configured icons flag: on unless the table turns it off.
pub open spec fn apps_icons(config: ConfigTable) -> bool {
    match config.spec_get("icons"@) {
        Some(ConfigValue::Bool(b)) => b,
        _ => true,
    }
}

/// The configured cache duration: four hours unless the table says
/// otherwise.
pub open spec fn apps_cache_duration(config: ConfigTable) -> int {
    match config.spec_get("cache_duration"@) {
        Some(ConfigValue::Int(v)) => if 0 <= v {
            v as int
        } else {
            14400
        },
        _ => 14400,
    }
}

impl ApplicationsConfig {
    /// Read the configuration from the provider's table.
    pub fn from_table(config: &ConfigTable) -> (c: ApplicationsConfig)
        ensures
            c.icons == apps_icons(*config),
            c.cache_duration as int == apps_cache_duration(*config),
    {
        let icons = match config.get("icons") {
            Some(ConfigValue::Bool(b)) => *b,
            _ => true,
        };
        let cache_duration = match config.get("cache_duration") {
            Some(ConfigValue::Int(v)) => {
                if *v >= 0 {
                    *v as u64
                } else {
                    14400
                }
            },
            _ => 14400,
        };
        ApplicationsConfig { icons, cache_duration }
    }
}

/// The view of one entry: name, description, icon handle, command line,
/// terminal flag.
pub open spec fn app_entry_views(s: Seq<ParsedDesktopEntry>) -> Seq<
    (Seq<char>, Seq<char>, Option<u64>, Seq<char>, bool),
> {
    s.map_values(
        |e: ParsedDesktopEntry| (e.name@, e.description@, e.icon, e.command@, e.terminal),
    )
}

/// Whether an entry stays in the result: its name matches the query, or the
/// query is empty.
pub open spec fn app_keeps(
    e: (Seq<char>, Seq<char>, Option<u64>, Seq<char>, bool),
    q: Seq<char>,
) -> bool {
    spec_match_score(e.0, q) > 0 || q.len() == 0
}

/// The candidate a kept entry becomes: selecting it runs the entry's command
/// line, with the desktop field codes removed, detached or in a terminal as
/// the entry asks.
pub open spec fn app_item(
    e: (Seq<char>, Seq<char>, Option<u64>, Seq<char>, bool),
    q: Seq<char>,
) -> ItemModel {
    ItemModel {
        id: "applications"@ + e.0,
        title: Some(e.0),
        subtitle: Some(e.1),
        icon: e.2,
        image: None,
        score: spec_match_score(e.0, q),
        action: if e.4 {
            ActionModel::RunInTerminal(spec_strip_codes(e.3))
        } else {
            ActionModel::Run(spec_strip_codes(e.3))
        },
        layer: ItemLayer::Middle,
        source: "applications"@,
    }
}

/// The candidates for the query, in scan order.
pub open spec fn app_items(
    es: Seq<(Seq<char>, Seq<char>, Option<u64>, Seq<char>, bool)>,
    q: Seq<char>,
) -> Seq<ItemModel>
    decreases es.len(),
{
    if es.len() == 0 {
        Seq::empty()
    } else {
        let rest = app_items(es.drop_last(), q);
        if app_keeps(es.last(), q) {
            rest.push(app_item(es.last(), q))
        } else {
            rest
        }
    }
}

/// The installed-applications provider.
pub struct ApplicationsSource {
    entries: Vec<ParsedDesktopEntry>,
    icons: bool,
    cache_duration: u64,
}

impl ApplicationsSource {
    /// The held entries.
    pub closed spec fn apps(&self) -> Seq<(Seq<char>, Seq<char>, Option<u64>, Seq<char>, bool)> {
        app_entry_views(self.entries@)
    }

    /// The configured icons flag.
    pub closed spec fn icons_on(&self) -> bool {
        self.icons
    }

    /// The configured cache duration.
    pub closed spec fn duration(&self) -> int {
        self.cache_duration as int
    }

    /// A provider with no entries yet.
    pub fn new() -> (s: ApplicationsSource)
        ensures
            s.apps() == Seq::<(Seq<char>, Seq<char>, Option<u64>, Seq<char>, bool)>::empty(),
    {
        let s = ApplicationsSource { entries: Vec::new(), icons: true, cache_duration: 14400 };
        proof {
            assert(s.apps() =~= Seq::<
                (Seq<char>, Seq<char>, Option<u64>, Seq<char>, bool),
            >::empty());
        }
        s
    }

    /// The configured cache duration, in seconds, for whoever does the
    /// scanning and caching.
    pub fn configured_cache_duration(&self) -> (d: u64)
        ensures
            d as int == self.duration(),
    {
        self.cache_duration
    }

    /// Hand the provider the decoded desktop entries.
    pub fn set_entries(&mut self, entries: Vec<ParsedDesktopEntry>)
        ensures
            final(self).apps() == app_entry_views(entries@),
            final(self).icons_on() == old(self).icons_on(),
            final(self).duration() == old(self).duration(),
    {
        self.entries = entries;
    }
}

impl Source for ApplicationsSource {
    open spec fn name_spec(&self) -> Seq<char> {
        "applications"@
    }

    /// Initialization parses the icons flag and the cache duration; the
    /// held entries stay.
    open spec fn init_post(&self, config: ConfigTable, post: ApplicationsSource) -> bool {
        post.icons_on() == apps_icons(config) && post.duration() == apps_cache_duration(config)
            && post.apps() == self.apps()
    }

    open spec fn search_spec(&self, query: Seq<char>) -> Seq<ItemModel> {
        app_items(self.apps(), query)
    }

    fn name(&self) -> (n: &'static str) {
        "applications"
    }

    fn init(&mut self, config: &ConfigTable) {
        let parsed = ApplicationsConfig::from_table(config);
        self.icons = parsed.icons;
        self.cache_duration = parsed.cache_duration;
    }

    fn deinit(&mut self) {
    }

    fn search(&self, query: &str) -> (r: Vec<SearchItem>) {
        let ghost es = self.apps();
        let mut out: Vec<SearchItem> = Vec::new();
        let n = self.entries.len();
        let mut i: usize = 0;
        proof {
            assert(items_view(out@) =~= app_items(es.take(0), query@));
        }
        while i < n
            invariant
                n == self.entries@.len(),
                es == self.apps(),
                i <= n,
                items_view(out@) == app_items(es.take(i as int), query@),
            decreases n - i,
        {
            proof {
                assert(es.take(i + 1).drop_last() =~= es.take(i as int));
                assert(es.take(i + 1).last() == es[i as int]);
                assert(es[i as int] == (
                    self.entries@[i as int].name@,
                    self.entries@[i as int].description@,
                    self.entries@[i as int].icon,
                    self.entries@[i as int].command@,
                    self.entries@[i as int].terminal,
                ));
            }
            let e = &self.entries[i];
            let score = match_score(e.name.as_str(), query);
            if score > 0 || query.is_empty() {
                let cleaned = strip_field_codes(e.command.as_str());
                let action = if e.terminal {
                    SelectAction::RunInTerminal(cleaned)
                } else {
                    SelectAction::Run(cleaned)
                };
                let item = SearchItem {
                    id: concat_str("applications", e.name.as_str()),
                    title: Some(e.name.clone()),
                    subtitle: Some(e.description.clone()),
                    icon: e.icon,
                    image: None,
                    score,
                    action,
                    layer: ItemLayer::Middle,
                    source: String::from_str("applications"),
                };
                proof {
                    assert(item@ == app_item(es[i as int], query@));
                    lemma_items_view_push(out@, item);
                }
                out.push(item);
            }
            i += 1;
        }
        proof {
            assert(es.take(n as int) =~= es);
        }
        out
    }
}

} // verus!
