//! The provider contract, the closed set of providers, and their
//! registration by name.
use crate::config::ConfigTable;
use crate::model::{ItemModel, SearchItem};
use vstd::prelude::*;

pub mod applications;
pub mod cliphist;
pub mod duckduckgo;
pub mod eval;
pub mod history;
pub mod hstr;
pub mod linkding;
pub mod run_commands;
pub mod search_sites;
pub mod stdin;
pub mod systemctl;
pub mod zoxide;

pub use applications::{ApplicationsConfig, ApplicationsSource, ParsedDesktopEntry};
pub use cliphist::{ClipEntry, CliphistConfig, CliphistSource};
pub use duckduckgo::{result_views, DuckduckgoConfig, DuckduckgoSource, SearchResult};
pub use eval::EvalSource;
pub use history::{HistoryConfig, HistorySource, _default_cache_duration};
pub use hstr::HstrSource;
pub use linkding::{Bookmark, LinkdingConfig, LinkdingSource, _default_limit};
pub use run_commands::RunCommandsSource;
pub use search_sites::SearchSitesSource;
pub use stdin::StdinSource;
pub use systemctl::SystemctlSource;
pub use zoxide::ZoxideSource;

verus! {

/// The contract every data source implements: identity, initialization from
/// its configuration table, teardown, and a pure query. A search never
/// mutates the provider; whatever data a provider needs from the outside
/// world is handed to it before it is queried.
pub trait Source: Sized {
    /// The provider's stable name.
    spec fn name_spec(&self) -> Seq<char>;

    /// What initialization, given the configuration table, makes of the
    /// provider: a relation between the provider before and after `init`.
    spec fn init_post(&self, config: ConfigTable, post: Self) -> bool;

    /// The items the provider contributes for a query, as models.
    spec fn search_spec(&self, query: Seq<char>) -> Seq<ItemModel>;

    /// The provider's stable, provider-unique name: the cache key and the
    /// config-lookup key.
    fn name(&self) -> (n: &'static str)
        ensures
            n@ == self.name_spec(),
    ;

    /// One-time setup from the provider's configuration table.
    fn init(&mut self, config: &ConfigTable)
        ensures
            old(self).init_post(*config, *final(self)),
    ;

    /// Release whatever the provider holds; none of these providers owns a
    /// resource, so nothing changes.
    fn deinit(&mut self)
        ensures
            *final(self) == *old(self),
    ;

    /// The provider's candidates for `query`.
    fn search(&self, query: &str) -> (r: Vec<SearchItem>)
        ensures
            r@.map_values(|it: SearchItem| it@) == self.search_spec(query@),
    ;
}


/// The closed set of providers, one variant per concrete source.
pub enum Provider {
    Applications(ApplicationsSource),
    Cliphist(CliphistSource),
    Duckduckgo(DuckduckgoSource),
    Eval(EvalSource),
    History(HistorySource),
    Hstr(HstrSource),
    Linkding(LinkdingSource),
    RunCommands(RunCommandsSource),
    SearchSites(SearchSitesSource),
    Stdin(StdinSource),
    Systemctl(SystemctlSource),
    Zoxide(ZoxideSource),
}

impl Source for Provider {
    open spec fn name_spec(&self) -> Seq<char> {
        match self {
            Provider::Applications(s) => s.name_spec(),
            Provider::Cliphist(s) => s.name_spec(),
            Provider::Duckduckgo(s) => s.name_spec(),
            Provider::Eval(s) => s.name_spec(),
            Provider::History(s) => s.name_spec(),
            Provider::Hstr(s) => s.name_spec(),
            Provider::Linkding(s) => s.name_spec(),
            Provider::RunCommands(s) => s.name_spec(),
            Provider::SearchSites(s) => s.name_spec(),
            Provider::Stdin(s) => s.name_spec(),
            Provider::Systemctl(s) => s.name_spec(),
            Provider::Zoxide(s) => s.name_spec(),
        }
    }

    open spec fn init_post(&self, config: ConfigTable, post: Provider) -> bool {
        match (self, post) {
            (Provider::Applications(s), Provider::Applications(p)) => s.init_post(config, p),
            (Provider::Cliphist(s), Provider::Cliphist(p)) => s.init_post(config, p),
            (Provider::Duckduckgo(s), Provider::Duckduckgo(p)) => s.init_post(config, p),
            (Provider::Eval(s), Provider::Eval(p)) => s.init_post(config, p),
            (Provider::History(s), Provider::History(p)) => s.init_post(config, p),
            (Provider::Hstr(s), Provider::Hstr(p)) => s.init_post(config, p),
            (Provider::Linkding(s), Provider::Linkding(p)) => s.init_post(config, p),
            (Provider::RunCommands(s), Provider::RunCommands(p)) => s.init_post(config, p),
            (Provider::SearchSites(s), Provider::SearchSites(p)) => s.init_post(config, p),
            (Provider::Stdin(s), Provider::Stdin(p)) => s.init_post(config, p),
            (Provider::Systemctl(s), Provider::Systemctl(p)) => s.init_post(config, p),
            (Provider::Zoxide(s), Provider::Zoxide(p)) => s.init_post(config, p),
            _ => false,
        }
    }

    open spec fn search_spec(&self, query: Seq<char>) -> Seq<ItemModel> {
        match self {
            Provider::Applications(s) => s.search_spec(query),
            Provider::Cliphist(s) => s.search_spec(query),
            Provider::Duckduckgo(s) => s.search_spec(query),
            Provider::Eval(s) => s.search_spec(query),
            Provider::History(s) => s.search_spec(query),
            Provider::Hstr(s) => s.search_spec(query),
            Provider::Linkding(s) => s.search_spec(query),
            Provider::RunCommands(s) => s.search_spec(query),
            Provider::SearchSites(s) => s.search_spec(query),
            Provider::Stdin(s) => s.search_spec(query),
            Provider::Systemctl(s) => s.search_spec(query),
            Provider::Zoxide(s) => s.search_spec(query),
        }
    }

    fn name(&self) -> (n: &'static str) {
        match self {
            Provider::Applications(s) => s.name(),
            Provider::Cliphist(s) => s.name(),
            Provider::Duckduckgo(s) => s.name(),
            Provider::Eval(s) => s.name(),
            Provider::History(s) => s.name(),
            Provider::Hstr(s) => s.name(),
            Provider::Linkding(s) => s.name(),
            Provider::RunCommands(s) => s.name(),
            Provider::SearchSites(s) => s.name(),
            Provider::Stdin(s) => s.name(),
            Provider::Systemctl(s) => s.name(),
            Provider::Zoxide(s) => s.name(),
        }
    }

    fn init(&mut self, config: &ConfigTable) {
        match self {
            Provider::Applications(s) => s.init(config),
            Provider::Cliphist(s) => s.init(config),
            Provider::Duckduckgo(s) => s.init(config),
            Provider::Eval(s) => s.init(config),
            Provider::History(s) => s.init(config),
            Provider::Hstr(s) => s.init(config),
            Provider::Linkding(s) => s.init(config),
            Provider::RunCommands(s) => s.init(config),
            Provider::SearchSites(s) => s.init(config),
            Provider::Stdin(s) => s.init(config),
            Provider::Systemctl(s) => s.init(config),
            Provider::Zoxide(s) => s.init(config),
        }
    }

    fn deinit(&mut self) {
        match self {
            Provider::Applications(s) => s.deinit(),
            Provider::Cliphist(s) => s.deinit(),
            Provider::Duckduckgo(s) => s.deinit(),
            Provider::Eval(s) => s.deinit(),
            Provider::History(s) => s.deinit(),
            Provider::Hstr(s) => s.deinit(),
            Provider::Linkding(s) => s.deinit(),
            Provider::RunCommands(s) => s.deinit(),
            Provider::SearchSites(s) => s.deinit(),
            Provider::Stdin(s) => s.deinit(),
            Provider::Systemctl(s) => s.deinit(),
            Provider::Zoxide(s) => s.deinit(),
        }
    }

    fn search(&self, query: &str) -> (r: Vec<SearchItem>) {
        match self {
            Provider::Applications(s) => s.search(query),
            Provider::Cliphist(s) => s.search(query),
            Provider::Duckduckgo(s) => s.search(query),
            Provider::Eval(s) => s.search(query),
            Provider::History(s) => s.search(query),
            Provider::Hstr(s) => s.search(query),
            Provider::Linkding(s) => s.search(query),
            Provider::RunCommands(s) => s.search(query),
            Provider::SearchSites(s) => s.search(query),
            Provider::Stdin(s) => s.search(query),
            Provider::Systemctl(s) => s.search(query),
            Provider::Zoxide(s) => s.search(query),
        }
    }
}

/// Whether a name denotes one of the providers.
pub open spec fn known_source(name: Seq<char>) -> bool {
    ||| name == "applications"@
    ||| name == "cliphist"@
    ||| name == "duckduckgo"@
    ||| name == "eval"@
    ||| name == "history"@
    ||| name == "hstr"@
    ||| name == "linkding"@
    ||| name == "run_commands"@
    ||| name == "search_sites"@
    ||| name == "stdin"@
    ||| name == "systemctl"@
    ||| name == "zoxide"@
}

/// A provider in its freshly constructed state, before any initialization
/// or data: exactly what its constructor builds.
pub open spec fn fresh_provider(p: Provider) -> bool {
    match p {
        Provider::Applications(s) => s.apps() == Seq::<
            (Seq<char>, Seq<char>, Option<u64>, Seq<char>, bool),
        >::empty(),
        Provider::Cliphist(s) => s.clips() == Seq::<
            (Option<Seq<char>>, Option<u64>, Seq<u8>, u64),
        >::empty(),
        Provider::Duckduckgo(s) => s.state() is None && s.agent() is None,
        Provider::Eval(s) => s.cached() is None,
        Provider::History(s) => s.duration() == 86400,
        Provider::Hstr(s) => s.texts() == Seq::<Seq<char>>::empty() && s.shell_view() == "bash"@,
        Provider::Linkding(s) => s.marks() == Seq::<Bookmark>::empty() && s.cfg() is None,
        Provider::RunCommands(s) => s.cmd_views() == Seq::<(Seq<char>, Seq<char>, bool)>::empty(),
        Provider::SearchSites(s) => s.site_views() == Seq::<(Seq<char>, Seq<char>)>::empty(),
        Provider::Stdin(s) => s.texts() == Seq::<Seq<char>>::empty(),
        Provider::Systemctl(s) => s.entries() == crate::source::systemctl::systemctl_fixed(),
        Provider::Zoxide(s) => s.jump_entries() == Seq::<(i64, Seq<char>)>::empty()
            && s.shell_view() == "bash"@,
    }
}

/// The known names among the requested ones, in request order.
pub open spec fn loaded_names(names: Seq<Seq<char>>) -> Seq<Seq<char>>
    decreases names.len(),
{
    if names.len() == 0 {
        Seq::empty()
    } else {
        let rest = loaded_names(names.drop_last());
        if known_source(names.last()) {
            rest.push(names.last())
        } else {
            rest
        }
    }
}

/// Build the providers the configuration enables, in its order; unknown
/// names contribute nothing.
pub fn load_sources(enabled: &Vec<String>) -> (r: Vec<Provider>)
    ensures
        r@.map_values(|p: Provider| p.name_spec()) == loaded_names(
            crate::text::str_views(enabled@),
        ),
        forall|k: int| 0 <= k < r@.len() ==> fresh_provider(#[trigger] r@[k]),
{
    let ghost ns = crate::text::str_views(enabled@);
    let mut out: Vec<Provider> = Vec::new();
    let n = enabled.len();
    let mut i: usize = 0;
    proof {
        assert(out@.map_values(|p: Provider| p.name_spec()) =~= loaded_names(ns.take(0)));
    }
    while i < n
        invariant
            n == enabled@.len(),
            ns == crate::text::str_views(enabled@),
            i <= n,
            out@.map_values(|p: Provider| p.name_spec()) == loaded_names(ns.take(i as int)),
            forall|k: int| 0 <= k < out@.len() ==> fresh_provider(#[trigger] out@[k]),
        decreases n - i,
    {
        proof {
            assert(ns.take(i + 1).drop_last() =~= ns.take(i as int));
            assert(ns.take(i + 1).last() == ns[i as int]);
            assert(ns[i as int] == enabled@[i as int]@);
        }
        let name = enabled[i].as_str();
        let ghost before = out@;
        if crate::text::str_eq(name, "stdin") {
            out.push(Provider::Stdin(StdinSource::new()));
        } else if crate::text::str_eq(name, "eval") {
            out.push(Provider::Eval(EvalSource::new()));
        } else if crate::text::str_eq(name, "hstr") {
            out.push(Provider::Hstr(HstrSource::new()));
        } else if crate::text::str_eq(name, "search_sites") {
            out.push(Provider::SearchSites(SearchSitesSource::new()));
        } else if crate::text::str_eq(name, "history") {
            out.push(Provider::History(HistorySource::new()));
        } else if crate::text::str_eq(name, "cliphist") {
            out.push(Provider::Cliphist(CliphistSource::new()));
        } else if crate::text::str_eq(name, "zoxide") {
            out.push(Provider::Zoxide(ZoxideSource::new()));
        } else if crate::text::str_eq(name, "applications") {
            out.push(Provider::Applications(ApplicationsSource::new()));
        } else if crate::text::str_eq(name, "systemctl") {
            out.push(Provider::Systemctl(SystemctlSource::new()));
        } else if crate::text::str_eq(name, "run_commands") {
            out.push(Provider::RunCommands(RunCommandsSource::new()));
        } else if crate::text::str_eq(name, "linkding") {
            out.push(Provider::Linkding(LinkdingSource::new()));
        } else if crate::text::str_eq(name, "duckduckgo") {
            out.push(Provider::Duckduckgo(DuckduckgoSource::new()));
        }
        proof {
            if out@.len() > before.len() {
                assert(out@.map_values(|p: Provider| p.name_spec()) =~= before.map_values(
                    |p: Provider| p.name_spec(),
                ).push(out@.last().name_spec()));
            }
            assert(out@.map_values(|p: Provider| p.name_spec()) =~= loaded_names(ns.take(i + 1)));
        }
        i += 1;
    }
    proof {
        assert(ns.take(n as int) =~= ns);
    }
    out
}

} // verus!
