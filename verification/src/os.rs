//! The orchestrator: owns the provider set, the usage-history ledger and the
//! result cache; fans a query out to every provider, blends each candidate's
//! relevance with its usage history, ranks the merged list, and on selection
//! records the choice and decides whether the session ends.
//!
//! The orchestrator performs no side effect itself: the action bound to a
//! selected item is a plain value the front end executes, and `select` only
//! reports whether the session is over. Clocks are arguments; nothing here
//! reads the machine's time.
use crate::config::{tables_get, Config, ConfigTable};
use crate::dispatch::{action_terminates, spec_terminates};
use crate::helpers::Helpers;
use crate::history::{id_count, record_spec, History, RETENTION_SECONDS};
use crate::model::{items_view, ItemModel, SearchItem};
use crate::rank::{rank_items, ranked_indexing, ranked_items_of, spec_rank, RankedItem};
use crate::source::{load_sources, loaded_names, Provider, SearchResult, Source};
use crate::text::{str_eq, str_views};
use vstd::multiset::Multiset;
use vstd::prelude::*;

verus! {

/// Every provider's candidates for the query, concatenated in fan-out
/// order.
pub open spec fn gather_spec(sources: Seq<Provider>, q: Seq<char>) -> Seq<ItemModel>
    decreases sources.len(),
{
    if sources.len() == 0 {
        Seq::empty()
    } else {
        gather_spec(sources.drop_last(), q) + sources.last().search_spec(q)
    }
}

/// A usage count as the search uses it: the ledger's count (saturated to
/// `u32::MAX`), or zero when the ledger degraded.
pub open spec fn count_ok(c: u32, rows: Multiset<(Seq<char>, int)>, id: Seq<char>) -> bool {
    c as int == id_count(rows, id) || (c == u32::MAX && id_count(rows, id) > u32::MAX) || c == 0
}

/// Each candidate's usage count is its ledger count or the degraded zero.
pub open spec fn counts_ok(
    counts: Seq<u32>,
    rows: Multiset<(Seq<char>, int)>,
    items: Seq<SearchItem>,
) -> bool {
    counts.len() == items.len() && forall|i: int|
        0 <= i < counts.len() ==> count_ok(#[trigger] counts[i], rows, items[i].id@)
}

/// What a selection leaves in the ledger: the recorded fact with aged facts
/// pruned, or — when the store errored — the old facts, at most with the
/// fresh fact appended and nothing pruned.
pub open spec fn recorded_or_degraded(
    olds: Multiset<(Seq<char>, int)>,
    news: Multiset<(Seq<char>, int)>,
    id: Seq<char>,
    now: int,
) -> bool {
    news == record_spec(olds, id, now) || news == olds || news == olds.insert((id, now))
}

/// What initialization makes of one provider: it is initialized with its own
/// configuration table, or with an empty one when the configuration has
/// none for it.
pub open spec fn inited_from(pre: Provider, config: Config, post: Provider) -> bool {
    match tables_get(config.source@, pre.name_spec()) {
        Some(t) => pre.init_post(t, post),
        None => exists|t: ConfigTable| t.entries@.len() == 0 && #[trigger] pre.init_post(t, post),
    }
}

/// The provider was built by its constructor and then initialized with its
/// table from the configuration.
pub open spec fn initialized_from_fresh(config: Config, p: Provider) -> bool {
    exists|pre: Provider|
        crate::source::fresh_provider(pre) && #[trigger] inited_from(pre, config, p)
}

/// Initialization cannot change which provider a value is, so its name
/// stays.
proof fn lemma_init_keeps_name(pre: Provider, t: ConfigTable, post: Provider)
    requires
        pre.init_post(t, post),
    ensures
        post.name_spec() == pre.name_spec(),
{
}

/// The index of the first provider named `name`, or the set's length when
/// none bears that name.
pub open spec fn provider_index(s: Seq<Provider>, name: Seq<char>) -> int
    decreases s.len(),
{
    if s.len() == 0 {
        0
    } else if s.first().name_spec() == name {
        0
    } else {
        1 + provider_index(s.drop_first(), name)
    }
}

/// If nothing before `j` bears the name and `j` is the end or bears it, the
/// first provider with the name stands at `j`.
proof fn lemma_provider_index_at(s: Seq<Provider>, name: Seq<char>, j: int)
    requires
        0 <= j <= s.len(),
        forall|k: int| 0 <= k < j ==> (#[trigger] s[k]).name_spec() != name,
        j < s.len() ==> s[j].name_spec() == name,
    ensures
        provider_index(s, name) == j,
    decreases s.len(),
{
    if s.len() > 0 && s.first().name_spec() != name {
        assert(j > 0);
        lemma_provider_index_at(s.drop_first(), name, j - 1);
    }
}

/// What handing fetched results to the provider named `name` must do: when
/// some provider bears the name and the first such one is the web-search
/// provider, that provider afterwards holds exactly the handed-in results,
/// its configuration untouched; in every other case nothing changes.
pub open spec fn web_results_delivered(
    pre: Os,
    post: Os,
    name: Seq<char>,
    rvs: Seq<(Seq<char>, Seq<char>)>,
) -> bool {
    let j = provider_index(pre.sources_view(), name);
    if j < pre.sources_view().len() && pre.sources_view()[j] is Duckduckgo {
        &&& post.sources_view()[j] is Duckduckgo
        &&& (post.sources_view()[j]->Duckduckgo_0).state() == Some(rvs)
        &&& (post.sources_view()[j]->Duckduckgo_0).agent() == (
        pre.sources_view()[j]->Duckduckgo_0).agent()
        &&& (post.sources_view()[j]->Duckduckgo_0).duration() == (
        pre.sources_view()[j]->Duckduckgo_0).duration()
    } else {
        post.sources_view() == pre.sources_view()
    }
}

/// The orchestrator.
pub struct Os {
    /// The immutable per-session settings.
    pub config: Config,
    /// The provider set, in fan-out order.
    pub sources: Vec<Provider>,
    /// The usage-history ledger.
    pub history: History,
    /// The result cache.
    pub helpers: Helpers,
}

impl Os {
    /// The provider set, in fan-out order.
    pub open spec fn sources_view(&self) -> Seq<Provider> {
        self.sources@
    }

    /// The facts the usage-history ledger holds.
    pub open spec fn history_rows(&self) -> Multiset<(Seq<char>, int)> {
        self.history.rows()
    }

    /// The result cache's contents.
    pub open spec fn cache_view(&self) -> Map<Seq<char>, (Seq<u8>, int)> {
        self.helpers@
    }

    /// Initialize every provider with its configuration table, in order and
    /// independently: one provider's table cannot affect another.
    fn init_source_list(sources: Vec<Provider>, config: &Config) -> (r: Vec<Provider>)
        ensures
            r@.len() == sources@.len(),
            forall|k: int|
                0 <= k < r@.len() ==> inited_from(#[trigger] sources@[k], *config, r@[k]),
            forall|k: int|
                0 <= k < r@.len() ==> (#[trigger] r@[k]).name_spec() == sources@[k].name_spec(),
    {
        let ghost orig = sources@;
        let mut src = sources;
        let mut out: Vec<Provider> = Vec::new();
        let n = src.len();
        let mut i: usize = 0;
        while src.len() > 0
            invariant
                n == orig.len(),
                i + src@.len() == orig.len(),
                src@ == orig.skip(i as int),
                i == out@.len(),
                forall|k: int| 0 <= k < i ==> inited_from(#[trigger] orig[k], *config, out@[k]),
                forall|k: int|
                    0 <= k < i ==> (#[trigger] out@[k]).name_spec() == orig[k].name_spec(),
            decreases src@.len(),
        {
            let mut p = src.remove(0);
            proof {
                assert(p == orig[i as int]);
                assert(src@ =~= orig.skip(i + 1));
            }
            let name = p.name();
            match config.source_table(name) {
                Some(table) => {
                    p.init(table);
                    proof {
                        lemma_init_keeps_name(orig[i as int], *table, p);
                    }
                },
                None => {
                    let empty = ConfigTable::new();
                    p.init(&empty);
                    proof {
                        lemma_init_keeps_name(orig[i as int], empty, p);
                    }
                },
            }
            out.push(p);
            i += 1;
        }
        out
    }

    /// Construct the orchestrator: instantiate the configured providers in
    /// the configured order, take ownership of the ledger and the cache, and
    /// initialize every provider with its configuration table.
    pub fn new(config: Config, history: History, helpers: Helpers) -> (r: Os)
        ensures
            r.config == config,
            r.history_rows() == history.rows(),
            r.cache_view() == helpers@,
            r.sources_view().map_values(|p: Provider| p.name_spec()) == loaded_names(
                str_views(config.sources@),
            ),
            forall|k: int|
                0 <= k < r.sources_view().len() ==> initialized_from_fresh(
                    config,
                    #[trigger] r.sources_view()[k],
                ),
    {
        let loaded = load_sources(&config.sources);
        let ghost fresh = loaded@;
        let sources = Self::init_source_list(loaded, &config);
        proof {
            assert(sources@.map_values(|p: Provider| p.name_spec()) =~= fresh.map_values(
                |p: Provider| p.name_spec(),
            ));
            assert forall|k: int| 0 <= k < sources@.len() implies initialized_from_fresh(
                config,
                #[trigger] sources@[k],
            ) by {
                assert(crate::source::fresh_provider(fresh[k]) && inited_from(
                    fresh[k],
                    config,
                    sources@[k],
                ));
            }
        }
        Os { config, sources, history, helpers }
    }

    /// Fan the query out to every provider, look each candidate's usage
    /// count up, blend and rank, and return at most the configured number of
    /// items: the stable descending ranking of everything the providers
    /// contributed.
    pub fn search(&self, query: &str) -> (r: Vec<SearchItem>)
        ensures
            exists|gitems: Seq<SearchItem>, counts: Seq<u32>, rk: Seq<RankedItem>|
                {
                    &&& items_view(gitems) == gather_spec(self.sources_view(), query@)
                    &&& counts_ok(counts, self.history_rows(), gitems)
                    &&& #[trigger] ranked_indexing(rk, gitems, counts)
                    &&& r@ == ranked_items_of(
                        spec_rank(rk),
                        self.config.maximum_list_item_count as int,
                    )
                },
    {
        let ghost svs = self.sources@;
        let mut gathered: Vec<SearchItem> = Vec::new();
        let ns = self.sources.len();
        let mut k: usize = 0;
        proof {
            assert(items_view(gathered@) =~= gather_spec(svs.take(0), query@));
        }
        while k < ns
            invariant
                ns == self.sources@.len(),
                svs == self.sources@,
                k <= ns,
                items_view(gathered@) == gather_spec(svs.take(k as int), query@),
            decreases ns - k,
        {
            proof {
                assert(svs.take(k + 1).drop_last() =~= svs.take(k as int));
                assert(svs.take(k + 1).last() == svs[k as int]);
            }
            let mut items = self.sources[k].search(query);
            let ghost before = gathered@;
            let ghost newly = items@;
            gathered.append(&mut items);
            proof {
                assert(items_view(before + newly) =~= items_view(before) + items_view(newly));
            }
            k += 1;
        }
        proof {
            assert(svs.take(ns as int) =~= svs);
        }
        let ghost gv = gathered@;
        let mut counts: Vec<u32> = Vec::new();
        let gn = gathered.len();
        let mut i: usize = 0;
        while i < gn
            invariant
                gn == gathered@.len(),
                gv == gathered@,
                i <= gn,
                counts@.len() == i,
                forall|k2: int|
                    0 <= k2 < i ==> count_ok(#[trigger] counts@[k2], self.history.rows(), gv[k2].id@),
            decreases gn - i,
        {
            let c = self.history.get(gathered[i].id.as_str());
            counts.push(c);
            i += 1;
        }
        let cap = self.config.maximum_list_item_count;
        let r = rank_items(gathered, &counts, cap);
        proof {
            let rk = choose|rk: Seq<RankedItem>|
                #[trigger] ranked_indexing(rk, gv, counts@) && r@ == ranked_items_of(
                    spec_rank(rk),
                    cap as int,
                );
            assert(items_view(gv) == gather_spec(self.sources_view(), query@));
            assert(counts_ok(counts@, self.history_rows(), gv));
            assert(ranked_indexing(rk, gv, counts@) && r@ == ranked_items_of(
                spec_rank(rk),
                cap as int,
            ));
        }
        r
    }

    /// Record the selection in the usage-history ledger — best effort, a
    /// failing ledger never blocks a selection — and report whether the
    /// session is over: `true` for every action kind but the
    /// provider-internal mutation, which instead asks to stay interactive.
    pub fn select(&mut self, item: &SearchItem, now: i64) -> (r: bool)
        requires
            i64::MIN + RETENTION_SECONDS <= now,
        ensures
            r == spec_terminates(item.action),
            recorded_or_degraded(
                old(self).history_rows(),
                final(self).history_rows(),
                item.id@,
                now as int,
            ),
            final(self).sources_view() == old(self).sources_view(),
            final(self).config == old(self).config,
            final(self).cache_view() == old(self).cache_view(),
    {
        let _ = self.history.add(item.id.as_str(), now);
        action_terminates(&item.action)
    }

    /// Hand freshly fetched results to the provider named `name`: the
    /// completion of a provider-internal mutation. Only the web-search
    /// provider accepts them; everything else stays as it is.
    pub fn update_source(&mut self, name: &str, results: Vec<SearchResult>)
        ensures
            final(self).config == old(self).config,
            final(self).history_rows() == old(self).history_rows(),
            final(self).cache_view() == old(self).cache_view(),
            final(self).sources_view().len() == old(self).sources_view().len(),
            forall|k: int|
                0 <= k < old(self).sources_view().len() && k != provider_index(
                    old(self).sources_view(),
                    name@,
                ) ==> final(self).sources_view()[k] == old(self).sources_view()[k],
            web_results_delivered(
                *old(self),
                *final(self),
                name@,
                crate::source::result_views(results@),
            ),
    {
        let n = self.sources.len();
        let mut j: usize = 0;
        while j < n
            invariant
                n == self.sources@.len(),
                j <= n,
                self == old(self),
                forall|k: int|
                    0 <= k < j ==> (#[trigger] self.sources@[k]).name_spec() != name@,
            decreases n - j,
        {
            let nm = self.sources[j].name();
            if str_eq(nm, name) {
                let ghost olds = self.sources@;
                proof {
                    lemma_provider_index_at(olds, name@, j as int);
                }
                let p = self.sources.remove(j);
                proof {
                    assert(p == olds[j as int]);
                }
                match p {
                    Provider::Duckduckgo(mut d) => {
                        d.set_results(results);
                        self.sources.insert(j, Provider::Duckduckgo(d));
                        proof {
                            assert(self.sources@ =~= olds.update(
                                j as int,
                                self.sources@[j as int],
                            ));
                        }
                    },
                    other => {
                        self.sources.insert(j, other);
                        proof {
                            assert(self.sources@ =~= olds);
                        }
                    },
                }
                return ;
            }
            j += 1;
        }
        proof {
            lemma_provider_index_at(self.sources@, name@, n as int);
        }
    }

    /// Tear every provider down, in order; none holds a resource, so the
    /// orchestrator is unchanged.
    pub fn deinit(&mut self)
        ensures
            final(self).config == old(self).config,
            final(self).history_rows() == old(self).history_rows(),
            final(self).cache_view() == old(self).cache_view(),
            final(self).sources_view() == old(self).sources_view(),
    {
        let ghost orig = self.sources@;
        let mut src: Vec<Provider> = Vec::new();
        core::mem::swap(&mut self.sources, &mut src);
        let n = src.len();
        let mut out: Vec<Provider> = Vec::new();
        let mut i: usize = 0;
        while src.len() > 0
            invariant
                n == orig.len(),
                i + src@.len() == orig.len(),
                src@ == orig.skip(i as int),
                i == out@.len(),
                forall|k: int| 0 <= k < i ==> out@[k] == orig[k],
            decreases src@.len(),
        {
            let mut p = src.remove(0);
            proof {
                assert(p == orig[i as int]);
                assert(src@ =~= orig.skip(i + 1));
            }
            p.deinit();
            out.push(p);
            i += 1;
        }
        self.sources = out;
        proof {
            assert(self.sources@ =~= orig);
        }
    }

    /// Close the ledger and drop the orchestrator.
    pub fn shutdown(self) {
        self.history.deinit();
    }
}


} // verus!
