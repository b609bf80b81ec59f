//! Core engine of a launcher: providers contribute candidate items for a
//! query, the orchestrator blends fuzzy-match relevance with usage history
//! into a normalized score, ranks the items, and decides on selection whether
//! the session ends or stays interactive.
//!
//! Everything here is a pure value computation over data handed in from
//! outside: clocks arrive as arguments, provider data is fed in before a
//! query, and the side effect of a selected action is a plain value the
//! embedding program executes.
pub mod config;
pub mod dispatch;
pub mod fuzzy;
pub mod helpers;
pub mod history;
pub mod model;
pub mod os;
pub mod rank;
pub mod score;
pub mod source;
pub mod text;
pub mod ui;

pub use config::{Config, ConfigTable, ConfigValue};
pub use dispatch::{
    action_terminates, begin, lemma_dispatch_two_outcomes, spec_begin, spec_step,
    spec_terminates, step,
    DispatchState,
};
pub use fuzzy::{fuzzy_score, match_score, spec_match_score};
pub use helpers::{lemma_cache_expiry, lemma_cache_round_trip, spec_expired, CacheEntry, Helpers};
pub use history::{
    id_count, lemma_count_monotone_within_window, lemma_record_then_count, record_spec, History,
    RETENTION_SECONDS,
};
pub use model::{
    items_view, opt_view, ActionModel, ClipboardContent, ItemLayer, ItemModel, SearchItem,
    SelectAction,
};
pub use os::{count_ok, counts_ok, gather_spec, inited_from, initialized_from_fresh, provider_index, recorded_or_degraded, web_results_delivered, Os};
pub use rank::{
    all_wf, distinct_pos, lemma_indexing_ranks, lemma_rank_stable, precedes, rank_items,
    ranked_indexing, ranked_items_of, sort_ranked, spec_insert, spec_rank, RankedItem,
};
pub use score::{
    cmp_frac, cmp_scores, final_score, lemma_score_bounds, lemma_score_monotone_in_history,
    lemma_score_monotone_in_relevance, Score, ScoreCmp,
};
pub use source::{
    fresh_provider, known_source, load_sources, loaded_names, ApplicationsConfig, ApplicationsSource, Bookmark,
    ClipEntry, CliphistConfig, CliphistSource, DuckduckgoConfig, DuckduckgoSource, EvalSource,
    HistoryConfig, HistorySource, HstrSource, LinkdingConfig, LinkdingSource, ParsedDesktopEntry,
    Provider, RunCommandsSource, SearchResult, SearchSitesSource, Source, StdinSource,
    SystemctlSource, ZoxideSource, _default_cache_duration, _default_limit,
};
pub use text::{
    concat_str, join_with, parse_int_prefix, split_once_space, split_words, str_eq,
    strip_field_codes, substitute, trim_end, trim_start, u64_to_dec,
};
pub use ui::UI;
