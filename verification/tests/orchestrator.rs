use launcher::{
    load_sources, Config, ConfigTable, ConfigValue, DuckduckgoSource, Helpers, History, ItemLayer,
    Os, Provider, SearchItem, SearchResult, SelectAction, Source, StdinSource,
};

fn config_with(sources: Vec<&str>, cap: usize) -> Config {
    Config {
        ui: "gtk".to_string(),
        source: Vec::new(),
        sources: sources.into_iter().map(|s| s.to_string()).collect(),
        prompt: "Search".to_string(),
        terminal: "xterm".to_string(),
        maximum_list_item_count: cap,
        initial_search: false,
    }
}

fn plain_item(id: &str, raw: i64, layer: ItemLayer, action: SelectAction) -> SearchItem {
    SearchItem {
        id: id.to_string(),
        title: Some(id.to_string()),
        subtitle: None,
        icon: None,
        image: None,
        score: raw,
        action,
        layer,
        source: "stdin".to_string(),
    }
}

#[test]
fn load_sources_respects_names_and_order() {
    let names = vec!["stdin".to_string(), "nosuch".to_string(), "eval".to_string()];
    let loaded = load_sources(&names);
    assert_eq!(loaded.len(), 2);
    assert_eq!(loaded[0].name(), "stdin");
    assert_eq!(loaded[1].name(), "eval");
}

#[test]
fn search_ranks_and_truncates() {
    let mut stdin_source = StdinSource::new();
    stdin_source.set_items(vec![
        "alpha".to_string(),
        "alphabet".to_string(),
        "alpine".to_string(),
    ]);
    let os = Os {
        config: config_with(vec![], 2),
        sources: vec![Provider::Stdin(stdin_source)],
        history: History::new_in_memory().unwrap(),
        helpers: Helpers::default(),
    };
    let all = os.search("");
    // The cap truncates: three candidates, two results.
    assert_eq!(all.len(), 2);
    let hits = os.search("alpha");
    assert!(hits.len() <= 2);
    // An exact match outranks a looser one.
    assert_eq!(hits[0].title.as_deref(), Some("alpha"));
}

#[test]
fn equal_scores_keep_fan_out_order() {
    // Two identically scoring items (same text, different ids) must come
    // back in the order their provider contributed them.
    let mut stdin_source = StdinSource::new();
    stdin_source.set_items(vec!["same".to_string(), "same".to_string()]);
    let os = Os {
        config: config_with(vec![], 10),
        sources: vec![Provider::Stdin(stdin_source)],
        history: History::new_in_memory().unwrap(),
        helpers: Helpers::default(),
    };
    let hits = os.search("");
    assert_eq!(hits.len(), 2);
    assert_eq!(hits[0].id, "stdinsame");
    assert_eq!(hits[1].id, "stdinsame");
}

#[test]
fn history_boosts_often_chosen_items() {
    // Two items with the same relevance; one was chosen before.
    let mut stdin_source = StdinSource::new();
    stdin_source.set_items(vec!["first".to_string(), "second".to_string()]);
    let mut history = History::new_in_memory().unwrap();
    history.add("stdinsecond", 1_000_000).unwrap();
    let os = Os {
        config: config_with(vec![], 10),
        sources: vec![Provider::Stdin(stdin_source)],
        history,
        helpers: Helpers::default(),
    };
    let hits = os.search("");
    assert_eq!(hits.len(), 2);
    assert_eq!(hits[0].id, "stdinsecond");
    assert_eq!(hits[1].id, "stdinfirst");
}

/// Selecting an item whose action prints text ends the session, and the
/// choice lands in the ledger.
#[test]
fn select_print_is_terminal_and_recorded() {
    let mut os = Os {
        config: config_with(vec![], 10),
        sources: Vec::new(),
        history: History::new_in_memory().unwrap(),
        helpers: Helpers::default(),
    };
    let item = plain_item("stdinx", 5, ItemLayer::Middle, SelectAction::Print("x".to_string()));
    let done = os.select(&item, 1_000_000);
    assert!(done);
    assert_eq!(os.history.get("stdinx"), 1);
}

#[test]
fn select_other_effects_are_terminal() {
    let mut os = Os {
        config: config_with(vec![], 10),
        sources: Vec::new(),
        history: History::new_in_memory().unwrap(),
        helpers: Helpers::default(),
    };
    let actions = vec![
        SelectAction::Noop,
        SelectAction::Exit,
        SelectAction::Run("true".to_string()),
        SelectAction::RunInTerminal("true".to_string()),
        SelectAction::CopyToClipboard(launcher::ClipboardContent(vec![1])),
        SelectAction::OpenUrl("https://example.org".to_string()),
    ];
    for (k, action) in actions.into_iter().enumerate() {
        let item = plain_item(&format!("id{}", k), 1, ItemLayer::Middle, action);
        assert!(os.select(&item, 1_000_000));
    }
}

/// Selecting the two-phase "fetch" item asks to stay interactive, and after
/// the fetched results are handed back, a fresh empty-query search reflects
/// the provider's updated state.
#[test]
fn select_refetch_resets_and_updates() {
    let mut os = Os {
        config: config_with(vec![], 10),
        sources: vec![Provider::Duckduckgo(DuckduckgoSource::new())],
        history: History::new_in_memory().unwrap(),
        helpers: Helpers::default(),
    };
    let first = os.search("verus");
    assert_eq!(first.len(), 1);
    let done = os.select(&first[0], 1_000_000);
    assert!(!done);
    os.update_source(
        "duckduckgo",
        vec![SearchResult { title: "Verus".to_string(), url: "https://v".to_string() }],
    );
    let second = os.search("");
    assert_eq!(second.len(), 1);
    assert_eq!(second[0].title.as_deref(), Some("Verus"));
    match &second[0].action {
        SelectAction::OpenUrl(u) => assert_eq!(u, "https://v"),
        _ => panic!("expected an open-url action after the update"),
    }
}

#[test]
fn new_initializes_configured_providers() {
    let mut config = config_with(vec!["systemctl", "search_sites"], 50);
    config.source = vec![(
        "search_sites".to_string(),
        ConfigTable {
            entries: vec![(
                "w".to_string(),
                ConfigValue::Str("https://en.wikipedia.org/wiki/%s".to_string()),
            )],
        },
    )];
    let os = Os::new(config, History::new_in_memory().unwrap(), Helpers::default());
    let hits = os.search("w Rust");
    assert_eq!(hits.len(), 1);
    match &hits[0].action {
        SelectAction::OpenUrl(u) => assert_eq!(u, "https://en.wikipedia.org/wiki/Rust"),
        _ => panic!("expected an open-url action"),
    }
    let mut os = os;
    os.deinit();
    os.shutdown();
}

use launcher::{action_terminates, begin, step, DispatchState};

#[test]
fn dispatcher_states() {
    assert!(action_terminates(&SelectAction::Print("x".to_string())));
    assert!(!action_terminates(&SelectAction::Refetch {
        source: "duckduckgo".to_string(),
        query: "q".to_string(),
    }));
    assert_eq!(begin(DispatchState::Idle), DispatchState::Executing);
    assert_eq!(begin(DispatchState::Reset), DispatchState::Reset);
    assert_eq!(step(DispatchState::Executing, true), DispatchState::Terminal);
    assert_eq!(step(DispatchState::Executing, false), DispatchState::Reset);
    assert_eq!(step(DispatchState::Idle, true), DispatchState::Idle);
    assert_eq!(step(DispatchState::Terminal, false), DispatchState::Terminal);
}

use launcher::{parse_int_prefix, split_words, substitute, u64_to_dec};

#[test]
fn text_helpers() {
    assert_eq!(u64_to_dec(0), "0");
    assert_eq!(u64_to_dec(90210), "90210");
    assert_eq!(substitute("a %s b %s", "X"), "a X b X");
    assert_eq!(substitute("no placeholder", "X"), "no placeholder");
    assert_eq!(parse_int_prefix("12.5"), Some(12));
    assert_eq!(parse_int_prefix("x12"), None);
    assert_eq!(split_words("  a  bb\tc "), vec!["a", "bb", "c"]);
}
