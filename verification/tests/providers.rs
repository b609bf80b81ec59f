use launcher::{
    ApplicationsSource, Bookmark, ClipEntry, CliphistSource, ConfigTable, ConfigValue,
    DuckduckgoSource, EvalSource, HstrSource, ItemLayer, LinkdingSource, ParsedDesktopEntry,
    RunCommandsSource, SearchResult, SearchSitesSource, SelectAction, Source, StdinSource,
    SystemctlSource, ZoxideSource,
};

fn table(entries: Vec<(&str, ConfigValue)>) -> ConfigTable {
    ConfigTable { entries: entries.into_iter().map(|(k, v)| (k.to_string(), v)).collect() }
}

#[test]
fn stdin_filters_and_prints() {
    let mut s = StdinSource::new();
    s.set_items(vec!["apple".to_string(), "banana".to_string()]);
    let hits = s.search("appl");
    assert_eq!(hits.len(), 1);
    assert_eq!(hits[0].id, "stdinapple");
    assert_eq!(hits[0].title.as_deref(), Some("apple"));
    assert_eq!(hits[0].layer, ItemLayer::Middle);
    assert!(hits[0].score > 0);
    match &hits[0].action {
        SelectAction::Print(t) => assert_eq!(t, "apple"),
        _ => panic!("expected a print action"),
    }
    // An empty query keeps every line.
    assert_eq!(s.search("").len(), 2);
    // A query matching nothing returns nothing.
    assert_eq!(s.search("zzz").len(), 0);
}

#[test]
fn systemctl_offers_power_actions() {
    let s = SystemctlSource::new();
    let hits = s.search("susp");
    assert_eq!(hits.len(), 1);
    assert_eq!(hits[0].id, "systemctlsuspend");
    assert_eq!(hits[0].subtitle.as_deref(), Some("Suspend the computer"));
    match &hits[0].action {
        SelectAction::Run(c) => assert_eq!(c, "systemctl suspend"),
        _ => panic!("expected a detached command"),
    }
    assert_eq!(s.search("").len(), 4);
    // Shutdown maps to the poweroff subcommand.
    let off = s.search("shutdown");
    match &off[0].action {
        SelectAction::Run(c) => assert_eq!(c, "systemctl poweroff"),
        _ => panic!("expected a detached command"),
    }
}

#[test]
fn run_commands_reads_both_tables_and_fills_template() {
    let mut s = RunCommandsSource::new();
    let config = table(vec![
        (
            "default",
            ConfigValue::Table(table(vec![(
                "ls",
                ConfigValue::Str("ls %s".to_string()),
            )])),
        ),
        (
            "terminal",
            ConfigValue::Table(table(vec![(
                "htop",
                ConfigValue::Str("htop %s".to_string()),
            )])),
        ),
    ]);
    s.init(&config);
    let hits = s.search("ls /tmp");
    assert_eq!(hits.len(), 1);
    assert_eq!(hits[0].score, 100);
    assert_eq!(hits[0].title.as_deref(), Some("Run command /tmp"));
    match &hits[0].action {
        SelectAction::Run(c) => assert_eq!(c, "ls /tmp"),
        _ => panic!("expected a detached command"),
    }
    let hits = s.search("htop");
    match &hits[0].action {
        SelectAction::RunInTerminal(c) => assert_eq!(c, "htop "),
        _ => panic!("expected a terminal command"),
    }
    assert_eq!(s.search("unknown x").len(), 0);
}

#[test]
fn run_commands_terminal_shadows_default() {
    let mut s = RunCommandsSource::new();
    let config = table(vec![
        (
            "default",
            ConfigValue::Table(table(vec![("x", ConfigValue::Str("plain".to_string()))])),
        ),
        (
            "terminal",
            ConfigValue::Table(table(vec![("x", ConfigValue::Str("fancy".to_string()))])),
        ),
    ]);
    s.init(&config);
    let hits = s.search("x args");
    match &hits[0].action {
        SelectAction::RunInTerminal(c) => assert_eq!(c, "fancy"),
        _ => panic!("the terminal table should win for a shared name"),
    }
}

#[test]
fn search_sites_substitutes_terms() {
    let mut s = SearchSitesSource::new();
    let config = table(vec![(
        "ddg",
        ConfigValue::Str("https://duckduckgo.com/?q=%s".to_string()),
    )]);
    s.init(&config);
    let hits = s.search("ddg rust launcher");
    assert_eq!(hits.len(), 1);
    assert_eq!(hits[0].title.as_deref(), Some("Search for rust launcher"));
    assert_eq!(
        hits[0].subtitle.as_deref(),
        Some("https://duckduckgo.com/?q=rust launcher")
    );
    match &hits[0].action {
        SelectAction::OpenUrl(u) => assert_eq!(u, "https://duckduckgo.com/?q=rust launcher"),
        _ => panic!("expected an open-url action"),
    }
    // Without a space there is no shortcut to match.
    assert_eq!(s.search("ddg").len(), 0);
    assert_eq!(s.search("other x").len(), 0);
}

#[test]
fn hstr_wraps_lines_for_the_shell() {
    let mut s = HstrSource::new();
    s.set_lines(vec!["git status".to_string()], "zsh".to_string());
    let hits = s.search("git");
    assert_eq!(hits.len(), 1);
    assert_eq!(hits[0].id, "hstrgit status");
    match &hits[0].action {
        SelectAction::RunInTerminal(c) => {
            assert_eq!(c, "zsh -c 'git status;exec $SHELL;'")
        },
        _ => panic!("expected a terminal command"),
    }
    assert_eq!(s.search("nothinglikeit").len(), 0);
}

#[test]
fn zoxide_parses_tool_output() {
    let mut s = ZoxideSource::new();
    s.set_output(
        vec![
            "  12.5 /home/me/projects".to_string(),
            "   0.5 /tmp".to_string(),
            "garbage".to_string(),
        ],
        "bash".to_string(),
    );
    let hits = s.search("");
    // The 12.5 entry floors to 12 and stays; the 0.5 entry floors to 0 and
    // is dropped; the garbage line parses to nothing.
    assert_eq!(hits.len(), 1);
    assert_eq!(hits[0].score, 12);
    assert_eq!(hits[0].title.as_deref(), Some("/home/me/projects"));
    match &hits[0].action {
        SelectAction::RunInTerminal(c) => {
            assert_eq!(c, "bash -c 'cd \"/home/me/projects\";exec $SHELL;'")
        },
        _ => panic!("expected a terminal command"),
    }
    // The held directories answer the query through the fuzzy matcher.
    assert_eq!(s.search("proj").len(), 1);
    assert_eq!(s.search("nothinglikeit").len(), 0);
}

#[test]
fn eval_offers_the_fed_value() {
    let mut s = EvalSource::new();
    // Nothing is offered until the program hands a value in.
    assert_eq!(s.search("1 + 2").len(), 0);
    s.set_result("1 + 2".to_string(), Some("3".to_string()));
    let hits = s.search("1 + 2");
    assert_eq!(hits.len(), 1);
    assert_eq!(hits[0].title.as_deref(), Some("3"));
    assert_eq!(hits[0].subtitle.as_deref(), Some("eval"));
    assert_eq!(hits[0].layer, ItemLayer::Top);
    match &hits[0].action {
        SelectAction::CopyToClipboard(c) => assert_eq!(c.0, b"3".to_vec()),
        _ => panic!("expected a clipboard action"),
    }
    // The value answers only the query it was computed for.
    assert_eq!(s.search("2 + 2").len(), 0);
    // A query with no value offers nothing.
    s.set_result("not math".to_string(), None);
    assert_eq!(s.search("not math").len(), 0);
}

#[test]
fn linkding_filters_by_tags_and_text() {
    let mut s = LinkdingSource::new();
    s.set_bookmarks(vec![
        Bookmark {
            id: 7,
            url: "https://example.org/rust".to_string(),
            title: "Rust homepage".to_string(),
            description: "The Rust language".to_string(),
            tag_names: vec!["rust".to_string(), "lang".to_string()],
        },
        Bookmark {
            id: 8,
            url: "https://example.org/go".to_string(),
            title: "Go homepage".to_string(),
            description: "The Go language".to_string(),
            tag_names: vec!["go".to_string()],
        },
    ]);
    let hits = s.search("#rust home");
    assert_eq!(hits.len(), 1);
    assert_eq!(hits[0].id, "linkding7");
    assert_eq!(hits[0].title.as_deref(), Some("Rust homepage"));
    assert_eq!(
        hits[0].subtitle.as_deref(),
        Some("https://example.org/rust (#rust, #lang)")
    );
    match &hits[0].action {
        SelectAction::OpenUrl(u) => assert_eq!(u, "https://example.org/rust"),
        _ => panic!("expected an open-url action"),
    }
    // Tags alone keep everything that carries them.
    assert_eq!(s.search("#lang").len(), 1);
    assert_eq!(s.search("#nosuchtag").len(), 0);
    // Without tags, both match on shared text.
    assert_eq!(s.search("homepage").len(), 2);
}

#[test]
fn linkding_builds_the_fetch_url() {
    let mut s = LinkdingSource::new();
    assert!(s.bookmarks_url().is_none());
    let config = table(vec![
        ("api_key", ConfigValue::Str("SECRET-REDACTED".to_string())),
        ("host", ConfigValue::Str("https://ld.example.org".to_string())),
        ("limit", ConfigValue::Int(25)),
    ]);
    s.init(&config);
    assert_eq!(
        s.bookmarks_url().as_deref(),
        Some("https://ld.example.org/api/bookmarks/?limit=25")
    );
}

#[test]
fn duckduckgo_two_phase() {
    let mut s = DuckduckgoSource::new();
    let first = s.search("verus");
    assert_eq!(first.len(), 1);
    assert_eq!(first[0].title.as_deref(), Some("Search DuckDuckGo"));
    match &first[0].action {
        SelectAction::Refetch { source, query } => {
            assert_eq!(source, "duckduckgo");
            assert_eq!(query, "verus");
        },
        _ => panic!("expected the provider-internal mutation"),
    }
    s.set_results(vec![SearchResult {
        title: "Verus".to_string(),
        url: "https://verus-lang.github.io".to_string(),
    }]);
    let second = s.search("verus");
    assert_eq!(second.len(), 1);
    assert_eq!(second[0].title.as_deref(), Some("Verus"));
    match &second[0].action {
        SelectAction::OpenUrl(u) => assert_eq!(u, "https://verus-lang.github.io"),
        _ => panic!("expected an open-url action"),
    }
}

#[test]
fn applications_expose_cache_duration() {
    let mut s = ApplicationsSource::new();
    let config = table(vec![("cache_duration", ConfigValue::Int(60))]);
    s.init(&config);
    assert_eq!(s.configured_cache_duration(), 60);
    s.init(&table(vec![]));
    assert_eq!(s.configured_cache_duration(), 14400);
}

#[test]
fn applications_strip_field_codes() {
    let mut s = ApplicationsSource::new();
    s.set_entries(vec![ParsedDesktopEntry {
        name: "Files".to_string(),
        description: "Browse files".to_string(),
        icon: Some(3),
        command: "nautilus %U".to_string(),
        terminal: false,
    }]);
    let hits = s.search("fil");
    assert_eq!(hits.len(), 1);
    assert_eq!(hits[0].icon, Some(3));
    match &hits[0].action {
        SelectAction::Run(c) => assert_eq!(c, "nautilus"),
        _ => panic!("expected a detached command"),
    }
}

#[test]
fn cliphist_offers_all_entries() {
    let mut s = CliphistSource::new();
    s.set_items(vec![
        ClipEntry {
            title: Some("copied text".to_string()),
            image: None,
            content: b"copied text".to_vec(),
            hash: 41,
        },
        ClipEntry { title: None, image: Some(9), content: vec![0xff, 0xd8], hash: 42 },
    ]);
    let hits = s.search("");
    assert_eq!(hits.len(), 2);
    assert_eq!(hits[0].id, "cliphist41");
    assert_eq!(hits[1].id, "cliphist42");
    assert_eq!(hits[1].image, Some(9));
    assert_eq!(hits[0].layer, ItemLayer::Bottom);
    match &hits[1].action {
        SelectAction::CopyToClipboard(c) => assert_eq!(c.0, vec![0xff, 0xd8]),
        _ => panic!("expected a clipboard action"),
    }
}

#[test]
fn provider_names_are_stable() {
    assert_eq!(StdinSource::new().name(), "stdin");
    assert_eq!(EvalSource::new().name(), "eval");
    assert_eq!(HstrSource::new().name(), "hstr");
    assert_eq!(SearchSitesSource::new().name(), "search_sites");
    assert_eq!(CliphistSource::new().name(), "cliphist");
    assert_eq!(ZoxideSource::new().name(), "zoxide");
    assert_eq!(ApplicationsSource::new().name(), "applications");
    assert_eq!(SystemctlSource::new().name(), "systemctl");
    assert_eq!(RunCommandsSource::new().name(), "run_commands");
    assert_eq!(LinkdingSource::new().name(), "linkding");
    assert_eq!(DuckduckgoSource::new().name(), "duckduckgo");
}
