//! The command-shortcut provider: a query of the form `<name> <arguments>`
//! offers running the configured command template with the arguments filled
//! in, detached or inside a terminal depending on which table configured it.
use crate::config::{string_entries_spec, ConfigTable, ConfigValue};
use crate::model::{items_view, ActionModel, ItemLayer, ItemModel, SearchItem, SelectAction};
use crate::source::Source;
use crate::text::{
    concat_str,
    first_space,
    spec_subst,
    spec_trim_end,
    split_once_space,
    str_eq,
    substitute,
    trim_end,
};
use vstd::prelude::*;

verus! {

/// One configured command: name, command template, and whether it runs
/// inside a terminal.
pub open spec fn marked(entries: Seq<(Seq<char>, Seq<char>)>, terminal: bool) -> Seq<
    (Seq<char>, Seq<char>, bool),
> {
    entries.map_values(|p: (Seq<char>, Seq<char>)| (p.0, p.1, terminal))
}

/// The entries of the sub-table under `key`, or nothing.
pub open spec fn sub_table_entries(config: ConfigTable, key: Seq<char>) -> Seq<
    (String, ConfigValue),
> {
    match config.spec_get(key) {
        Some(ConfigValue::Table(t)) => t.entries@,
        _ => Seq::empty(),
    }
}

/// What initialization reads from the configuration: the `default` table's
/// string entries as detached commands, then the `terminal` table's as
/// terminal commands.
pub open spec fn rc_config_commands(config: ConfigTable) -> Seq<(Seq<char>, Seq<char>, bool)> {
    marked(string_entries_spec(sub_table_entries(config, "default"@)), false) + marked(
        string_entries_spec(sub_table_entries(config, "terminal"@)),
        true,
    )
}

/// Last-match lookup by command name: a terminal command shadows a detached
/// one of the same name, as the later entry.
pub open spec fn commands_get(s: Seq<(Seq<char>, Seq<char>, bool)>, key: Seq<char>) -> Option<
    (Seq<char>, bool),
>
    decreases s.len(),
{
    if s.len() == 0 {
        None
    } else if s.last().0 == key {
        Some((s.last().1, s.last().2))
    } else {
        commands_get(s.drop_last(), key)
    }
}

/// How a query splits into a command name and its arguments: at the first
/// space, or the whole query (with trailing whitespace dropped) and no
/// arguments.
pub open spec fn rc_split(q: Seq<char>) -> (Seq<char>, Seq<char>) {
    if first_space(q) < q.len() {
        (q.take(first_space(q)), q.skip(first_space(q) + 1))
    } else {
        (spec_trim_end(q), Seq::empty())
    }
}

/// The candidate a matched command yields.
pub open spec fn rc_item(
    name: Seq<char>,
    cmd: Seq<char>,
    terminal: bool,
    terms: Seq<char>,
) -> ItemModel {
    ItemModel {
        id: "run_commands"@ + name,
        title: Some("Run command "@ + terms),
        subtitle: Some(spec_subst(cmd, terms)),
        icon: None,
        image: None,
        score: 100,
        action: if terminal {
            ActionModel::RunInTerminal(spec_subst(cmd, terms))
        } else {
            ActionModel::Run(spec_subst(cmd, terms))
        },
        layer: ItemLayer::Middle,
        source: "run_commands"@,
    }
}

/// The provider's candidates: one item when the query names a configured
/// command, nothing otherwise.
pub open spec fn rc_items(cmds: Seq<(Seq<char>, Seq<char>, bool)>, q: Seq<char>) -> Seq<ItemModel> {
    let parts = rc_split(q);
    match commands_get(cmds, parts.0) {
        Some(c) => seq![rc_item(parts.0, c.0, c.1, parts.1)],
        None => Seq::empty(),
    }
}

/// The views of the held commands.
pub open spec fn command_views(s: Seq<(String, String, bool)>) -> Seq<(Seq<char>, Seq<char>, bool)> {
    s.map_values(|c: (String, String, bool)| (c.0@, c.1@, c.2))
}

/// The configured command shortcuts.
pub struct RunCommandsSource {
    pub commands: Vec<(String, String, bool)>,
}

impl RunCommandsSource {
    /// The held commands.
    pub open spec fn cmd_views(&self) -> Seq<(Seq<char>, Seq<char>, bool)> {
        command_views(self.commands@)
    }

    /// A provider with no commands yet.
    pub fn new() -> (s: RunCommandsSource)
        ensures
            s.cmd_views() == Seq::<(Seq<char>, Seq<char>, bool)>::empty(),
    {
        let s = RunCommandsSource { commands: Vec::new() };
        proof {
            assert(s.cmd_views() =~= Seq::<(Seq<char>, Seq<char>, bool)>::empty());
        }
        s
    }

    /// Append one table's string entries, marked with `terminal`.
    fn push_marked(&mut self, entries: Vec<(String, String)>, terminal: bool)
        ensures
            final(self).cmd_views() == old(self).cmd_views() + marked(
                crate::config::string_entries_views(entries@),
                terminal,
            ),
    {
        let ghost evs = crate::config::string_entries_views(entries@);
        let ghost start = self.cmd_views();
        let n = entries.len();
        let mut i: usize = 0;
        let mut src = entries;
        proof {
            assert(self.cmd_views() =~= start + marked(evs.take(0), terminal));
        }
        while i < n
            invariant
                n == src@.len(),
                evs == crate::config::string_entries_views(src@),
                i <= n,
                self.cmd_views() == start + marked(evs.take(i as int), terminal),
            decreases n - i,
        {
            proof {
                assert(evs.take(i + 1) =~= evs.take(i as int).push(evs[i as int]));
                assert(marked(evs.take(i + 1), terminal) =~= marked(evs.take(i as int), terminal)
                    .push((evs[i as int].0, evs[i as int].1, terminal)));
                assert(evs[i as int] == (src@[i as int].0@, src@[i as int].1@));
            }
            let e = &src[i];
            let ghost before = self.commands@;
            self.commands.push((e.0.clone(), e.1.clone(), terminal));
            proof {
                assert(command_views(self.commands@) =~= command_views(before).push(
                    (e.0@, e.1@, terminal),
                ));
                assert(self.cmd_views() =~= start + marked(evs.take(i + 1), terminal));
            }
            i += 1;
        }
        proof {
            assert(evs.take(n as int) =~= evs);
        }
    }

    /// Find the command for a name: the last configured entry wins.
    fn lookup(&self, key: &str) -> (r: Option<(String, bool)>)
        ensures
            match r {
                Some(c) => commands_get(self.cmd_views(), key@) == Some((c.0@, c.1)),
                None => commands_get(self.cmd_views(), key@) is None,
            },
    {
        let mut j: usize = self.commands.len();
        proof {
            assert(self.cmd_views().take(j as int) =~= self.cmd_views());
        }
        while j > 0
            invariant
                j <= self.commands@.len(),
                commands_get(self.cmd_views(), key@) == commands_get(
                    self.cmd_views().take(j as int),
                    key@,
                ),
            decreases j,
        {
            proof {
                assert(self.cmd_views().take(j as int).last() == self.cmd_views()[j - 1]);
                assert(self.cmd_views().take(j as int).drop_last() =~= self.cmd_views().take(
                    j - 1,
                ));
                assert(self.cmd_views()[j - 1] == (
                    self.commands@[j - 1].0@,
                    self.commands@[j - 1].1@,
                    self.commands@[j - 1].2,
                ));
            }
            let e = &self.commands[j - 1];
            if str_eq(e.0.as_str(), key) {
                return Some((e.1.clone(), e.2));
            }
            j -= 1;
        }
        proof {
            assert(self.cmd_views().take(0) =~= Seq::<(Seq<char>, Seq<char>, bool)>::empty());
        }
        None
    }
}

impl Source for RunCommandsSource {
    open spec fn name_spec(&self) -> Seq<char> {
        "run_commands"@
    }

    /// Initialization reads the `default` and `terminal` tables.
    open spec fn init_post(&self, config: ConfigTable, post: RunCommandsSource) -> bool {
        post.cmd_views() == rc_config_commands(config)
    }

    open spec fn search_spec(&self, query: Seq<char>) -> Seq<ItemModel> {
        rc_items(self.cmd_views(), query)
    }

    fn name(&self) -> (n: &'static str) {
        "run_commands"
    }

    fn init(&mut self, config: &ConfigTable) {
        self.commands = Vec::new();
        proof {
            assert(self.cmd_views() =~= Seq::<(Seq<char>, Seq<char>, bool)>::empty());
        }
        let defaults = match config.get("default") {
            Some(ConfigValue::Table(t)) => t.string_entries(),
            _ => Vec::new(),
        };
        proof {
            if !(config.spec_get("default"@) matches Some(ConfigValue::Table(_))) {
                assert(crate::config::string_entries_views(defaults@) =~= string_entries_spec(
                    sub_table_entries(*config, "default"@),
                ));
            }
        }
        self.push_marked(defaults, false);
        let terminals = match config.get("terminal") {
            Some(ConfigValue::Table(t)) => t.string_entries(),
            _ => Vec::new(),
        };
        proof {
            if !(config.spec_get("terminal"@) matches Some(ConfigValue::Table(_))) {
                assert(crate::config::string_entries_views(terminals@) =~= string_entries_spec(
                    sub_table_entries(*config, "terminal"@),
                ));
            }
        }
        self.push_marked(terminals, true);
        proof {
            assert(Seq::<(Seq<char>, Seq<char>, bool)>::empty() + marked(
                string_entries_spec(sub_table_entries(*config, "default"@)),
                false,
            ) =~= marked(string_entries_spec(sub_table_entries(*config, "default"@)), false));
        }
    }

    fn deinit(&mut self) {
    }

    fn search(&self, query: &str) -> (r: Vec<SearchItem>) {
        let mut out: Vec<SearchItem> = Vec::new();
        let (left, right) = match split_once_space(query) {
            Some(pair) => pair,
            None => (trim_end(query), String::new()),
        };
        proof {
            assert((left@, right@) == rc_split(query@));
        }
        match self.lookup(left.as_str()) {
            Some((template, terminal)) => {
                let filled = substitute(template.as_str(), right.as_str());
                let action = if terminal {
                    SelectAction::RunInTerminal(filled.clone())
                } else {
                    SelectAction::Run(filled.clone())
                };
                let item = SearchItem {
                    id: concat_str("run_commands", left.as_str()),
                    title: Some(concat_str("Run command ", right.as_str())),
                    subtitle: Some(filled),
                    icon: None,
                    image: None,
                    score: 100,
                    action,
                    layer: ItemLayer::Middle,
                    source: String::from_str("run_commands"),
                };
                proof {
                    assert(item@ == rc_item(left@, template@, terminal, right@));
                }
                out.push(item);
                proof {
                    assert(items_view(out@) =~= rc_items(self.cmd_views(), query@));
                }
            },
            None => {
                proof {
                    assert(items_view(out@) =~= rc_items(self.cmd_views(), query@));
                }
            },
        }
        out
    }
}

} // verus!
