//! The directory-jump provider: one candidate per directory the jump tool
//! reports, ranked by the tool's own score and filtered against the query
//! by the fuzzy matcher. Running the tool is the embedding program's
//! business; its output lines are parsed and held here.
use crate::config::ConfigTable;
use crate::fuzzy::{match_score, spec_match_score};
use crate::model::{lemma_items_view_push, items_view, ActionModel, ItemLayer, ItemModel, SearchItem, SelectAction};
use crate::source::hstr::shell_wrap;
use crate::source::Source;
use crate::text::{
    concat_str,
    digit_prefix_len,
    first_space,
    lemma_first_space,
    parse_int_prefix,
    spec_int_prefix,
    spec_trim_start,
    split_once_space,
    str_views,
    trim_start,
};
use vstd::prelude::*;

verus! {

/// What one output line of the jump tool denotes: its integer score (the
/// tool prints a decimal rank; the fraction is dropped) and the directory,
/// separated by the first space after the leading padding. Lines of any
/// other shape denote nothing.
pub open spec fn parse_jump_line(line: Seq<char>) -> Option<(i64, Seq<char>)> {
    let t = spec_trim_start(line);
    let sp = first_space(t);
    if sp < t.len() && digit_prefix_len(t.take(sp)) > 0 {
        Some((spec_int_prefix(t.take(sp)) as i64, t.skip(sp + 1)))
    } else {
        None
    }
}

/// The parsed entries of the tool's output lines, in order, skipping lines
/// that parse to nothing.
pub open spec fn parse_jump_lines(lines: Seq<Seq<char>>) -> Seq<(i64, Seq<char>)>
    decreases lines.len(),
{
    if lines.len() == 0 {
        Seq::empty()
    } else {
        let rest = parse_jump_lines(lines.drop_last());
        match parse_jump_line(lines.last()) {
            Some(e) => rest.push(e),
            None => rest,
        }
    }
}

/// The candidate a positively scored directory becomes: selecting it opens a
/// shell there, in a terminal.
pub open spec fn zoxide_item(shell: Seq<char>, e: (i64, Seq<char>)) -> ItemModel {
    ItemModel {
        id: "zoxide"@ + e.1,
        title: Some(e.1),
        subtitle: None,
        icon: None,
        image: None,
        score: e.0,
        action: ActionModel::RunInTerminal(shell_wrap(shell, "cd \""@ + e.1 + "\""@)),
        layer: ItemLayer::Middle,
        source: "zoxide"@,
    }
}

/// Whether an entry stays in the result: the tool ranked it positively, and
/// its directory matches the query (every directory matches an empty
/// query).
pub open spec fn zoxide_keeps(e: (i64, Seq<char>), q: Seq<char>) -> bool {
    e.0 > 0 && (q.len() == 0 || spec_match_score(e.1, q) > 0)
}

/// The candidates for the query, in tool order.
pub open spec fn zoxide_items(
    shell: Seq<char>,
    es: Seq<(i64, Seq<char>)>,
    q: Seq<char>,
) -> Seq<ItemModel>
    decreases es.len(),
{
    if es.len() == 0 {
        Seq::empty()
    } else {
        let rest = zoxide_items(shell, es.drop_last(), q);
        if zoxide_keeps(es.last(), q) {
            rest.push(zoxide_item(shell, es.last()))
        } else {
            rest
        }
    }
}

/// Directories reported by the jump tool, and the shell that opens one.
pub struct ZoxideSource {
    entries: Vec<(i64, String)>,
    shell: String,
}

/// The views of the held entries.
pub open spec fn jump_entry_views(s: Seq<(i64, String)>) -> Seq<(i64, Seq<char>)> {
    s.map_values(|e: (i64, String)| (e.0, e.1@))
}

impl ZoxideSource {
    /// The held entries.
    pub closed spec fn jump_entries(&self) -> Seq<(i64, Seq<char>)> {
        jump_entry_views(self.entries@)
    }

    /// The shell used to open a directory.
    pub closed spec fn shell_view(&self) -> Seq<char> {
        self.shell@
    }

    /// A provider with no directories yet, falling back to `bash`.
    pub fn new() -> (s: ZoxideSource)
        ensures
            s.jump_entries() == Seq::<(i64, Seq<char>)>::empty(),
            s.shell_view() == "bash"@,
    {
        let s = ZoxideSource { entries: Vec::new(), shell: String::from_str("bash") };
        proof {
            assert(s.jump_entries() =~= Seq::<(i64, Seq<char>)>::empty());
        }
        s
    }

    /// Hand the provider the jump tool's output lines and the user's shell.
    pub fn set_output(&mut self, lines: Vec<String>, shell: String)
        ensures
            final(self).jump_entries() == parse_jump_lines(str_views(lines@)),
            final(self).shell_view() == shell@,
    {
        let ghost ls = str_views(lines@);
        let mut entries: Vec<(i64, String)> = Vec::new();
        let n = lines.len();
        let mut i: usize = 0;
        proof {
            assert(jump_entry_views(entries@) =~= parse_jump_lines(ls.take(0)));
        }
        while i < n
            invariant
                n == lines@.len(),
                ls == str_views(lines@),
                i <= n,
                jump_entry_views(entries@) == parse_jump_lines(ls.take(i as int)),
            decreases n - i,
        {
            proof {
                assert(ls.take(i + 1).drop_last() =~= ls.take(i as int));
                assert(ls.take(i + 1).last() == ls[i as int]);
                assert(ls[i as int] == lines@[i as int]@);
            }
            let trimmed = trim_start(lines[i].as_str());
            proof {
                lemma_first_space(trimmed@);
            }
            match split_once_space(trimmed.as_str()) {
                Some((left, right)) => {
                    match parse_int_prefix(left.as_str()) {
                        Some(score) => {
                            let ghost before = entries@;
                            let ghost rv = right@;
                            proof {
                                assert(parse_jump_line(ls[i as int]) == Some((score, rv)));
                            }
                            entries.push((score, right));
                            proof {
                                assert(jump_entry_views(entries@) =~= jump_entry_views(
                                    before,
                                ).push((score, rv)));
                            }
                        },
                        None => {},
                    }
                },
                None => {},
            }
            i += 1;
            proof {
                assert(jump_entry_views(entries@) =~= parse_jump_lines(ls.take(i as int)));
            }
        }
        proof {
            assert(ls.take(n as int) =~= ls);
        }
        self.entries = entries;
        self.shell = shell;
    }
}

impl Source for ZoxideSource {
    open spec fn name_spec(&self) -> Seq<char> {
        "zoxide"@
    }

    open spec fn init_post(&self, config: ConfigTable, post: ZoxideSource) -> bool {
        post == *self
    }

    open spec fn search_spec(&self, query: Seq<char>) -> Seq<ItemModel> {
        zoxide_items(self.shell_view(), self.jump_entries(), query)
    }

    fn name(&self) -> (n: &'static str) {
        "zoxide"
    }

    fn init(&mut self, _config: &ConfigTable) {
    }

    fn deinit(&mut self) {
    }

    fn search(&self, query: &str) -> (r: Vec<SearchItem>) {
        let ghost es = self.jump_entries();
        let ghost sh = self.shell_view();
        let mut out: Vec<SearchItem> = Vec::new();
        let n = self.entries.len();
        let mut i: usize = 0;
        proof {
            assert(items_view(out@) =~= zoxide_items(sh, es.take(0), query@));
        }
        while i < n
            invariant
                n == self.entries@.len(),
                es == self.jump_entries(),
                sh == self.shell_view(),
                i <= n,
                items_view(out@) == zoxide_items(sh, es.take(i as int), query@),
            decreases n - i,
        {
            proof {
                assert(es.take(i + 1).drop_last() =~= es.take(i as int));
                assert(es.take(i + 1).last() == es[i as int]);
                assert(es[i as int] == (self.entries@[i as int].0, self.entries@[i as int].1@));
            }
            let entry = &self.entries[i];
            if entry.0 > 0 && (query.is_empty() || match_score(entry.1.as_str(), query) > 0) {
                let quoted_head = concat_str("cd \"", entry.1.as_str());
                let quoted = concat_str(quoted_head.as_str(), "\"");
                let head = concat_str(self.shell.as_str(), " -c '");
                let mid = concat_str(head.as_str(), quoted.as_str());
                let wrapped = concat_str(mid.as_str(), ";exec $SHELL;'");
                proof {
                    assert(quoted@ =~= "cd \""@ + es[i as int].1 + "\""@);
                    assert(wrapped@ =~= shell_wrap(sh, quoted@));
                }
                let item = SearchItem {
                    id: concat_str("zoxide", entry.1.as_str()),
                    title: Some(entry.1.clone()),
                    subtitle: None,
                    icon: None,
                    image: None,
                    score: entry.0,
                    action: SelectAction::RunInTerminal(wrapped),
                    layer: ItemLayer::Middle,
                    source: String::from_str("zoxide"),
                };
                proof {
                    assert(item@ == zoxide_item(sh, es[i as int]));
                    lemma_items_view_push(out@, item);
                }
                out.push(item);
            }
            i += 1;
        }
        proof {
            assert(es.take(n as int) =~= es);
        }
        out
    }
}

} // verus!
