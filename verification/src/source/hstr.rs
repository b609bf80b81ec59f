//! The shell-history provider: one candidate per history line. Shelling out
//! to the history tool for the lines and reading the user's shell are the
//! embedding program's business.
use crate::config::ConfigTable;
use crate::fuzzy::{match_score, spec_match_score};
use crate::model::{lemma_items_view_push, items_view, ActionModel, ItemLayer, ItemModel, SearchItem, SelectAction};
use crate::source::Source;
use crate::text::{concat_str, str_views};
use vstd::prelude::*;

verus! {

/// Shell-history lines, and the shell that will re-run one.
pub struct HstrSource {
    lines: Vec<String>,
    shell: String,
}

/// The command line that re-runs `cmd` inside an interactive shell.
pub open spec fn shell_wrap(shell: Seq<char>, cmd: Seq<char>) -> Seq<char> {
    shell + " -c '"@ + cmd + ";exec $SHELL;'"@
}

/// The candidate a matching history line becomes: selecting it re-runs the
/// line in a terminal.
pub open spec fn hstr_item(shell: Seq<char>, cmd: Seq<char>, q: Seq<char>) -> ItemModel {
    ItemModel {
        id: "hstr"@ + cmd,
        title: Some(cmd),
        subtitle: None,
        icon: None,
        image: None,
        score: spec_match_score(cmd, q),
        action: ActionModel::RunInTerminal(shell_wrap(shell, cmd)),
        layer: ItemLayer::Middle,
        source: "hstr"@,
    }
}

/// The candidates for the query: the history lines the matcher scores
/// positively, in history order.
pub open spec fn hstr_items(shell: Seq<char>, cmds: Seq<Seq<char>>, q: Seq<char>) -> Seq<ItemModel>
    decreases cmds.len(),
{
    if cmds.len() == 0 {
        Seq::empty()
    } else {
        let rest = hstr_items(shell, cmds.drop_last(), q);
        if spec_match_score(cmds.last(), q) > 0 {
            rest.push(hstr_item(shell, cmds.last(), q))
        } else {
            rest
        }
    }
}

impl HstrSource {
    /// The held history lines.
    pub closed spec fn texts(&self) -> Seq<Seq<char>> {
        str_views(self.lines@)
    }

    /// The shell used to re-run a line.
    pub closed spec fn shell_view(&self) -> Seq<char> {
        self.shell@
    }

    /// A provider with no history yet, falling back to `bash`.
    pub fn new() -> (s: HstrSource)
        ensures
            s.texts() == Seq::<Seq<char>>::empty(),
            s.shell_view() == "bash"@,
    {
        let s = HstrSource { lines: Vec::new(), shell: String::from_str("bash") };
        proof {
            assert(s.texts() =~= Seq::<Seq<char>>::empty());
        }
        s
    }

    /// Hand the provider the user's history lines and shell.
    pub fn set_lines(&mut self, lines: Vec<String>, shell: String)
        ensures
            final(self).texts() == str_views(lines@),
            final(self).shell_view() == shell@,
    {
        self.lines = lines;
        self.shell = shell;
    }
}

impl Source for HstrSource {
    open spec fn name_spec(&self) -> Seq<char> {
        "hstr"@
    }

    open spec fn init_post(&self, config: ConfigTable, post: HstrSource) -> bool {
        post == *self
    }

    open spec fn search_spec(&self, query: Seq<char>) -> Seq<ItemModel> {
        hstr_items(self.shell_view(), self.texts(), query)
    }

    fn name(&self) -> (n: &'static str) {
        "hstr"
    }

    fn init(&mut self, _config: &ConfigTable) {
    }

    fn deinit(&mut self) {
    }

    fn search(&self, query: &str) -> (r: Vec<SearchItem>) {
        let ghost ts = self.texts();
        let ghost sh = self.shell_view();
        let mut out: Vec<SearchItem> = Vec::new();
        let n = self.lines.len();
        let mut i: usize = 0;
        proof {
            assert(items_view(out@) =~= hstr_items(sh, ts.take(0), query@));
        }
        while i < n
            invariant
                n == self.lines@.len(),
                ts == self.texts(),
                sh == self.shell_view(),
                i <= n,
                items_view(out@) == hstr_items(sh, ts.take(i as int), query@),
            decreases n - i,
        {
            proof {
                assert(ts.take(i + 1).drop_last() =~= ts.take(i as int));
                assert(ts.take(i + 1).last() == ts[i as int]);
                assert(ts[i as int] == self.lines@[i as int]@);
            }
            let line = &self.lines[i];
            let score = match_score(line.as_str(), query);
            if score > 0 {
                let head = concat_str(self.shell.as_str(), " -c '");
                let mid = concat_str(head.as_str(), line.as_str());
                let wrapped = concat_str(mid.as_str(), ";exec $SHELL;'");
                proof {
                    assert(wrapped@ =~= shell_wrap(sh, ts[i as int]));
                }
                let item = SearchItem {
                    id: concat_str("hstr", line.as_str()),
                    title: Some(line.clone()),
                    subtitle: None,
                    icon: None,
                    image: None,
                    score,
                    action: SelectAction::RunInTerminal(wrapped),
                    layer: ItemLayer::Middle,
                    source: String::from_str("hstr"),
                };
                proof {
                    assert(item@ == hstr_item(sh, ts[i as int], query@));
                    lemma_items_view_push(out@, item);
                }
                out.push(item);
            }
            i += 1;
        }
        proof {
            assert(ts.take(n as int) =~= ts);
        }
        out
    }
}

} // verus!
