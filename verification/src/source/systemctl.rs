//! The power-actions provider: a fixed set of systemctl commands.
use crate::config::ConfigTable;
use crate::fuzzy::{match_score, spec_match_score};
use crate::model::{lemma_items_view_push, items_view, ActionModel, ItemLayer, ItemModel, SearchItem, SelectAction};
use crate::source::Source;
use crate::text::concat_str;
use vstd::prelude::*;

verus! {

/// The fixed power actions: title, subtitle, systemctl subcommand.
pub struct SystemctlSource {
    items: Vec<(String, String, String)>,
}

/// The views of the held entries.
pub open spec fn entry_views(s: Seq<(String, String, String)>) -> Seq<
    (Seq<char>, Seq<char>, Seq<char>),
> {
    s.map_values(|t: (String, String, String)| (t.0@, t.1@, t.2@))
}

/// The four power actions.
pub open spec fn systemctl_fixed() -> Seq<(Seq<char>, Seq<char>, Seq<char>)> {
    seq![
        ("suspend"@, "Suspend the computer"@, "suspend"@),
        ("hibernate"@, "Hibernate the computer"@, "hibernate"@),
        ("reboot"@, "Reboot the computer"@, "reboot"@),
        ("shutdown"@, "Shutdown the computer"@, "poweroff"@),
    ]
}

/// Whether an action stays in the result: its title matches the query, or
/// the query is empty.
pub open spec fn systemctl_keeps(e: (Seq<char>, Seq<char>, Seq<char>), q: Seq<char>) -> bool {
    spec_match_score(e.0, q) > 0 || q.len() == 0
}

/// The candidate a kept action becomes: selecting it runs the systemctl
/// subcommand, detached.
pub open spec fn systemctl_item(e: (Seq<char>, Seq<char>, Seq<char>), q: Seq<char>) -> ItemModel {
    ItemModel {
        id: "systemctl"@ + e.0,
        title: Some(e.0),
        subtitle: Some(e.1),
        icon: None,
        image: None,
        score: spec_match_score(e.0, q),
        action: ActionModel::Run("systemctl "@ + e.2),
        layer: ItemLayer::Middle,
        source: "systemctl"@,
    }
}

/// The candidates for the query, in fixed order.
pub open spec fn systemctl_items(
    entries: Seq<(Seq<char>, Seq<char>, Seq<char>)>,
    q: Seq<char>,
) -> Seq<ItemModel>
    decreases entries.len(),
{
    if entries.len() == 0 {
        Seq::empty()
    } else {
        let rest = systemctl_items(entries.drop_last(), q);
        if systemctl_keeps(entries.last(), q) {
            rest.push(systemctl_item(entries.last(), q))
        } else {
            rest
        }
    }
}

impl SystemctlSource {
    /// The actions the provider offers.
    pub closed spec fn entries(&self) -> Seq<(Seq<char>, Seq<char>, Seq<char>)> {
        entry_views(self.items@)
    }

    /// The provider with its four fixed actions.
    pub fn new() -> (s: SystemctlSource)
        ensures
            s.entries() == systemctl_fixed(),
    {
        let mut items: Vec<(String, String, String)> = Vec::new();
        items.push(
            (
                String::from_str("suspend"),
                String::from_str("Suspend the computer"),
                String::from_str("suspend"),
            ),
        );
        items.push(
            (
                String::from_str("hibernate"),
                String::from_str("Hibernate the computer"),
                String::from_str("hibernate"),
            ),
        );
        items.push(
            (
                String::from_str("reboot"),
                String::from_str("Reboot the computer"),
                String::from_str("reboot"),
            ),
        );
        items.push(
            (
                String::from_str("shutdown"),
                String::from_str("Shutdown the computer"),
                String::from_str("poweroff"),
            ),
        );
        let s = SystemctlSource { items };
        proof {
            assert(s.entries() =~= systemctl_fixed());
        }
        s
    }
}

impl Source for SystemctlSource {
    open spec fn name_spec(&self) -> Seq<char> {
        "systemctl"@
    }

    open spec fn init_post(&self, config: ConfigTable, post: SystemctlSource) -> bool {
        post == *self
    }

    open spec fn search_spec(&self, query: Seq<char>) -> Seq<ItemModel> {
        systemctl_items(self.entries(), query)
    }

    fn name(&self) -> (n: &'static str) {
        "systemctl"
    }

    fn init(&mut self, _config: &ConfigTable) {
    }

    fn deinit(&mut self) {
    }

    fn search(&self, query: &str) -> (r: Vec<SearchItem>) {
        let ghost es = self.entries();
        let mut out: Vec<SearchItem> = Vec::new();
        let n = self.items.len();
        let mut i: usize = 0;
        proof {
            assert(items_view(out@) =~= systemctl_items(es.take(0), query@));
        }
        while i < n
            invariant
                n == self.items@.len(),
                es == self.entries(),
                i <= n,
                items_view(out@) == systemctl_items(es.take(i as int), query@),
            decreases n - i,
        {
            proof {
                assert(es.take(i + 1).drop_last() =~= es.take(i as int));
                assert(es.take(i + 1).last() == es[i as int]);
                assert(es[i as int] == (
                    self.items@[i as int].0@,
                    self.items@[i as int].1@,
                    self.items@[i as int].2@,
                ));
            }
            let entry = &self.items[i];
            let score = match_score(entry.0.as_str(), query);
            if score > 0 || query.is_empty() {
                let item = SearchItem {
                    id: concat_str("systemctl", entry.0.as_str()),
                    title: Some(entry.0.clone()),
                    subtitle: Some(entry.1.clone()),
                    icon: None,
                    image: None,
                    score,
                    action: SelectAction::Run(concat_str("systemctl ", entry.2.as_str())),
                    layer: ItemLayer::Middle,
                    source: String::from_str("systemctl"),
                };
                proof {
                    assert(item@ == systemctl_item(es[i as int], query@));
                    lemma_items_view_push(out@, item);
                }
                out.push(item);
            }
            i += 1;
        }
        proof {
            assert(es.take(n as int) =~= es);
        }
        out
    }
}

} // verus!
