//! The standard-input provider: one candidate per line read from standard
//! input. Reading the lines is the embedding program's business; they are
//! handed in before the session starts.
use crate::config::ConfigTable;
use crate::fuzzy::{match_score, spec_match_score};
use crate::model::{lemma_items_view_push, items_view, ActionModel, ItemLayer, ItemModel, SearchItem, SelectAction};
use crate::source::Source;
use crate::text::{concat_str, str_views};
use vstd::prelude::*;

verus! {

/// Candidates read from standard input.
pub struct StdinSource {
    items: Vec<String>,
}

/// Whether a line stays in the result: it matches the query, or the query is
/// empty.
pub open spec fn stdin_keeps(text: Seq<char>, q: Seq<char>) -> bool {
    spec_match_score(text, q) > 0 || q.len() == 0
}

/// The candidate a kept line becomes: selecting it prints the line.
pub open spec fn stdin_item(text: Seq<char>, q: Seq<char>) -> ItemModel {
    ItemModel {
        id: "stdin"@ + text,
        title: Some(text),
        subtitle: None,
        icon: None,
        image: None,
        score: spec_match_score(text, q),
        action: ActionModel::Print(text),
        layer: ItemLayer::Middle,
        source: "stdin"@,
    }
}

/// The candidates for the query, in line order.
pub open spec fn stdin_items(texts: Seq<Seq<char>>, q: Seq<char>) -> Seq<ItemModel>
    decreases texts.len(),
{
    if texts.len() == 0 {
        Seq::empty()
    } else {
        let rest = stdin_items(texts.drop_last(), q);
        if stdin_keeps(texts.last(), q) {
            rest.push(stdin_item(texts.last(), q))
        } else {
            rest
        }
    }
}

impl StdinSource {
    /// The lines the provider holds.
    pub closed spec fn texts(&self) -> Seq<Seq<char>> {
        str_views(self.items@)
    }

    /// A provider with no lines yet.
    pub fn new() -> (s: StdinSource)
        ensures
            s.texts() == Seq::<Seq<char>>::empty(),
    {
        let s = StdinSource { items: Vec::new() };
        proof {
            assert(s.texts() =~= Seq::<Seq<char>>::empty());
        }
        s
    }

    /// Hand the provider the lines read from standard input.
    pub fn set_items(&mut self, items: Vec<String>)
        ensures
            final(self).texts() == str_views(items@),
    {
        self.items = items;
    }
}

impl Source for StdinSource {
    open spec fn name_spec(&self) -> Seq<char> {
        "stdin"@
    }

    open spec fn init_post(&self, config: ConfigTable, post: StdinSource) -> bool {
        post == *self
    }

    open spec fn search_spec(&self, query: Seq<char>) -> Seq<ItemModel> {
        stdin_items(self.texts(), query)
    }

    fn name(&self) -> (n: &'static str) {
        "stdin"
    }

    fn init(&mut self, _config: &ConfigTable) {
    }

    fn deinit(&mut self) {
    }

    fn search(&self, query: &str) -> (r: Vec<SearchItem>) {
        let ghost ts = self.texts();
        let mut out: Vec<SearchItem> = Vec::new();
        let n = self.items.len();
        let mut i: usize = 0;
        proof {
            assert(items_view(out@) =~= stdin_items(ts.take(0), query@));
        }
        while i < n
            invariant
                n == self.items@.len(),
                ts == self.texts(),
                i <= n,
                items_view(out@) == stdin_items(ts.take(i as int), query@),
            decreases n - i,
        {
            proof {
                assert(ts.take(i + 1).drop_last() =~= ts.take(i as int));
                assert(ts.take(i + 1).last() == ts[i as int]);
                assert(ts[i as int] == self.items@[i as int]@);
            }
            let text = &self.items[i];
            let score = match_score(text.as_str(), query);
            if score > 0 || query.is_empty() {
                let item = SearchItem {
                    id: concat_str("stdin", text.as_str()),
                    title: Some(text.clone()),
                    subtitle: None,
                    icon: None,
                    image: None,
                    score,
                    action: SelectAction::Print(text.clone()),
                    layer: ItemLayer::Middle,
                    source: String::from_str("stdin"),
                };
                proof {
                    assert(item@ == stdin_item(ts[i as int], query@));
                    lemma_items_view_push(out@, item);
                }
                out.push(item);
            }
            i += 1;
        }
        proof {
            assert(ts.take(n as int) =~= ts);
        }
        out
    }
}

} // verus!
