//! The expression-evaluation provider: when the query has a value as an
//! arithmetic expression, offer that value; selecting it copies the value to
//! the clipboard.
//!
//! The expression engine itself is not total — on some inputs it aborts
//! (an empty parenthesis pair underflows its operand stack, and arithmetic
//! overflow aborts in debug builds) and a wide range expression effectively
//! never returns — so no trusted contract here could promise a normal
//! return from it. The embedding program therefore evaluates each query in
//! a way it can contain and hands the rendered value in before querying;
//! the provider answers from that value, and only for exactly the query it
//! was computed for.
use crate::config::ConfigTable;
use crate::model::{items_view, ActionModel, ItemLayer, ItemModel, SearchItem, SelectAction};
use crate::source::Source;
use crate::text::str_eq;
use vstd::prelude::*;

verus! {

/// The single candidate an evaluated query yields.
pub open spec fn eval_item(value: Seq<char>) -> ItemModel {
    ItemModel {
        id: "eval"@,
        title: Some(value),
        subtitle: Some("eval"@),
        icon: None,
        image: None,
        score: 1,
        action: ActionModel::CopyToClipboard(vstd::utf8::encode_utf8(value)),
        layer: ItemLayer::Top,
        source: "eval"@,
    }
}

/// The provider's candidates: the held value when it was computed for
/// exactly this query, nothing otherwise.
pub open spec fn eval_items(
    cached: Option<(Seq<char>, Seq<char>)>,
    query: Seq<char>,
) -> Seq<ItemModel> {
    match cached {
        Some(c) => if c.0 == query {
            seq![eval_item(c.1)]
        } else {
            Seq::empty()
        },
        None => Seq::empty(),
    }
}

/// The expression-evaluation provider.
pub struct EvalSource {
    last: Option<(String, String)>,
}

impl EvalSource {
    /// The query the held value was computed for, and that value.
    pub closed spec fn cached(&self) -> Option<(Seq<char>, Seq<char>)> {
        match self.last {
            Some(c) => Some((c.0@, c.1@)),
            None => None,
        }
    }

    /// A provider holding no value yet.
    pub fn new() -> (s: EvalSource)
        ensures
            s.cached() is None,
    {
        EvalSource { last: None }
    }

    /// Hand the provider the rendered value of `query` as an expression, or
    /// `None` when the query has no value.
    pub fn set_result(&mut self, query: String, value: Option<String>)
        ensures
            final(self).cached() == match value {
                Some(v) => Some((query@, v@)),
                None => None::<(Seq<char>, Seq<char>)>,
            },
    {
        match value {
            Some(v) => {
                self.last = Some((query, v));
            },
            None => {
                self.last = None;
            },
        }
    }
}

impl Source for EvalSource {
    open spec fn name_spec(&self) -> Seq<char> {
        "eval"@
    }

    open spec fn init_post(&self, config: ConfigTable, post: EvalSource) -> bool {
        post == *self
    }

    open spec fn search_spec(&self, query: Seq<char>) -> Seq<ItemModel> {
        eval_items(self.cached(), query)
    }

    fn name(&self) -> (n: &'static str) {
        "eval"
    }

    fn init(&mut self, _config: &ConfigTable) {
    }

    fn deinit(&mut self) {
    }

    fn search(&self, query: &str) -> (r: Vec<SearchItem>) {
        let mut out: Vec<SearchItem> = Vec::new();
        match &self.last {
            Some(c) => {
                if str_eq(c.0.as_str(), query) {
                    let bytes = c.1.as_str().as_bytes_vec();
                    let item = SearchItem {
                        id: String::from_str("eval"),
                        title: Some(c.1.clone()),
                        subtitle: Some(String::from_str("eval")),
                        icon: None,
                        image: None,
                        score: 1,
                        action: SelectAction::CopyToClipboard(
                            crate::model::ClipboardContent(bytes),
                        ),
                        layer: ItemLayer::Top,
                        source: String::from_str("eval"),
                    };
                    proof {
                        assert(item@ == eval_item(c.1@));
                    }
                    out.push(item);
                    proof {
                        assert(items_view(out@) =~= eval_items(self.cached(), query@));
                    }
                } else {
                    proof {
                        assert(items_view(out@) =~= eval_items(self.cached(), query@));
                    }
                }
            },
            None => {
                proof {
                    assert(items_view(out@) =~= eval_items(self.cached(), query@));
                }
            },
        }
        out
    }
}

} // verus!
