//! The clipboard-history provider: one candidate per remembered clipboard
//! entry. Reading the history store and decoding images are the embedding
//! program's business; text entries carry their text, image entries an
//! opaque handle, and every entry the raw bytes to restore.
use crate::config::{ConfigTable, ConfigValue};
use crate::fuzzy::{match_score, spec_match_score};
use crate::model::{
    lemma_items_view_push,
    items_view,
    opt_view,
    ActionModel,
    ClipboardContent,
    ItemLayer,
    ItemModel,
    SearchItem,
    SelectAction,
};
use crate::source::Source;
use crate::text::{concat_str, spec_decimal, u64_to_dec};
use vstd::prelude::*;

verus! {

/// One remembered clipboard entry.
pub struct ClipEntry {
    /// The text, for a textual entry.
    pub title: Option<String>,
    /// An opaque image handle, for an image entry.
    pub image: Option<u64>,
    /// The raw bytes that restore the entry.
    pub content: Vec<u8>,
    /// A hash of the raw bytes, the entry's identity.
    pub hash: u64,
}

/// Configuration of the clipboard-history provider.
pub struct CliphistConfig {
    /// Whether image entries are decoded and shown.
    pub icons: bool,
}

/// The configured icons flag: on unless the table turns it off.
pub open spec fn cliphist_icons(config: ConfigTable) -> bool {
    match config.spec_get("icons"@) {
        Some(ConfigValue::Bool(b)) => b,
        _ => true,
    }
}

/// The view of one entry.
pub open spec fn clip_views(s: Seq<ClipEntry>) -> Seq<
    (Option<Seq<char>>, Option<u64>, Seq<u8>, u64),
> {
    s.map_values(|e: ClipEntry| (opt_view(e.title), e.image, e.content@, e.hash))
}

/// The relevance of an entry: every entry matches an empty query; a textual
/// entry is fuzzy-matched on its first five hundred characters; an image
/// entry counts one.
pub open spec fn clip_score(e: (Option<Seq<char>>, Option<u64>, Seq<u8>, u64), q: Seq<char>) -> i64 {
    if q.len() == 0 {
        1
    } else {
        match e.0 {
            Some(t) => spec_match_score(if t.len() > 500 { t.take(500) } else { t }, q),
            None => 1,
        }
    }
}

/// The candidate an entry becomes: selecting it copies the entry back to the
/// clipboard.
pub open spec fn clip_item(e: (Option<Seq<char>>, Option<u64>, Seq<u8>, u64), q: Seq<char>) -> ItemModel {
    ItemModel {
        id: "cliphist"@ + spec_decimal(e.3 as int),
        title: e.0,
        subtitle: Some("(cliphist)"@),
        icon: None,
        image: e.1,
        score: clip_score(e, q),
        action: ActionModel::CopyToClipboard(e.2),
        layer: ItemLayer::Bottom,
        source: "cliphist"@,
    }
}

/// The candidates for the query: every entry, in store order.
pub open spec fn clip_items(
    es: Seq<(Option<Seq<char>>, Option<u64>, Seq<u8>, u64)>,
    q: Seq<char>,
) -> Seq<ItemModel>
    decreases es.len(),
{
    if es.len() == 0 {
        Seq::empty()
    } else {
        clip_items(es.drop_last(), q).push(clip_item(es.last(), q))
    }
}

/// The clipboard-history provider.
pub struct CliphistSource {
    items: Vec<ClipEntry>,
    icons: bool,
}

impl CliphistSource {
    /// The held entries.
    pub closed spec fn clips(&self) -> Seq<(Option<Seq<char>>, Option<u64>, Seq<u8>, u64)> {
        clip_views(self.items@)
    }

    /// The configured icons flag.
    pub closed spec fn icons_on(&self) -> bool {
        self.icons
    }

    /// A provider with no entries yet.
    pub fn new() -> (s: CliphistSource)
        ensures
            s.clips() == Seq::<(Option<Seq<char>>, Option<u64>, Seq<u8>, u64)>::empty(),
    {
        let s = CliphistSource { items: Vec::new(), icons: true };
        proof {
            assert(s.clips() =~= Seq::<(Option<Seq<char>>, Option<u64>, Seq<u8>, u64)>::empty());
        }
        s
    }

    /// Hand the provider the decoded clipboard entries.
    pub fn set_items(&mut self, items: Vec<ClipEntry>)
        ensures
            final(self).clips() == clip_views(items@),
            final(self).icons_on() == old(self).icons_on(),
    {
        self.items = items;
    }
}

impl Source for CliphistSource {
    open spec fn name_spec(&self) -> Seq<char> {
        "cliphist"@
    }

    /// Initialization parses the icons flag; the held entries stay.
    open spec fn init_post(&self, config: ConfigTable, post: CliphistSource) -> bool {
        post.icons_on() == cliphist_icons(config) && post.clips() == self.clips()
    }

    open spec fn search_spec(&self, query: Seq<char>) -> Seq<ItemModel> {
        clip_items(self.clips(), query)
    }

    fn name(&self) -> (n: &'static str) {
        "cliphist"
    }

    fn init(&mut self, config: &ConfigTable) {
        self.icons = match config.get("icons") {
            Some(ConfigValue::Bool(b)) => *b,
            _ => true,
        };
    }

    fn deinit(&mut self) {
    }

    fn search(&self, query: &str) -> (r: Vec<SearchItem>) {
        let ghost es = self.clips();
        let mut out: Vec<SearchItem> = Vec::new();
        let n = self.items.len();
        let mut i: usize = 0;
        proof {
            assert(items_view(out@) =~= clip_items(es.take(0), query@));
        }
        while i < n
            invariant
                n == self.items@.len(),
                es == self.clips(),
                i <= n,
                items_view(out@) == clip_items(es.take(i as int), query@),
            decreases n - i,
        {
            proof {
                assert(es.take(i + 1).drop_last() =~= es.take(i as int));
                assert(es.take(i + 1).last() == es[i as int]);
                assert(es[i as int] == (
                    opt_view(self.items@[i as int].title),
                    self.items@[i as int].image,
                    self.items@[i as int].content@,
                    self.items@[i as int].hash,
                ));
            }
            let e = &self.items[i];
            let score: i64 = if query.is_empty() {
                1
            } else {
                match &e.title {
                    Some(t) => {
                        let tl = t.as_str().unicode_len();
                        let cut = if tl > 500 {
                            500
                        } else {
                            tl
                        };
                        let head = t.as_str().substring_char(0, cut);
                        proof {
                            if t@.len() > 500 {
                                assert(head@ =~= t@.take(500));
                            } else {
                                assert(head@ =~= t@);
                            }
                        }
                        match_score(head, query)
                    },
                    None => 1,
                }
            };
            let title = match &e.title {
                Some(t) => Some(t.clone()),
                None => None,
            };
            let content: Vec<u8> = vstd::slice::slice_to_vec(e.content.as_slice());
            let item = SearchItem {
                id: concat_str("cliphist", u64_to_dec(e.hash).as_str()),
                title,
                subtitle: Some(String::from_str("(cliphist)")),
                icon: None,
                image: e.image,
                score,
                action: SelectAction::CopyToClipboard(ClipboardContent(content)),
                layer: ItemLayer::Bottom,
                source: String::from_str("cliphist"),
            };
            proof {
                assert(item@ == clip_item(es[i as int], query@));
                lemma_items_view_push(out@, item);
            }
            out.push(item);
            i += 1;
        }
        proof {
            assert(es.take(n as int) =~= es);
        }
        out
    }
}

} // verus!
