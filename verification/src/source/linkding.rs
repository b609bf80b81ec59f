//! The bookmark-service provider: bookmarks fetched from a linkding server,
//! searched by tags (`#tag` words of the query) and fuzzy text. Fetching and
//! decoding the bookmarks is the embedding program's business; the provider
//! holds them as plain values.
use crate::config::{ConfigTable, ConfigValue};
use crate::fuzzy::{match_score, spec_match_score};
use crate::model::{lemma_items_view_push, items_view, ActionModel, ItemLayer, ItemModel, SearchItem, SelectAction};
use crate::source::Source;
use crate::text::{
    concat_str,
    join_with,
    spec_decimal,
    spec_join,
    spec_join_sep,
    spec_words,
    split_words,
    str_eq,
    str_views,
    u64_to_dec,
};
use vstd::prelude::*;

verus! {

/// The default page size asked of the server.
pub fn _default_limit() -> (r: u32)
    ensures
        r == 100,
{
    100
}

/// One bookmark, as plain values.
pub struct Bookmark {
    pub id: u32,
    pub url: String,
    pub title: String,
    pub description: String,
    pub tag_names: Vec<String>,
}

/// Configuration of the bookmark provider.
pub struct LinkdingConfig {
    pub api_key: String,
    pub host: String,
    pub limit: u32,
}

/// The parsed configuration: the API key and host must be strings; the page
/// limit defaults to 100.
pub open spec fn ld_config_spec(config: ConfigTable) -> Option<(Seq<char>, Seq<char>, u32)> {
    match (config.spec_get("api_key"@), config.spec_get("host"@)) {
        (Some(ConfigValue::Str(key)), Some(ConfigValue::Str(host))) => {
            let limit = match config.spec_get("limit"@) {
                Some(ConfigValue::Int(v)) => if 0 <= v <= u32::MAX {
                    v as u32
                } else {
                    100u32
                },
                _ => 100u32,
            };
            Some((key@, host@, limit))
        },
        _ => None,
    }
}

/// Whether a query word names a tag.
pub open spec fn starts_hash(w: Seq<char>) -> bool {
    w.len() > 0 && w[0] == '#'
}

/// The tags among the words, stripped of their `#`.
pub open spec fn tags_of(ws: Seq<Seq<char>>) -> Seq<Seq<char>>
    decreases ws.len(),
{
    if ws.len() == 0 {
        Seq::empty()
    } else {
        let rest = tags_of(ws.drop_last());
        if starts_hash(ws.last()) {
            rest.push(ws.last().skip(1))
        } else {
            rest
        }
    }
}

/// The words that are not tags.
pub open spec fn plains_of(ws: Seq<Seq<char>>) -> Seq<Seq<char>>
    decreases ws.len(),
{
    if ws.len() == 0 {
        Seq::empty()
    } else {
        let rest = plains_of(ws.drop_last());
        if !starts_hash(ws.last()) {
            rest.push(ws.last())
        } else {
            rest
        }
    }
}

/// The query without its tag words, joined back with single spaces.
pub open spec fn plain_query(q: Seq<char>) -> Seq<char> {
    spec_join(plains_of(spec_words(q)))
}

/// The bookmark carries the tag.
pub open spec fn has_tag(b: Bookmark, t: Seq<char>) -> bool {
    exists|i: int| 0 <= i < b.tag_names@.len() && (#[trigger] b.tag_names@[i])@ == t
}

/// The bookmark carries every tag of the query.
pub open spec fn has_all_tags(b: Bookmark, tags: Seq<Seq<char>>) -> bool {
    forall|j: int| 0 <= j < tags.len() ==> has_tag(b, #[trigger] tags[j])
}

/// The bookmark's relevance: the best fuzzy score among its title,
/// description and URL.
pub open spec fn bm_score(b: Bookmark, p: Seq<char>) -> i64 {
    let ts = spec_match_score(b.title@, p);
    let ds = spec_match_score(b.description@, p);
    let us = spec_match_score(b.url@, p);
    let m = if ts >= ds {
        ts
    } else {
        ds
    };
    if m >= us {
        m
    } else {
        us
    }
}

/// Whether the bookmark stays in the result: it carries every queried tag,
/// and it matches the remaining query text unless there is none.
pub open spec fn ld_keeps(b: Bookmark, q: Seq<char>) -> bool {
    has_all_tags(b, tags_of(spec_words(q))) && !(bm_score(b, plain_query(q)) == 0 && plain_query(
        q,
    ).len() > 0)
}

/// The bookmark's tags, `#`-prefixed and comma-separated.
pub open spec fn tag_line(tags: Seq<Seq<char>>) -> Seq<char> {
    spec_join_sep(tags.map_values(|t: Seq<char>| "#"@ + t), ", "@)
}

/// The candidate a kept bookmark becomes: selecting it opens the bookmark's
/// URL.
pub open spec fn ld_item(b: Bookmark, q: Seq<char>) -> ItemModel {
    ItemModel {
        id: "linkding"@ + spec_decimal(b.id as int),
        title: if b.title@.len() == 0 {
            None
        } else {
            Some(b.title@)
        },
        subtitle: Some(b.url@ + " ("@ + tag_line(str_views(b.tag_names@)) + ")"@),
        icon: None,
        image: None,
        score: bm_score(b, plain_query(q)),
        action: ActionModel::OpenUrl(b.url@),
        layer: ItemLayer::Middle,
        source: "linkding"@,
    }
}

/// The candidates for the query, in bookmark order.
pub open spec fn ld_items(bs: Seq<Bookmark>, q: Seq<char>) -> Seq<ItemModel>
    decreases bs.len(),
{
    if bs.len() == 0 {
        Seq::empty()
    } else {
        let rest = ld_items(bs.drop_last(), q);
        if ld_keeps(bs.last(), q) {
            rest.push(ld_item(bs.last(), q))
        } else {
            rest
        }
    }
}

/// The bookmark-service provider.
pub struct LinkdingSource {
    bookmarks: Vec<Bookmark>,
    config: Option<LinkdingConfig>,
}

impl LinkdingSource {
    /// The held bookmarks.
    pub closed spec fn marks(&self) -> Seq<Bookmark> {
        self.bookmarks@
    }

    /// The parsed configuration, as views.
    pub closed spec fn cfg(&self) -> Option<(Seq<char>, Seq<char>, u32)> {
        match self.config {
            Some(c) => Some((c.api_key@, c.host@, c.limit)),
            None => None,
        }
    }

    /// A provider with no bookmarks and no configuration yet.
    pub fn new() -> (s: LinkdingSource)
        ensures
            s.marks() == Seq::<Bookmark>::empty(),
            s.cfg() is None,
    {
        let s = LinkdingSource { bookmarks: Vec::new(), config: None };
        proof {
            assert(s.marks() =~= Seq::<Bookmark>::empty());
        }
        s
    }

    /// The parsed configuration, for the fetcher.
    pub fn config<'a>(&'a self) -> (r: &'a Option<LinkdingConfig>)
        ensures
            r is Some <==> self.cfg() is Some,
            r is Some ==> (r->Some_0.api_key@, r->Some_0.host@, r->Some_0.limit) == self.cfg()->Some_0,
    {
        &self.config
    }

    /// The URL the bookmarks are fetched from, once configured.
    pub fn bookmarks_url(&self) -> (r: Option<String>)
        ensures
            match r {
                Some(u) => self.cfg() is Some && u@ == self.cfg()->Some_0.1
                    + "/api/bookmarks/?limit="@ + spec_decimal(self.cfg()->Some_0.2 as int),
                None => self.cfg() is None,
            },
    {
        match &self.config {
            Some(c) => {
                let head = concat_str(c.host.as_str(), "/api/bookmarks/?limit=");
                let num = u64_to_dec(c.limit as u64);
                let url = concat_str(head.as_str(), num.as_str());
                proof {
                    assert(url@ =~= self.cfg()->Some_0.1 + "/api/bookmarks/?limit="@
                        + spec_decimal(self.cfg()->Some_0.2 as int));
                }
                Some(url)
            },
            None => None,
        }
    }

    /// Hand the provider the fetched bookmarks.
    pub fn set_bookmarks(&mut self, bookmarks: Vec<Bookmark>)
        ensures
            final(self).marks() == bookmarks@,
            final(self).cfg() == old(self).cfg(),
    {
        self.bookmarks = bookmarks;
    }

    /// The bookmark carries every tag.
    fn carries_all(b: &Bookmark, tags: &Vec<String>) -> (r: bool)
        ensures
            r == has_all_tags(*b, str_views(tags@)),
    {
        let n = tags.len();
        let mut j: usize = 0;
        while j < n
            invariant
                n == tags@.len(),
                j <= n,
                forall|k: int| 0 <= k < j ==> has_tag(*b, str_views(tags@)[k]),
            decreases n - j,
        {
            let t = &tags[j];
            let m = b.tag_names.len();
            let mut i: usize = 0;
            let mut found = false;
            while i < m
                invariant
                    m == b.tag_names@.len(),
                    i <= m,
                    found ==> has_tag(*b, t@),
                    !found ==> forall|k: int| 0 <= k < i ==> (#[trigger] b.tag_names@[k])@ != t@,
                decreases m - i,
            {
                if str_eq(b.tag_names[i].as_str(), t.as_str()) {
                    found = true;
                    proof {
                        assert(b.tag_names@[i as int]@ == t@);
                    }
                }
                i += 1;
            }
            if !found {
                proof {
                    assert(!has_tag(*b, str_views(tags@)[j as int]));
                }
                return false;
            }
            j += 1;
        }
        true
    }
}

impl Source for LinkdingSource {
    open spec fn name_spec(&self) -> Seq<char> {
        "linkding"@
    }

    /// Initialization parses the API key, host and page limit; the held
    /// bookmarks stay.
    open spec fn init_post(&self, config: ConfigTable, post: LinkdingSource) -> bool {
        post.cfg() == ld_config_spec(config) && post.marks() == self.marks()
    }

    open spec fn search_spec(&self, query: Seq<char>) -> Seq<ItemModel> {
        ld_items(self.marks(), query)
    }

    fn name(&self) -> (n: &'static str) {
        "linkding"
    }

    fn init(&mut self, config: &ConfigTable) {
        let key = match config.get("api_key") {
            Some(ConfigValue::Str(k)) => Some(k.clone()),
            _ => None,
        };
        let host = match config.get("host") {
            Some(ConfigValue::Str(h)) => Some(h.clone()),
            _ => None,
        };
        match (key, host) {
            (Some(api_key), Some(host)) => {
                let limit = match config.get("limit") {
                    Some(ConfigValue::Int(v)) => {
                        if 0 <= *v && *v <= u32::MAX as i64 {
                            *v as u32
                        } else {
                            100
                        }
                    },
                    _ => 100,
                };
                self.config = Some(LinkdingConfig { api_key, host, limit });
            },
            _ => {
                self.config = None;
            },
        }
    }

    fn deinit(&mut self) {
    }

    fn search(&self, query: &str) -> (r: Vec<SearchItem>) {
        let ghost bs = self.marks();
        let words = split_words(query);
        let mut tags: Vec<String> = Vec::new();
        let mut plains: Vec<String> = Vec::new();
        let wn = words.len();
        let mut w: usize = 0;
        proof {
            assert(str_views(tags@) =~= tags_of(str_views(words@).take(0)));
            assert(str_views(plains@) =~= plains_of(str_views(words@).take(0)));
        }
        while w < wn
            invariant
                wn == words@.len(),
                w <= wn,
                str_views(tags@) == tags_of(str_views(words@).take(w as int)),
                str_views(plains@) == plains_of(str_views(words@).take(w as int)),
            decreases wn - w,
        {
            proof {
                let ws = str_views(words@);
                assert(ws.take(w + 1).drop_last() =~= ws.take(w as int));
                assert(ws.take(w + 1).last() == ws[w as int]);
                assert(ws[w as int] == words@[w as int]@);
            }
            let word = &words[w];
            let wl = word.as_str().unicode_len();
            if wl > 0 && word.as_str().get_char(0) == '#' {
                let ghost before = tags@;
                tags.push(String::from_str(word.as_str().substring_char(1, wl)));
                proof {
                    assert(str_views(tags@) =~= str_views(before).push(words@[w as int]@.skip(1)));
                }
            } else {
                let ghost before = plains@;
                plains.push(word.clone());
                proof {
                    assert(str_views(plains@) =~= str_views(before).push(words@[w as int]@));
                }
            }
            w += 1;
        }
        proof {
            assert(str_views(words@).take(wn as int) =~= str_views(words@));
            assert(str_views(words@) == spec_words(query@));
        }
        let plain = join_with(&plains, " ");
        proof {
            reveal_strlit(" ");
            assert(" "@ =~= seq![' ']);
            assert(plain@ == plain_query(query@));
        }
        let mut out: Vec<SearchItem> = Vec::new();
        let n = self.bookmarks.len();
        let mut i: usize = 0;
        proof {
            assert(items_view(out@) =~= ld_items(bs.take(0), query@));
        }
        while i < n
            invariant
                n == self.bookmarks@.len(),
                bs == self.marks(),
                i <= n,
                plain@ == plain_query(query@),
                str_views(tags@) == tags_of(spec_words(query@)),
                items_view(out@) == ld_items(bs.take(i as int), query@),
            decreases n - i,
        {
            proof {
                assert(bs.take(i + 1).drop_last() =~= bs.take(i as int));
                assert(bs.take(i + 1).last() == bs[i as int]);
                assert(bs[i as int] == self.bookmarks@[i as int]);
            }
            let b = &self.bookmarks[i];
            if Self::carries_all(b, &tags) {
                let ts = match_score(b.title.as_str(), plain.as_str());
                let ds = match_score(b.description.as_str(), plain.as_str());
                let us = match_score(b.url.as_str(), plain.as_str());
                let m = if ts >= ds {
                    ts
                } else {
                    ds
                };
                let score = if m >= us {
                    m
                } else {
                    us
                };
                if score != 0 || plain.as_str().is_empty() {
                    let mut hashed: Vec<String> = Vec::new();
                    let tn = b.tag_names.len();
                    let mut t: usize = 0;
                    proof {
                        assert(str_views(hashed@) =~= str_views(b.tag_names@).take(
                            0,
                        ).map_values(|x: Seq<char>| "#"@ + x));
                    }
                    while t < tn
                        invariant
                            tn == b.tag_names@.len(),
                            t <= tn,
                            str_views(hashed@) == str_views(b.tag_names@).take(
                                t as int,
                            ).map_values(|x: Seq<char>| "#"@ + x),
                        decreases tn - t,
                    {
                        let ghost before = hashed@;
                        hashed.push(concat_str("#", b.tag_names[t].as_str()));
                        proof {
                            let tv = str_views(b.tag_names@);
                            assert(str_views(hashed@) =~= str_views(before).push(
                                "#"@ + tv[t as int],
                            ));
                            assert(tv.take(t + 1).map_values(|x: Seq<char>| "#"@ + x) =~= tv.take(
                                t as int,
                            ).map_values(|x: Seq<char>| "#"@ + x).push("#"@ + tv[t as int]));
                        }
                        t += 1;
                    }
                    proof {
                        assert(str_views(b.tag_names@).take(tn as int) =~= str_views(
                            b.tag_names@,
                        ));
                    }
                    let joined = join_with(&hashed, ", ");
                    let sub_head = concat_str(b.url.as_str(), " (");
                    let sub_mid = concat_str(sub_head.as_str(), joined.as_str());
                    let subtitle = concat_str(sub_mid.as_str(), ")");
                    proof {
                        assert(joined@ == tag_line(str_views(b.tag_names@))) by {
                            assert(str_views(hashed@) =~= str_views(b.tag_names@).map_values(
                                |x: Seq<char>| "#"@ + x,
                            ));
                        }
                        assert(subtitle@ =~= b.url@ + " ("@ + tag_line(str_views(b.tag_names@))
                            + ")"@);
                    }
                    let title = if b.title.as_str().is_empty() {
                        None
                    } else {
                        Some(b.title.clone())
                    };
                    let item = SearchItem {
                        id: concat_str("linkding", u64_to_dec(b.id as u64).as_str()),
                        title,
                        subtitle: Some(subtitle),
                        icon: None,
                        image: None,
                        score,
                        action: SelectAction::OpenUrl(b.url.clone()),
                        layer: ItemLayer::Middle,
                        source: String::from_str("linkding"),
                    };
                    proof {
                        assert(item@ == ld_item(bs[i as int], query@));
                        lemma_items_view_push(out@, item);
                    }
                    out.push(item);
                }
            }
            i += 1;
            proof {
                assert(items_view(out@) =~= ld_items(bs.take(i as int), query@));
            }
        }
        proof {
            assert(bs.take(n as int) =~= bs);
        }
        out
    }
}

} // verus!
