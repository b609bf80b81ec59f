//! The templated-site provider: a query of the form `<shortcut> <terms>`
//! offers opening the configured site with the terms filled into its URL
//! template.
use crate::config::ConfigTable;
use crate::model::{items_view, ActionModel, ItemLayer, ItemModel, SearchItem, SelectAction};
use crate::source::Source;
use crate::config::{string_entries_spec, string_entries_views};
use crate::text::{concat_str, first_space, spec_subst, split_once_space, str_eq, substitute};
use vstd::prelude::*;

verus! {

/// First match among the configured sites, by shortcut name.
pub open spec fn sites_get(sites: Seq<(Seq<char>, Seq<char>)>, key: Seq<char>) -> Option<Seq<char>>
    decreases sites.len(),
{
    if sites.len() == 0 {
        None
    } else if sites.first().0 == key {
        Some(sites.first().1)
    } else {
        sites_get(sites.drop_first(), key)
    }
}

/// The candidate a matched shortcut yields: selecting it opens the site's
/// URL with the search terms substituted for the `%s` placeholder.
pub open spec fn search_sites_item(shortcut: Seq<char>, url: Seq<char>, terms: Seq<char>) -> ItemModel {
    ItemModel {
        id: "search_sites"@ + shortcut,
        title: Some("Search for "@ + terms),
        subtitle: Some(spec_subst(url, terms)),
        icon: None,
        image: None,
        score: 100,
        action: ActionModel::OpenUrl(spec_subst(url, terms)),
        layer: ItemLayer::Middle,
        source: "search_sites"@,
    }
}

/// The provider's candidates: one item when the query is
/// `<known shortcut> <terms>`, nothing otherwise.
pub open spec fn search_sites_items(
    sites: Seq<(Seq<char>, Seq<char>)>,
    q: Seq<char>,
) -> Seq<ItemModel> {
    let sp = first_space(q);
    if sp < q.len() {
        match sites_get(sites, q.take(sp)) {
            Some(url) => seq![search_sites_item(q.take(sp), url, q.skip(sp + 1))],
            None => Seq::empty(),
        }
    } else {
        Seq::empty()
    }
}

/// The configured sites: shortcut name to URL template.
pub struct SearchSitesSource {
    sites: Vec<(String, String)>,
}

impl SearchSitesSource {
    /// The configured sites.
    pub closed spec fn site_views(&self) -> Seq<(Seq<char>, Seq<char>)> {
        string_entries_views(self.sites@)
    }

    /// A provider with no sites yet.
    pub fn new() -> (s: SearchSitesSource)
        ensures
            s.site_views() == Seq::<(Seq<char>, Seq<char>)>::empty(),
    {
        let s = SearchSitesSource { sites: Vec::new() };
        proof {
            assert(s.site_views() =~= Seq::<(Seq<char>, Seq<char>)>::empty());
        }
        s
    }

    /// Find the URL template for a shortcut.
    fn lookup<'a>(&'a self, key: &str) -> (r: Option<&'a String>)
        ensures
            match r {
                Some(url) => sites_get(self.site_views(), key@) == Some(url@),
                None => sites_get(self.site_views(), key@) is None,
            },
    {
        let n = self.sites.len();
        let mut i: usize = 0;
        proof {
            assert(self.site_views().skip(0) =~= self.site_views());
        }
        while i < n
            invariant
                n == self.sites@.len(),
                i <= n,
                sites_get(self.site_views(), key@) == sites_get(
                    self.site_views().skip(i as int),
                    key@,
                ),
            decreases n - i,
        {
            proof {
                assert(self.site_views().skip(i as int).first() == self.site_views()[i as int]);
                assert(self.site_views().skip(i as int).drop_first() =~= self.site_views().skip(
                    i + 1,
                ));
            }
            let e = &self.sites[i];
            if str_eq(e.0.as_str(), key) {
                return Some(&e.1);
            }
            i += 1;
        }
        proof {
            assert(self.site_views().skip(n as int) =~= Seq::<(Seq<char>, Seq<char>)>::empty());
        }
        None
    }
}

impl Source for SearchSitesSource {
    open spec fn name_spec(&self) -> Seq<char> {
        "search_sites"@
    }

    /// Initialization keeps every configuration entry that is a plain
    /// string, as a shortcut-to-URL pair.
    open spec fn init_post(&self, config: ConfigTable, post: SearchSitesSource) -> bool {
        post.site_views() == string_entries_spec(config.entries@)
    }

    open spec fn search_spec(&self, query: Seq<char>) -> Seq<ItemModel> {
        search_sites_items(self.site_views(), query)
    }

    fn name(&self) -> (n: &'static str) {
        "search_sites"
    }

    fn init(&mut self, config: &ConfigTable) {
        self.sites = config.string_entries();
    }

    fn deinit(&mut self) {
    }

    fn search(&self, query: &str) -> (r: Vec<SearchItem>) {
        let mut out: Vec<SearchItem> = Vec::new();
        match split_once_space(query) {
            Some((left, right)) => {
                match self.lookup(left.as_str()) {
                    Some(url) => {
                        let filled = substitute(url.as_str(), right.as_str());
                        let item = SearchItem {
                            id: concat_str("search_sites", left.as_str()),
                            title: Some(concat_str("Search for ", right.as_str())),
                            subtitle: Some(filled.clone()),
                            icon: None,
                            image: None,
                            score: 100,
                            action: SelectAction::OpenUrl(filled),
                            layer: ItemLayer::Middle,
                            source: String::from_str("search_sites"),
                        };
                        proof {
                            assert(item@ == search_sites_item(
                                query@.take(first_space(query@)),
                                sites_get(self.site_views(), left@)->Some_0,
                                query@.skip(first_space(query@) + 1),
                            ));
                        }
                        out.push(item);
                        proof {
                            assert(items_view(out@) =~= search_sites_items(
                                self.site_views(),
                                query@,
                            ));
                        }
                    },
                    None => {
                        proof {
                            assert(items_view(out@) =~= search_sites_items(
                                self.site_views(),
                                query@,
                            ));
                        }
                    },
                }
            },
            None => {
                proof {
                    assert(items_view(out@) =~= search_sites_items(self.site_views(), query@));
                }
            },
        }
        out
    }
}

} // verus!
