//! Data model: candidate items, their priority layer, and the action bound
//! to an item.
use vstd::prelude::*;

verus! {

/// Coarse priority band a provider assigns to its items, ordered from the
/// least to the most prominent.
#[derive(Debug, Clone, Copy, PartialEq, Eq, Structural)]
pub enum ItemLayer {
    Bottom,
    Middle,
    Top,
}

impl ItemLayer {
    /// Base weight the scoring algorithm gives each layer.
    pub open spec fn spec_weight(self) -> int {
        match self {
            ItemLayer::Bottom => 0,
            ItemLayer::Middle => 1,
            ItemLayer::Top => 2,
        }
    }

    /// Base weight the scoring algorithm gives each layer.
    pub fn weight(self) -> (w: u8)
        ensures
            w as int == self.spec_weight(),
    {
        match self {
            ItemLayer::Bottom => 0,
            ItemLayer::Middle => 1,
            ItemLayer::Top => 2,
        }
    }
}

/// Bytes destined for the clipboard.
pub struct ClipboardContent(pub Vec<u8>);

/// The side effect bound to an item, executed when the item is selected.
///
/// Every kind but `Refetch` ends the session once performed; `Refetch` asks
/// the front end to fetch fresh data for the named provider, hand it back
/// through `Os::update_source`, and stay interactive with a cleared query.
pub enum SelectAction {
    /// Do nothing and end the session.
    Noop,
    /// End the session without any side effect.
    Exit,
    /// Print the text on standard output.
    Print(String),
    /// Spawn the command, detached from the session.
    Run(String),
    /// Spawn the command inside an interactive terminal.
    RunInTerminal(String),
    /// Hand the bytes to the system clipboard.
    CopyToClipboard(ClipboardContent),
    /// Open the URL with the default handler.
    OpenUrl(String),
    /// A provider-internal mutation: fetch data for `query` on behalf of the
    /// provider named `source`, update that provider's state, and re-query.
    Refetch { source: String, query: String },
}

/// One candidate shown to the user for a query.
///
/// `id` is the usage-history key, unique per provider and content. `icon`
/// and `image` are handles opaque to the core: the front end maps them to
/// whatever picture data it loaded. `score` is the raw relevance the
/// provider or the fuzzy matcher assigned.
pub struct SearchItem {
    pub id: String,
    pub title: Option<String>,
    pub subtitle: Option<String>,
    pub icon: Option<u64>,
    pub image: Option<u64>,
    pub score: i64,
    pub action: SelectAction,
    pub layer: ItemLayer,
    pub source: String,
}

/// The mathematical shape of an action: the same kinds as `SelectAction`,
/// over character and byte sequences.
pub enum ActionModel {
    Noop,
    Exit,
    Print(Seq<char>),
    Run(Seq<char>),
    RunInTerminal(Seq<char>),
    CopyToClipboard(Seq<u8>),
    OpenUrl(Seq<char>),
    Refetch { source: Seq<char>, query: Seq<char> },
}

impl View for SelectAction {
    type V = ActionModel;

    open spec fn view(&self) -> ActionModel {
        match self {
            SelectAction::Noop => ActionModel::Noop,
            SelectAction::Exit => ActionModel::Exit,
            SelectAction::Print(t) => ActionModel::Print(t@),
            SelectAction::Run(c) => ActionModel::Run(c@),
            SelectAction::RunInTerminal(c) => ActionModel::RunInTerminal(c@),
            SelectAction::CopyToClipboard(b) => ActionModel::CopyToClipboard(b.0@),
            SelectAction::OpenUrl(u) => ActionModel::OpenUrl(u@),
            SelectAction::Refetch { source, query } => ActionModel::Refetch {
                source: source@,
                query: query@,
            },
        }
    }
}

/// The mathematical shape of a candidate item.
pub struct ItemModel {
    pub id: Seq<char>,
    pub title: Option<Seq<char>>,
    pub subtitle: Option<Seq<char>>,
    pub icon: Option<u64>,
    pub image: Option<u64>,
    pub score: i64,
    pub action: ActionModel,
    pub layer: ItemLayer,
    pub source: Seq<char>,
}

/// The view of an optional string.
pub open spec fn opt_view(o: Option<String>) -> Option<Seq<char>> {
    match o {
        Some(s) => Some(s@),
        None => None,
    }
}

impl View for SearchItem {
    type V = ItemModel;

    open spec fn view(&self) -> ItemModel {
        ItemModel {
            id: self.id@,
            title: opt_view(self.title),
            subtitle: opt_view(self.subtitle),
            icon: self.icon,
            image: self.image,
            score: self.score,
            action: self.action@,
            layer: self.layer,
            source: self.source@,
        }
    }
}

/// The views of a sequence of items.
pub open spec fn items_view(s: Seq<SearchItem>) -> Seq<ItemModel> {
    s.map_values(|it: SearchItem| it@)
}

/// Appending an item appends its view.
pub proof fn lemma_items_view_push(s: Seq<SearchItem>, x: SearchItem)
    ensures
        items_view(s.push(x)) == items_view(s).push(x@),
{
    assert(items_view(s.push(x)) =~= items_view(s).push(x@));
}

/// The views of two optional strings agree.
pub open spec fn opt_str_eq(a: Option<String>, b: Option<String>) -> bool {
    match (a, b) {
        (Some(x), Some(y)) => x@ == y@,
        (None, None) => true,
        _ => false,
    }
}

/// Equality of the views of two optional strings.
pub fn opt_str_eq_exec(a: &Option<String>, b: &Option<String>) -> (r: bool)
    ensures
        r == opt_str_eq(*a, *b),
{
    match (a, b) {
        (Some(x), Some(y)) => crate::text::str_eq(x.as_str(), y.as_str()),
        (None, None) => true,
        _ => false,
    }
}

impl SearchItem {
    /// What item equality means: everything the user can observe about the
    /// item — not its ledger key `id`, nor the provider that made it, nor
    /// the bound action.
    pub open spec fn same_displayed(self, other: SearchItem) -> bool {
        opt_str_eq(self.title, other.title) && opt_str_eq(self.subtitle, other.subtitle)
            && self.icon == other.icon && self.image == other.image && self.score == other.score
            && self.layer == other.layer
    }
}

impl PartialEq for SearchItem {
    fn eq(&self, other: &SearchItem) -> (r: bool) {
        opt_str_eq_exec(&self.title, &other.title) && opt_str_eq_exec(
            &self.subtitle,
            &other.subtitle,
        ) && self.icon == other.icon && self.image == other.image && self.score == other.score
            && self.layer == other.layer
    }
}

impl vstd::std_specs::cmp::PartialEqSpecImpl for SearchItem {
    open spec fn obeys_eq_spec() -> bool {
        true
    }

    open spec fn eq_spec(&self, other: &SearchItem) -> bool {
        self.same_displayed(*other)
    }
}

} // verus!
