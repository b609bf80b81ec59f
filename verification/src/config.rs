//! Per-session configuration: the enabled providers, their private
//! configuration tables, and the session-wide settings.
//!
//! A provider's configuration arrives as an opaque key-to-value table. The
//! embedding program parses whatever syntax the configuration file uses and
//! hands the core this plain tree.
use crate::text::str_eq;
use vstd::prelude::*;

verus! {

/// One configuration value.
pub enum ConfigValue {
    Str(String),
    Int(i64),
    Bool(bool),
    Table(ConfigTable),
}

/// A key-to-value table; the first entry for a key wins.
pub struct ConfigTable {
    pub entries: Vec<(String, ConfigValue)>,
}

/// First-match lookup among entries.
pub open spec fn entries_get(s: Seq<(String, ConfigValue)>, key: Seq<char>) -> Option<ConfigValue>
    decreases s.len(),
{
    if s.len() == 0 {
        None
    } else if s.first().0@ == key {
        Some(s.first().1)
    } else {
        entries_get(s.drop_first(), key)
    }
}

/// The views of a list of string pairs.
pub open spec fn string_entries_views(s: Seq<(String, String)>) -> Seq<(Seq<char>, Seq<char>)> {
    s.map_values(|p: (String, String)| (p.0@, p.1@))
}

/// The entries whose value is a plain string, as (key, value) view pairs, in
/// order.
pub open spec fn string_entries_spec(s: Seq<(String, ConfigValue)>) -> Seq<(Seq<char>, Seq<char>)>
    decreases s.len(),
{
    if s.len() == 0 {
        Seq::empty()
    } else {
        let rest = string_entries_spec(s.drop_last());
        match s.last().1 {
            ConfigValue::Str(v) => rest.push((s.last().0@, v@)),
            _ => rest,
        }
    }
}

impl ConfigTable {
    /// The view of the table: first-match lookup.
    pub open spec fn spec_get(&self, key: Seq<char>) -> Option<ConfigValue> {
        entries_get(self.entries@, key)
    }

    /// An empty table.
    pub fn new() -> (t: ConfigTable)
        ensures
            t.entries@.len() == 0,
    {
        ConfigTable { entries: Vec::new() }
    }

    /// The value for `key`, if any: the first entry wins.
    pub fn get<'a>(&'a self, key: &str) -> (r: Option<&'a ConfigValue>)
        ensures
            match r {
                Some(v) => self.spec_get(key@) == Some(*v),
                None => self.spec_get(key@) is None,
            },
    {
        let n = self.entries.len();
        let mut i: usize = 0;
        proof {
            assert(self.entries@.skip(0) =~= self.entries@);
        }
        while i < n
            invariant
                n == self.entries@.len(),
                i <= n,
                entries_get(self.entries@, key@) == entries_get(self.entries@.skip(i as int), key@),
            decreases n - i,
        {
            proof {
                assert(self.entries@.skip(i as int).first() == self.entries@[i as int]);
                assert(self.entries@.skip(i as int).drop_first() =~= self.entries@.skip(i + 1));
            }
            let e = &self.entries[i];
            if str_eq(e.0.as_str(), key) {
                return Some(&e.1);
            }
            i += 1;
        }
        proof {
            assert(self.entries@.skip(n as int) =~= Seq::<(String, ConfigValue)>::empty());
        }
        None
    }

    /// Every entry holding a plain string, in table order.
    pub fn string_entries(&self) -> (r: Vec<(String, String)>)
        ensures
            string_entries_views(r@) == string_entries_spec(self.entries@),
    {
        let mut out: Vec<(String, String)> = Vec::new();
        let n = self.entries.len();
        let mut i: usize = 0;
        while i < n
            invariant
                n == self.entries@.len(),
                i <= n,
                string_entries_views(out@) == string_entries_spec(
                    self.entries@.take(i as int),
                ),
            decreases n - i,
        {
            proof {
                assert(self.entries@.take(i + 1).drop_last() =~= self.entries@.take(i as int));
                assert(self.entries@.take(i + 1).last() == self.entries@[i as int]);
            }
            let e = &self.entries[i];
            match &e.1 {
                ConfigValue::Str(v) => {
                    let ghost before = out@;
                    out.push((e.0.clone(), v.clone()));
                    proof {
                        assert(out@.drop_last() =~= before);
                        assert(string_entries_views(out@) =~= string_entries_views(
                            before,
                        ).push((e.0@, v@)));
                    }
                },
                _ => {},
            }
            i += 1;
        }
        proof {
            assert(self.entries@.take(n as int) =~= self.entries@);
        }
        out
    }
}

/// Immutable per-session settings, owned by the orchestrator.
pub struct Config {
    /// Which front end to load.
    pub ui: String,
    /// Per-provider configuration tables, keyed by provider name.
    pub source: Vec<(String, ConfigTable)>,
    /// The enabled providers, in fan-out order.
    pub sources: Vec<String>,
    /// Prompt text the front end shows.
    pub prompt: String,
    /// The command that opens an interactive terminal.
    pub terminal: String,
    /// Cap on the number of results a search returns.
    pub maximum_list_item_count: usize,
    /// Whether the front end runs an empty search on startup.
    pub initial_search: bool,
}

/// First-match lookup of a provider's table by name.
pub open spec fn tables_get(s: Seq<(String, ConfigTable)>, name: Seq<char>) -> Option<ConfigTable>
    decreases s.len(),
{
    if s.len() == 0 {
        None
    } else if s.first().0@ == name {
        Some(s.first().1)
    } else {
        tables_get(s.drop_first(), name)
    }
}

impl Config {
    /// The configuration table of the provider named `name`, if any: the
    /// first entry wins.
    pub fn source_table<'a>(&'a self, name: &str) -> (r: Option<&'a ConfigTable>)
        ensures
            match r {
                Some(t) => tables_get(self.source@, name@) == Some(*t),
                None => tables_get(self.source@, name@) is None,
            },
    {
        let n = self.source.len();
        let mut i: usize = 0;
        proof {
            assert(self.source@.skip(0) =~= self.source@);
        }
        while i < n
            invariant
                n == self.source@.len(),
                i <= n,
                tables_get(self.source@, name@) == tables_get(self.source@.skip(i as int), name@),
            decreases n - i,
        {
            proof {
                assert(self.source@.skip(i as int).first() == self.source@[i as int]);
                assert(self.source@.skip(i as int).drop_first() =~= self.source@.skip(i + 1));
            }
            let e = &self.source[i];
            if str_eq(e.0.as_str(), name) {
                return Some(&e.1);
            }
            i += 1;
        }
        proof {
            assert(self.source@.skip(n as int) =~= Seq::<(String, ConfigTable)>::empty());
        }
        None
    }
}

} // verus!
