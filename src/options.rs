//! Plugin options: a map from option name to a JSON-encoded value.
//!
//! The map is kept as an ordered list of entries; when a name occurs more than
//! once, the last entry is the one that counts.

use vstd::prelude::*;
use crate::text::{join3, same_text};

verus! {

/// What `serde_json` writes for a JSON string holding `s` (quotes and escapes).
pub uninterp spec fn json_quoted(s: Seq<char>) -> Seq<char>;

/// Relies on `serde_json::to_string` on a `str`: it writes `s` as a JSON
/// string literal. Serialising a `str` into memory cannot fail, so the error
/// arm is never taken.
#[verifier::external_body]
pub(crate) fn quote_json(s: &str) -> (r: String)
    ensures
        r@ == json_quoted(s@),
{
    match serde_json::to_string(s) {
        Ok(t) => t,
        Err(_) => String::new(),
    }
}

/// The value that the last entry named `k` carries, if any.
pub open spec fn value_of(s: Seq<(String, String)>, k: Seq<char>) -> Option<Seq<char>>
    decreases s.len(),
{
    if s.len() == 0 {
        None
    } else if s.last().0@ == k {
        Some(s.last().1@)
    } else {
        value_of(s.drop_last(), k)
    }
}

/// `{"k1":v1,"k2":v2,...}` over the entries, each value already JSON text.
pub open spec fn render_members(s: Seq<(String, String)>) -> Seq<char>
    decreases s.len(),
{
    if s.len() == 0 {
        Seq::empty()
    } else if s.len() == 1 {
        json_quoted(s[0].0@) + seq![':'] + s[0].1@
    } else {
        render_members(s.drop_last()) + seq![','] + json_quoted(s.last().0@) + seq![':'] + s.last().1@
    }
}

/// Options handed to a plugin: option names with JSON-encoded values.
#[derive(Debug, Clone)]
pub struct PluginOptions {
    /// The entries, in order; a later entry overrides an earlier one of the same name.
    pub entries: Vec<(String, String)>,
}

impl PluginOptions {
    /// The value stored under `k`, if any.
    pub open spec fn value(&self, k: Seq<char>) -> Option<Seq<char>> {
        value_of(self.entries@, k)
    }

    /// The options as a map from name to JSON text.
    pub open spec fn as_map(&self) -> Map<Seq<char>, Seq<char>> {
        Map::new(|k: Seq<char>| self.value(k) is Some, |k: Seq<char>| self.value(k)->Some_0)
    }

    /// No options.
    pub fn new() -> (r: Self)
        ensures
            r.entries@.len() == 0,
            r.as_map() == Map::<Seq<char>, Seq<char>>::empty(),
    {
        let r = PluginOptions { entries: Vec::new() };
        assert(r.as_map() =~= Map::<Seq<char>, Seq<char>>::empty());
        r
    }

    /// The JSON text stored under `key`, if any.
    pub fn get(&self, key: &str) -> (r: Option<&String>)
        ensures
            match r {
                Some(v) => self.value(key@) == Some(v@),
                None => self.value(key@) is None,
            },
    {
        let mut i: usize = self.entries.len();
        assert(self.entries@.subrange(0, i as int) =~= self.entries@);
        while i > 0
            invariant
                i <= self.entries@.len(),
                self.value(key@) == value_of(self.entries@.subrange(0, i as int), key@),
            decreases i,
        {
            let ghost pre = self.entries@.subrange(0, i as int);
            assert(pre.drop_last() =~= self.entries@.subrange(0, i - 1));
            if same_text(self.entries[i - 1].0.as_str(), key) {
                return Some(&self.entries[i - 1].1);
            }
            i = i - 1;
        }
        None
    }

    /// Whether some value is stored under `key`.
    pub fn contains_key(&self, key: &str) -> (r: bool)
        ensures
            r == (self.value(key@) is Some),
    {
        self.get(key).is_some()
    }

    /// Stores `value` (JSON text) under `key`, replacing what was there.
    pub fn insert(&mut self, key: String, value: String)
        ensures
            forall|k: Seq<char>|
                #![auto]
                final(self).value(k) == if k == key@ {
                    Some(value@)
                } else {
                    old(self).value(k)
                },
    {
        let ghost before = self.entries@;
        self.entries.push((key, value));
        assert(self.entries@.drop_last() =~= before);
    }

    /// The options as a JSON object text.
    pub fn to_json(&self) -> (r: String)
        ensures
            r@ == seq!['{'] + render_members(self.entries@) + seq!['}'],
    {
        let mut body = String::new();
        let mut i: usize = 0;
        while i < self.entries.len()
            invariant
                i <= self.entries@.len(),
                body@ == render_members(self.entries@.subrange(0, i as int)),
            decreases self.entries@.len() - i,
        {
            let ghost pre = self.entries@.subrange(0, i as int + 1);
            assert(pre.drop_last() =~= self.entries@.subrange(0, i as int));
            let member = join3(quote_json(self.entries[i].0.as_str()).as_str(), ":", self.entries[i].1.as_str());
            proof {
                reveal_strlit(":");
                reveal_strlit(",");
            }
            if i == 0 {
                body = member;
            } else {
                body = join3(body.as_str(), ",", member.as_str());
            }
            i = i + 1;
        }
        assert(self.entries@.subrange(0, self.entries@.len() as int) =~= self.entries@);
        proof {
            reveal_strlit("{");
            reveal_strlit("}");
        }
        join3("{", body.as_str(), "}")
    }
}

/// A plugin as listed in the configuration: a bare name, or a name with inline options.
#[derive(Debug, Clone)]
pub enum PluginEntry {
    /// Just the plugin's package name.
    Name(String),
    /// A package name with options given next to it.
    WithOptions {
        /// The plugin's package name.
        name: String,
        /// Inline options.
        options: PluginOptions,
    },
}

impl PluginEntry {
    /// The package name of the entry.
    pub open spec fn name_view(&self) -> Seq<char> {
        match self {
            PluginEntry::Name(n) => n@,
            PluginEntry::WithOptions { name, .. } => name@,
        }
    }

    /// The inline options as a map (empty for a bare name).
    pub open spec fn inline_map(&self) -> Map<Seq<char>, Seq<char>> {
        match self {
            PluginEntry::Name(_) => Map::empty(),
            PluginEntry::WithOptions { options, .. } => options.as_map(),
        }
    }

    /// The package name of the entry, whatever its form.
    pub fn name(&self) -> (r: &str)
        ensures
            r@ == self.name_view(),
    {
        match self {
            PluginEntry::Name(n) => n.as_str(),
            PluginEntry::WithOptions { name, .. } => name.as_str(),
        }
    }

    /// The inline options, if the entry has any.
    pub fn options(&self) -> (r: Option<&PluginOptions>)
        ensures
            match self {
                PluginEntry::Name(_) => r is None,
                PluginEntry::WithOptions { options, .. } => r == Some(options),
            },
    {
        match self {
            PluginEntry::Name(_) => None,
            PluginEntry::WithOptions { options, .. } => Some(options),
        }
    }
}

/// The map of `o`, or the empty map.
pub open spec fn map_or_empty(o: Option<&PluginOptions>) -> Map<Seq<char>, Seq<char>> {
    match o {
        Some(p) => p.as_map(),
        None => Map::empty(),
    }
}

/// Merges the inline options of `entry` with the options configured globally
/// for that plugin: every name of either source is kept, and where both give
/// a value the global one wins.
pub fn merge_options(entry: &PluginEntry, global: Option<&PluginOptions>) -> (r: PluginOptions)
    ensures
        r.as_map() == entry.inline_map().union_prefer_right(map_or_empty(global)),
{
    let empty = PluginOptions::new();
    let inline: &PluginOptions = match entry.options() {
        Some(o) => o,
        None => &empty,
    };
    let glob: &PluginOptions = match global {
        Some(g) => g,
        None => &empty,
    };
    assert(inline.as_map() =~= entry.inline_map());
    assert(glob.as_map() =~= map_or_empty(global));
    let ghost inl = inline.entries@;
    let ghost gl = glob.entries@;
    let mut out: Vec<(String, String)> = Vec::new();
    let mut i: usize = 0;
    while i < inline.entries.len()
        invariant
            inl == inline.entries@,
            gl == glob.entries@,
            i <= inl.len(),
            forall|k: Seq<char>|
                #![auto]
                value_of(out@, k) == if value_of(gl, k) is Some {
                    None
                } else {
                    value_of(inl.subrange(0, i as int), k)
                },
        decreases inl.len() - i,
    {
        let ghost before = out@;
        let present = glob.contains_key(inline.entries[i].0.as_str());
        if !present {
            out.push((inline.entries[i].0.clone(), inline.entries[i].1.clone()));
        }
        proof {
            let s1 = inl.subrange(0, i as int + 1);
            assert(s1.drop_last() =~= inl.subrange(0, i as int));
            assert(s1.last() == inl[i as int]);
            if !present {
                assert(out@.drop_last() =~= before);
            }
            assert forall|k: Seq<char>|
                #![auto]
                value_of(out@, k) == (if value_of(gl, k) is Some {
                    None
                } else {
                    value_of(s1, k)
                }) by {
                assert(value_of(s1, k) == if s1.last().0@ == k {
                    Some(s1.last().1@)
                } else {
                    value_of(s1.drop_last(), k)
                });
                if !present {
                    assert(value_of(out@, k) == if out@.last().0@ == k {
                        Some(out@.last().1@)
                    } else {
                        value_of(out@.drop_last(), k)
                    });
                }
            }
        }
        i = i + 1;
    }
    assert(inl.subrange(0, inl.len() as int) =~= inl);
    let mut j: usize = 0;
    while j < glob.entries.len()
        invariant
            inl == inline.entries@,
            gl == glob.entries@,
            j <= gl.len(),
            forall|k: Seq<char>|
                #![auto]
                value_of(out@, k) == match value_of(gl.subrange(0, j as int), k) {
                    Some(v) => Some(v),
                    None => if value_of(gl, k) is Some {
                        None
                    } else {
                        value_of(inl, k)
                    },
                },
        decreases gl.len() - j,
    {
        let ghost before = out@;
        out.push((glob.entries[j].0.clone(), glob.entries[j].1.clone()));
        proof {
            let s1 = gl.subrange(0, j as int + 1);
            assert(s1.drop_last() =~= gl.subrange(0, j as int));
            assert(s1.last() == gl[j as int]);
            assert(out@.drop_last() =~= before);
            assert forall|k: Seq<char>|
                #![auto]
                value_of(out@, k) == match value_of(s1, k) {
                    Some(v) => Some(v),
                    None => if value_of(gl, k) is Some {
                        None
                    } else {
                        value_of(inl, k)
                    },
                } by {
                assert(value_of(s1, k) == if s1.last().0@ == k {
                    Some(s1.last().1@)
                } else {
                    value_of(s1.drop_last(), k)
                });
                assert(value_of(out@, k) == if out@.last().0@ == k {
                    Some(out@.last().1@)
                } else {
                    value_of(out@.drop_last(), k)
                });
            }
        }
        j = j + 1;
    }
    assert(gl.subrange(0, gl.len() as int) =~= gl);
    let r = PluginOptions { entries: out };
    assert(r.as_map() =~= inline.as_map().union_prefer_right(glob.as_map()));
    r
}

} // verus!
