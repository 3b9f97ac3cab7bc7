//! The registry of loaded plugins, by category and by name.

use vstd::prelude::*;
use crate::category::PluginCategory;
use crate::manifest::{LoadedPlugin, PluginInfo};
use crate::text::same_text;

verus! {

/// The registry as plain values.
pub struct RegistryView {
    /// Active storage plugin.
    pub storage: Option<PluginInfo>,
    /// Active capture plugin.
    pub capture: Option<PluginInfo>,
    /// Active differ plugin.
    pub differ: Option<PluginInfo>,
    /// Every registered notifier, in registration order.
    pub notifiers: Seq<PluginInfo>,
    /// Every registered reporter, in registration order.
    pub reporters: Seq<PluginInfo>,
    /// Every registered plugin by name (the last one registered under a name).
    pub names: Map<Seq<char>, PluginInfo>,
}

impl RegistryView {
    /// A registry with nothing in it.
    pub open spec fn empty() -> Self {
        RegistryView {
            storage: None,
            capture: None,
            differ: None,
            notifiers: Seq::empty(),
            reporters: Seq::empty(),
            names: Map::empty(),
        }
    }

    /// The registry after registering `p`: stackable categories append, the
    /// others replace their active plugin; the name index always records `p`.
    pub open spec fn register(self, p: PluginInfo) -> Self {
        let names = self.names.insert(p.name, p);
        match p.category {
            PluginCategory::Notifier => RegistryView {
                notifiers: self.notifiers.push(p),
                names,
                ..self
            },
            PluginCategory::Reporter => RegistryView {
                reporters: self.reporters.push(p),
                names,
                ..self
            },
            PluginCategory::Storage => RegistryView { storage: Some(p), names, ..self },
            PluginCategory::Capture => RegistryView { capture: Some(p), names, ..self },
            PluginCategory::Differ => RegistryView { differ: Some(p), names, ..self },
        }
    }

    /// Registering each plugin of `ps` in order.
    pub open spec fn register_all(self, ps: Seq<PluginInfo>) -> Self
        decreases ps.len(),
    {
        if ps.len() == 0 {
            self
        } else {
            self.register_all(ps.drop_last()).register(ps.last())
        }
    }

    /// The active plugin of a single-winner category; none for stackable ones.
    pub open spec fn get(self, c: PluginCategory) -> Option<PluginInfo> {
        match c {
            PluginCategory::Storage => self.storage,
            PluginCategory::Capture => self.capture,
            PluginCategory::Differ => self.differ,
            _ => None,
        }
    }

    /// Whether some plugin is active for `c`.
    pub open spec fn overrides(self, c: PluginCategory) -> bool {
        match c {
            PluginCategory::Notifier => self.notifiers.len() > 0,
            PluginCategory::Reporter => self.reporters.len() > 0,
            _ => self.get(c) is Some,
        }
    }
}

/// The last plugin of `s` named `n`.
pub open spec fn lookup(s: Seq<LoadedPlugin>, n: Seq<char>) -> Option<LoadedPlugin>
    decreases s.len(),
{
    if s.len() == 0 {
        None
    } else if s.last().name_view() == n {
        Some(s.last())
    } else {
        lookup(s.drop_last(), n)
    }
}

/// No two plugins of `s` share a name.
pub open spec fn names_unique(s: Seq<LoadedPlugin>) -> bool {
    forall|i: int, j: int|
        0 <= i < s.len() && 0 <= j < s.len() && i != j ==> s[i].name_view() != s[j].name_view()
}

/// The view of an optional plugin.
pub open spec fn opt_info(o: Option<LoadedPlugin>) -> Option<PluginInfo> {
    match o {
        Some(p) => Some(p@),
        None => None,
    }
}

/// The view of an optional borrowed plugin.
pub open spec fn opt_ref_info(o: Option<&LoadedPlugin>) -> Option<PluginInfo> {
    match o {
        Some(p) => Some(p@),
        None => None,
    }
}

/// The views of a list of borrowed plugins.
pub open spec fn ref_infos(s: Seq<&LoadedPlugin>) -> Seq<PluginInfo> {
    s.map_values(|p: &LoadedPlugin| p@)
}

/// The active single-winner plugins: storage, capture, differ, where present.
pub open spec fn active_singles(v: RegistryView) -> Seq<PluginInfo> {
    (match v.storage {
        Some(p) => seq![p],
        None => Seq::empty(),
    }) + (match v.capture {
        Some(p) => seq![p],
        None => Seq::empty(),
    }) + (match v.differ {
        Some(p) => seq![p],
        None => Seq::empty(),
    })
}

/// The views of a list of plugins.
pub open spec fn infos(s: Seq<LoadedPlugin>) -> Seq<PluginInfo> {
    s.map_values(|p: LoadedPlugin| p@)
}

proof fn lemma_lookup_absent(s: Seq<LoadedPlugin>, n: Seq<char>)
    ensures
        (lookup(s, n) is None) == (forall|i: int| 0 <= i < s.len() ==> s[i].name_view() != n),
        lookup(s, n) matches Some(p) ==> p.name_view() == n,
    decreases s.len(),
{
    if s.len() > 0 {
        lemma_lookup_absent(s.drop_last(), n);
        if lookup(s, n) is None {
            assert forall|i: int| 0 <= i < s.len() implies s[i].name_view() != n by {
                if i < s.len() - 1 {
                    assert(s.drop_last()[i] == s[i]);
                }
            }
        } else if s.last().name_view() != n {
            let i = choose|i: int| 0 <= i < s.drop_last().len() && s.drop_last()[i].name_view() == n;
            assert(s[i] == s.drop_last()[i]);
        }
    }
}

proof fn lemma_lookup_update(s: Seq<LoadedPlugin>, i: int, p: LoadedPlugin, n: Seq<char>)
    requires
        names_unique(s),
        0 <= i < s.len(),
        s[i].name_view() == p.name_view(),
    ensures
        lookup(s.update(i, p), n) == if n == p.name_view() {
            Some(p)
        } else {
            lookup(s, n)
        },
    decreases s.len(),
{
    let t = s.update(i, p);
    if i == s.len() - 1 {
        assert(t.drop_last() =~= s.drop_last());
    } else {
        assert(t.drop_last() =~= s.drop_last().update(i, p));
        assert(s.last().name_view() != p.name_view());
        lemma_lookup_update(s.drop_last(), i, p, n);
    }
}

/// Loaded plugins, indexed by category and by name.
pub struct PluginRegistry {
    storage: Option<LoadedPlugin>,
    capture: Option<LoadedPlugin>,
    differ: Option<LoadedPlugin>,
    notifiers: Vec<LoadedPlugin>,
    reporters: Vec<LoadedPlugin>,
    by_name: Vec<LoadedPlugin>,
}

impl View for PluginRegistry {
    type V = RegistryView;

    closed spec fn view(&self) -> RegistryView {
        RegistryView {
            storage: opt_info(self.storage),
            capture: opt_info(self.capture),
            differ: opt_info(self.differ),
            notifiers: infos(self.notifiers@),
            reporters: infos(self.reporters@),
            names: Map::new(
                |n: Seq<char>| lookup(self.by_name@, n) is Some,
                |n: Seq<char>| lookup(self.by_name@, n)->Some_0@,
            ),
        }
    }
}

impl PluginRegistry {
    /// The name index holds each name once.
    pub closed spec fn wf(&self) -> bool {
        names_unique(self.by_name@)
    }

    /// The number of distinct names registered.
    pub closed spec fn count(&self) -> nat {
        self.by_name@.len()
    }

    /// An empty registry.
    pub fn new() -> (r: Self)
        ensures
            r.wf(),
            r@ == RegistryView::empty(),
            r.count() == 0,
    {
        let r = PluginRegistry {
            storage: None,
            capture: None,
            differ: None,
            notifiers: Vec::new(),
            reporters: Vec::new(),
            by_name: Vec::new(),
        };
        assert(r@.notifiers =~= Seq::<PluginInfo>::empty());
        assert(r@.reporters =~= Seq::<PluginInfo>::empty());
        assert(r@.names =~= Map::<Seq<char>, PluginInfo>::empty());
        r
    }

    /// Records a plugin. Notifiers and reporters accumulate; storage, capture
    /// and differ keep only the latest. The name index always takes the plugin,
    /// replacing an earlier one of the same name.
    pub fn register(&mut self, plugin: LoadedPlugin)
        requires
            old(self).wf(),
        ensures
            final(self).wf(),
            final(self)@ == old(self)@.register(plugin@),
            final(self).count() == old(self).count() + if old(self)@.names.contains_key(
                plugin@.name,
            ) {
                0int
            } else {
                1int
            },
    {
        let ghost before = *self;
        let copy = plugin.copy();
        match plugin.category() {
            PluginCategory::Notifier => self.notifiers.push(copy),
            PluginCategory::Reporter => self.reporters.push(copy),
            PluginCategory::Storage => self.storage = Some(copy),
            PluginCategory::Capture => self.capture = Some(copy),
            PluginCategory::Differ => self.differ = Some(copy),
        }
        let ghost mid = *self;
        assert(infos(mid.notifiers@) =~= if plugin@.category == PluginCategory::Notifier {
            infos(before.notifiers@).push(plugin@)
        } else {
            infos(before.notifiers@)
        });
        assert(infos(mid.reporters@) =~= if plugin@.category == PluginCategory::Reporter {
            infos(before.reporters@).push(plugin@)
        } else {
            infos(before.reporters@)
        });
        let mut i: usize = 0;
        let mut found = false;
        let count = self.by_name.len();
        while i < count && !found
            invariant
                self.by_name@ == before.by_name@,
                count == self.by_name@.len(),
                i <= count,
                found ==> i < count && self.by_name@[i as int].name_view() == plugin@.name,
                forall|j: int| 0 <= j < i ==> self.by_name@[j].name_view() != plugin@.name,
            decreases count - i + if found {
                0int
            } else {
                1int
            },
        {
            if same_text(self.by_name[i].name(), plugin.name()) {
                found = true;
            } else {
                i = i + 1;
            }
        }
        proof {
            lemma_lookup_absent(before.by_name@, plugin@.name);
        }
        if found {
            let ghost s = self.by_name@;
            self.by_name.set(i, plugin);
            proof {
                assert forall|n: Seq<char>|
                    #![auto]
                    lookup(self.by_name@, n) == if n == plugin@.name {
                        Some(plugin)
                    } else {
                        lookup(s, n)
                    } by {
                    lemma_lookup_update(s, i as int, plugin, n);
                }
                assert(names_unique(self.by_name@)) by {
                    assert forall|a: int, b: int|
                        0 <= a < self.by_name@.len() && 0 <= b < self.by_name@.len() && a != b
                            implies self.by_name@[a].name_view() != self.by_name@[b].name_view() by {
                        assert(self.by_name@[a].name_view() == s[a].name_view());
                        assert(self.by_name@[b].name_view() == s[b].name_view());
                    }
                }
            }
        } else {
            let ghost s = self.by_name@;
            self.by_name.push(plugin);
            proof {
                assert(self.by_name@.drop_last() =~= s);
                assert forall|n: Seq<char>|
                    #![auto]
                    lookup(self.by_name@, n) == if n == plugin@.name {
                        Some(plugin)
                    } else {
                        lookup(s, n)
                    } by {}
            }
        }
        assert(self@.names =~= before@.names.insert(plugin@.name, plugin@));
    }

    /// The active plugin of a single-winner category; none for stackable ones.
    pub fn get(&self, category: PluginCategory) -> (r: Option<&LoadedPlugin>)
        ensures
            opt_ref_info(r) == self@.get(category),
    {
        match category {
            PluginCategory::Storage => self.storage.as_ref(),
            PluginCategory::Capture => self.capture.as_ref(),
            PluginCategory::Differ => self.differ.as_ref(),
            _ => None,
        }
    }

    /// The plugin registered under `name`, if any.
    pub fn get_by_name(&self, name: &str) -> (r: Option<&LoadedPlugin>)
        requires
            self.wf(),
        ensures
            match r {
                Some(p) => self@.names.contains_key(name@) && self@.names[name@] == p@,
                None => !self@.names.contains_key(name@),
            },
    {
        proof {
            lemma_lookup_absent(self.by_name@, name@);
        }
        let mut i: usize = 0;
        while i < self.by_name.len()
            invariant
                i <= self.by_name@.len(),
                names_unique(self.by_name@),
                forall|j: int| 0 <= j < i ==> self.by_name@[j].name_view() != name@,
            decreases self.by_name@.len() - i,
        {
            if same_text(self.by_name[i].name(), name) {
                proof {
                    let s = self.by_name@;
                    assert forall|j: int| i < j < s.len() implies s[j].name_view() != name@ by {}
                    lemma_lookup_unique(s, i as int);
                }
                return Some(&self.by_name[i]);
            }
            i = i + 1;
        }
        None
    }

    /// Every registered notifier, in registration order.
    pub fn notifiers(&self) -> (r: &[LoadedPlugin])
        ensures
            infos(r@) == self@.notifiers,
    {
        self.notifiers.as_slice()
    }

    /// Every registered reporter, in registration order.
    pub fn reporters(&self) -> (r: &[LoadedPlugin])
        ensures
            infos(r@) == self@.reporters,
    {
        self.reporters.as_slice()
    }

    /// Whether some plugin is active for `category`.
    pub fn has_override(&self, category: PluginCategory) -> (r: bool)
        ensures
            r == self@.overrides(category),
    {
        match category {
            PluginCategory::Notifier => self.notifiers.len() > 0,
            PluginCategory::Reporter => self.reporters.len() > 0,
            _ => self.get(category).is_some(),
        }
    }

    /// Each registered name is counted once.
    pub proof fn lemma_count_is_names(&self)
        requires
            self.wf(),
        ensures
            self.count() == self@.names.dom().len(),
    {
        let s = self.by_name@;
        let ns = s.map_values(|p: LoadedPlugin| p.name_view());
        assert(ns.no_duplicates()) by {
            assert forall|i: int, j: int| 0 <= i < ns.len() && 0 <= j < ns.len() && i != j implies ns[i] != ns[j] by {
                assert(ns[i] == s[i].name_view());
                assert(ns[j] == s[j].name_view());
            }
        }
        ns.unique_seq_to_set();
        assert forall|n: Seq<char>| self@.names.dom().contains(n) <==> ns.to_set().contains(n) by {
            lemma_lookup_absent(s, n);
            if ns.contains(n) {
                let i = choose|i: int| 0 <= i < ns.len() && ns[i] == n;
                assert(s[i].name_view() == n);
            }
            if lookup(s, n) is Some {
                let i = choose|i: int| 0 <= i < s.len() && s[i].name_view() == n;
                assert(ns[i] == n);
            }
        }
        assert(self@.names.dom() =~= ns.to_set());
    }

    /// The number of distinct plugin names registered.
    pub fn len(&self) -> (r: usize)
        ensures
            r == self.count(),
            self.wf() ==> r == self@.names.dom().len(),
    {
        proof {
            if self.wf() {
                self.lemma_count_is_names();
            }
        }
        self.by_name.len()
    }

    /// Whether nothing is registered.
    pub fn is_empty(&self) -> (r: bool)
        ensures
            r == (self.count() == 0),
    {
        self.by_name.len() == 0
    }

    /// The registered names, in the order they were first registered.
    pub fn plugin_names(&self) -> (r: Vec<&str>)
        ensures
            r@.len() == self.count(),
            forall|i: int| 0 <= i < r@.len() ==> self@.names.contains_key(#[trigger] r@[i]@),
            self.wf() ==> forall|i: int, j: int|
                0 <= i < r@.len() && 0 <= j < r@.len() && i != j ==> r@[i]@ != r@[j]@,
    {
        let mut out: Vec<&str> = Vec::new();
        let mut i: usize = 0;
        while i < self.by_name.len()
            invariant
                i <= self.by_name@.len(),
                out@.len() == i,
                forall|j: int| 0 <= j < i ==> out@[j]@ == self.by_name@[j].name_view(),
            decreases self.by_name@.len() - i,
        {
            out.push(self.by_name[i].name());
            i = i + 1;
        }
        proof {
            assert forall|j: int| 0 <= j < out@.len() implies self@.names.contains_key(
                #[trigger] out@[j]@,
            ) by {
                lemma_lookup_absent(self.by_name@, out@[j]@);
            }
        }
        out
    }

    /// The active single-winner plugins, then every notifier, then every reporter.
    pub fn all_active(&self) -> (r: Vec<&LoadedPlugin>)
        ensures
            ref_infos(r@) == active_singles(self@) + self@.notifiers + self@.reporters,
    {
        let mut out: Vec<&LoadedPlugin> = Vec::new();
        if let Some(p) = &self.storage {
            out.push(p);
        }
        if let Some(p) = &self.capture {
            out.push(p);
        }
        if let Some(p) = &self.differ {
            out.push(p);
        }
        assert(ref_infos(out@) =~= active_singles(self@));
        let ghost base = ref_infos(out@);
        let mut i: usize = 0;
        while i < self.notifiers.len()
            invariant
                i <= self.notifiers@.len(),
                ref_infos(out@) == base + infos(self.notifiers@.subrange(0, i as int)),
            decreases self.notifiers@.len() - i,
        {
            let ghost before = out@;
            out.push(&self.notifiers[i]);
            assert(ref_infos(out@) =~= ref_infos(before).push(self.notifiers@[i as int]@));
            assert(infos(self.notifiers@.subrange(0, i + 1)) =~= infos(
                self.notifiers@.subrange(0, i as int),
            ).push(self.notifiers@[i as int]@));
            assert(ref_infos(out@) =~= base + infos(self.notifiers@.subrange(0, i + 1)));
            i = i + 1;
        }
        assert(self.notifiers@.subrange(0, self.notifiers@.len() as int) =~= self.notifiers@);
        let ghost mid = ref_infos(out@);
        let mut j: usize = 0;
        while j < self.reporters.len()
            invariant
                j <= self.reporters@.len(),
                ref_infos(out@) == mid + infos(self.reporters@.subrange(0, j as int)),
            decreases self.reporters@.len() - j,
        {
            let ghost before = out@;
            out.push(&self.reporters[j]);
            assert(ref_infos(out@) =~= ref_infos(before).push(self.reporters@[j as int]@));
            assert(infos(self.reporters@.subrange(0, j + 1)) =~= infos(
                self.reporters@.subrange(0, j as int),
            ).push(self.reporters@[j as int]@));
            assert(ref_infos(out@) =~= mid + infos(self.reporters@.subrange(0, j + 1)));
            j = j + 1;
        }
        assert(self.reporters@.subrange(0, self.reporters@.len() as int) =~= self.reporters@);
        out
    }
}

proof fn lemma_register_all_stack(r: RegistryView, ps: Seq<PluginInfo>, c: PluginCategory)
    requires
        c.stacks(),
        forall|i: int| 0 <= i < ps.len() ==> #[trigger] ps[i].category == c,
    ensures
        r.register_all(ps).notifiers.len() == r.notifiers.len() + if c
            == PluginCategory::Notifier {
            ps.len() as int
        } else {
            0
        },
        r.register_all(ps).reporters.len() == r.reporters.len() + if c
            == PluginCategory::Reporter {
            ps.len() as int
        } else {
            0
        },
    decreases ps.len(),
{
    if ps.len() > 0 {
        assert(ps.last() == ps[ps.len() - 1]);
        assert forall|i: int| 0 <= i < ps.drop_last().len() implies #[trigger] ps.drop_last()[i].category == c by {
            assert(ps.drop_last()[i] == ps[i]);
        }
        lemma_register_all_stack(r, ps.drop_last(), c);
    }
}

/// Registering N plugins of a stackable category into an empty registry
/// yields N plugins in that category's list, and `get` still gives none for it.
pub proof fn lemma_stackable_all_kept(ps: Seq<PluginInfo>, c: PluginCategory)
    requires
        c.stacks(),
        forall|i: int| 0 <= i < ps.len() ==> #[trigger] ps[i].category == c,
    ensures
        c == PluginCategory::Notifier ==> RegistryView::empty().register_all(ps).notifiers.len()
            == ps.len(),
        c == PluginCategory::Reporter ==> RegistryView::empty().register_all(ps).reporters.len()
            == ps.len(),
        RegistryView::empty().register_all(ps).get(c) is None,
{
    lemma_register_all_stack(RegistryView::empty(), ps, c);
}

proof fn lemma_lookup_unique(s: Seq<LoadedPlugin>, i: int)
    requires
        0 <= i < s.len(),
        forall|j: int| i < j < s.len() ==> s[j].name_view() != s[i].name_view(),
    ensures
        lookup(s, s[i].name_view()) == Some(s[i]),
    decreases s.len(),
{
    if i < s.len() - 1 {
        assert(s.drop_last()[i] == s[i]);
        lemma_lookup_unique(s.drop_last(), i);
    }
}

} // verus!
