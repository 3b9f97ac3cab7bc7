//! Reconciling the shots of the current and baseline directories, and the
//! categorised result of a comparison pass.

use vstd::prelude::*;
use crate::image_diff::{exceeds, is_changed, DiffRatio, Threshold};
use crate::storage::{
    baseline_path, baseline_path_of, current_path, current_path_of, diff_path, diff_path_of,
};
use crate::manifest::opt_view;
use crate::text::same_text;
use vstd::string::*;

verus! {

/// `a` comes no later than `b` in the order of `String`'s `Ord`: UTF-8 bytes
/// compared lexicographically, which orders characters by code point.
pub open spec fn text_le(a: Seq<char>, b: Seq<char>) -> bool
    decreases a.len(),
{
    if a.len() == 0 {
        true
    } else if b.len() == 0 {
        false
    } else if a[0] != b[0] {
        (a[0] as u32) < (b[0] as u32)
    } else {
        text_le(a.drop_first(), b.drop_first())
    }
}

/// The views of a list of texts.
pub open spec fn views(s: Seq<String>) -> Seq<Seq<char>> {
    s.map_values(|x: String| x@)
}

/// The set of names in a list of texts.
pub open spec fn names_of(s: Seq<String>) -> Set<Seq<char>> {
    Set::new(|n: Seq<char>| views(s).contains(n))
}

/// The texts are in ascending order.
pub open spec fn sorted_texts(s: Seq<String>) -> bool {
    forall|i: int, j: int| 0 <= i < j < s.len() ==> text_le(s[i]@, s[j]@)
}

/// No text occurs twice.
pub open spec fn distinct_texts(s: Seq<String>) -> bool {
    forall|i: int, j: int| 0 <= i < s.len() && 0 <= j < s.len() && i != j ==> s[i]@ != s[j]@
}

/// Relies on `slice::sort` on `String`s: the result holds the same texts,
/// ascending in `String`'s `Ord` order.
#[verifier::external_body]
fn sort_texts(v: Vec<String>) -> (r: Vec<String>)
    ensures
        r@.to_multiset() == v@.to_multiset(),
        sorted_texts(r@),
{
    let mut v = v;
    v.sort();
    v
}

proof fn lemma_views_push(s: Seq<String>, x: String)
    ensures
        views(s.push(x)) == views(s).push(x@),
{
    assert(views(s.push(x)) =~= views(s).push(x@));
}

proof fn lemma_names_push(s: Seq<String>, x: String)
    ensures
        names_of(s.push(x)) == names_of(s).insert(x@),
{
    lemma_views_push(s, x);
    broadcast use vstd::seq_lib::lemma_seq_contains_after_push;
    assert(names_of(s.push(x)) =~= names_of(s).insert(x@));
}

proof fn lemma_names_same_multiset(a: Seq<String>, b: Seq<String>)
    requires
        a.to_multiset() == b.to_multiset(),
    ensures
        names_of(a) == names_of(b),
{
    a.to_multiset_ensures();
    b.to_multiset_ensures();
    assert forall|n: Seq<char>| names_of(a).contains(n) implies names_of(b).contains(n) by {
        let i = choose|i: int| 0 <= i < views(a).len() && views(a)[i] == n;
        let x = a[i];
        assert(a.contains(x));
        assert(a.to_multiset().count(x) > 0);
        assert(b.to_multiset().count(x) > 0);
        assert(b.contains(x));
        let j = choose|j: int| 0 <= j < b.len() && b[j] == x;
        assert(views(b)[j] == n);
    }
    assert forall|n: Seq<char>| names_of(b).contains(n) implies names_of(a).contains(n) by {
        let i = choose|i: int| 0 <= i < views(b).len() && views(b)[i] == n;
        let x = b[i];
        assert(b.contains(x));
        assert(b.to_multiset().count(x) > 0);
        assert(a.to_multiset().count(x) > 0);
        assert(a.contains(x));
        let j = choose|j: int| 0 <= j < a.len() && a[j] == x;
        assert(views(a)[j] == n);
    }
    assert(names_of(a) =~= names_of(b));
}

/// Whether `x` is one of the texts of `v`.
pub fn contains_text(v: &Vec<String>, x: &str) -> (r: bool)
    ensures
        r == names_of(v@).contains(x@),
{
    let mut i: usize = 0;
    while i < v.len()
        invariant
            i <= v@.len(),
            forall|j: int| 0 <= j < i ==> v@[j]@ != x@,
        decreases v@.len() - i,
    {
        if same_text(v[i].as_str(), x) {
            assert(views(v@)[i as int] == x@);
            return true;
        }
        i = i + 1;
    }
    assert(!views(v@).contains(x@)) by {
        if views(v@).contains(x@) {
            let j = choose|j: int| 0 <= j < views(v@).len() && views(v@)[j] == x@;
            assert(v@[j]@ == x@);
        }
    }
    false
}

/// Shot names split by where they occur.
#[derive(Debug, Clone)]
pub struct ShotSets {
    /// Only in the current directory.
    pub added: Vec<String>,
    /// Only in the baseline directory.
    pub removed: Vec<String>,
    /// In both.
    pub common: Vec<String>,
}

/// `r` splits the names of `current` and `baseline` into set differences and
/// intersection, each in ascending order without repeats.
pub open spec fn reconciled(current: Seq<String>, baseline: Seq<String>, r: ShotSets) -> bool {
    &&& names_of(r.added@) == names_of(current).difference(names_of(baseline))
    &&& names_of(r.removed@) == names_of(baseline).difference(names_of(current))
    &&& names_of(r.common@) == names_of(current).intersect(names_of(baseline))
    &&& sorted_texts(r.added@) && distinct_texts(r.added@)
    &&& sorted_texts(r.removed@) && distinct_texts(r.removed@)
    &&& sorted_texts(r.common@) && distinct_texts(r.common@)
}

/// Appends `x` to `out` unless it is there already, keeping `out` sorted given
/// that `x` is no smaller than anything in it.
fn push_new(out: &mut Vec<String>, x: &String)
    requires
        distinct_texts(old(out)@),
        sorted_texts(old(out)@),
        forall|k: int| 0 <= k < old(out)@.len() ==> text_le(old(out)@[k]@, x@),
    ensures
        distinct_texts(final(out)@),
        sorted_texts(final(out)@),
        names_of(final(out)@) == names_of(old(out)@).insert(x@),
        forall|k: int|
            0 <= k < final(out)@.len() ==> final(out)@[k] == x || exists|m: int|
                0 <= m < old(out)@.len() && old(out)@[m] == final(out)@[k],
{
    if !contains_text(out, x.as_str()) {
        let ghost before = out@;
        out.push(x.clone());
        proof {
            lemma_names_push(before, *x);
            assert forall|i: int, j: int|
                0 <= i < out@.len() && 0 <= j < out@.len() && i != j implies out@[i]@
                != out@[j]@ by {
                if i == before.len() as int {
                    assert(views(before)[j] == out@[j]@);
                } else if j == before.len() as int {
                    assert(views(before)[i] == out@[i]@);
                }
            }
            assert forall|k: int| 0 <= k < out@.len() implies out@[k] == *x || exists|m: int|
                0 <= m < before.len() && before[m] == out@[k] by {
                if k < before.len() {
                    assert(before[k] == out@[k]);
                }
            }
        }
    } else {
        proof {
            assert(names_of(out@).insert(x@) =~= names_of(out@));
            assert forall|k: int| 0 <= k < out@.len() implies out@[k] == *x || exists|m: int|
                0 <= m < out@.len() && out@[m] == out@[k] by {}
        }
    }
}

/// Splits the names found in the current and baseline directories into the
/// added ones (current only), removed ones (baseline only) and common ones,
/// each sorted by name.
pub fn reconcile(current: Vec<String>, baseline: Vec<String>) -> (r: ShotSets)
    ensures
        reconciled(current@, baseline@, r),
{
    let ghost cur0 = current@;
    let ghost base0 = baseline@;
    let cur = sort_texts(current);
    let base = sort_texts(baseline);
    proof {
        lemma_names_same_multiset(cur@, cur0);
        lemma_names_same_multiset(base@, base0);
    }
    let mut added: Vec<String> = Vec::new();
    let mut common: Vec<String> = Vec::new();
    let mut i: usize = 0;
    assert(names_of(cur@.subrange(0, 0)) =~= Set::<Seq<char>>::empty());
    assert(names_of(added@) =~= Set::<Seq<char>>::empty());
    assert(names_of(common@) =~= Set::<Seq<char>>::empty());
    while i < cur.len()
        invariant
            i <= cur@.len(),
            sorted_texts(cur@),
            names_of(added@) == names_of(cur@.subrange(0, i as int)).difference(names_of(base@)),
            names_of(common@) == names_of(cur@.subrange(0, i as int)).intersect(names_of(base@)),
            sorted_texts(added@) && distinct_texts(added@),
            sorted_texts(common@) && distinct_texts(common@),
            forall|k: int, j: int|
                0 <= k < added@.len() && i <= j < cur@.len() ==> text_le(added@[k]@, cur@[j]@),
            forall|k: int, j: int|
                0 <= k < common@.len() && i <= j < cur@.len() ==> text_le(common@[k]@, cur@[j]@),
        decreases cur@.len() - i,
    {
        let ghost pre = cur@.subrange(0, i as int);
        let ghost old_added = added@;
        let ghost old_common = common@;
        proof {
            assert(cur@.subrange(0, i as int + 1) =~= pre.push(cur@[i as int]));
            lemma_names_push(pre, cur@[i as int]);
        }
        if contains_text(&base, cur[i].as_str()) {
            push_new(&mut common, &cur[i]);
            assert(names_of(common@) =~= names_of(cur@.subrange(0, i as int + 1)).intersect(
                names_of(base@),
            ));
            assert(names_of(added@) =~= names_of(cur@.subrange(0, i as int + 1)).difference(
                names_of(base@),
            ));
        } else {
            push_new(&mut added, &cur[i]);
            assert(names_of(common@) =~= names_of(cur@.subrange(0, i as int + 1)).intersect(
                names_of(base@),
            ));
            assert(names_of(added@) =~= names_of(cur@.subrange(0, i as int + 1)).difference(
                names_of(base@),
            ));
        }
        proof {
            assert forall|k: int, j: int|
                0 <= k < added@.len() && i + 1 <= j < cur@.len() implies text_le(
                added@[k]@,
                cur@[j]@,
            ) by {
                if added@[k] != cur@[i as int] {
                    let m = choose|m: int| 0 <= m < old_added.len() && old_added[m] == added@[k];
                }
            }
            assert forall|k: int, j: int|
                0 <= k < common@.len() && i + 1 <= j < cur@.len() implies text_le(
                common@[k]@,
                cur@[j]@,
            ) by {
                if common@[k] != cur@[i as int] {
                    let m = choose|m: int| 0 <= m < old_common.len() && old_common[m] == common@[k];
                }
            }
        }
        i = i + 1;
    }
    assert(cur@.subrange(0, cur@.len() as int) =~= cur@);
    let mut removed: Vec<String> = Vec::new();
    let mut j: usize = 0;
    assert(names_of(base@.subrange(0, 0)) =~= Set::<Seq<char>>::empty());
    assert(names_of(removed@) =~= Set::<Seq<char>>::empty());
    while j < base.len()
        invariant
            j <= base@.len(),
            sorted_texts(base@),
            names_of(removed@) == names_of(base@.subrange(0, j as int)).difference(names_of(cur@)),
            sorted_texts(removed@) && distinct_texts(removed@),
            forall|k: int, m: int|
                0 <= k < removed@.len() && j <= m < base@.len() ==> text_le(
                    removed@[k]@,
                    base@[m]@,
                ),
        decreases base@.len() - j,
    {
        let ghost pre = base@.subrange(0, j as int);
        let ghost old_removed = removed@;
        proof {
            assert(base@.subrange(0, j as int + 1) =~= pre.push(base@[j as int]));
            lemma_names_push(pre, base@[j as int]);
        }
        if !contains_text(&cur, base[j].as_str()) {
            push_new(&mut removed, &base[j]);
        }
        assert(names_of(removed@) =~= names_of(base@.subrange(0, j as int + 1)).difference(
            names_of(cur@),
        ));
        proof {
            assert forall|k: int, m: int|
                0 <= k < removed@.len() && j + 1 <= m < base@.len() implies text_le(
                removed@[k]@,
                base@[m]@,
            ) by {
                if removed@[k] != base@[j as int] {
                    let q = choose|q: int|
                        0 <= q < old_removed.len() && old_removed[q] == removed@[k];
                }
            }
        }
        j = j + 1;
    }
    assert(base@.subrange(0, base@.len() as int) =~= base@);
    ShotSets { added, removed, common }
}

/// The position of the last `@` in a shot name, if any.
pub open spec fn last_at(s: Seq<char>) -> Option<int>
    decreases s.len(),
{
    if s.len() == 0 {
        None
    } else if s.last() == '@' {
        Some(s.len() - 1)
    } else {
        last_at(s.drop_last())
    }
}

/// The shot a name refers to: everything before the last `@`, or the whole name.
pub open spec fn shot_base(s: Seq<char>) -> Seq<char> {
    match last_at(s) {
        Some(i) => s.subrange(0, i),
        None => s,
    }
}

/// The viewport a name refers to: everything after the last `@`, if there is one.
pub open spec fn shot_viewport(s: Seq<char>) -> Option<Seq<char>> {
    match last_at(s) {
        Some(i) => Some(s.subrange(i + 1, s.len() as int)),
        None => None,
    }
}

/// Splits a multi-viewport shot name `shot@viewport` into `shot` and the
/// viewport; a name without `@` is the shot itself, with no viewport.
pub fn parse_shot_name(name: &str) -> (r: (String, Option<String>))
    ensures
        r.0@ == shot_base(name@),
        opt_view(r.1) == shot_viewport(name@),
{
    let n = name.unicode_len();
    let mut i: usize = n;
    assert(name@.subrange(0, n as int) =~= name@);
    while i > 0
        invariant
            n == name@.len(),
            i <= n,
            last_at(name@) == last_at(name@.subrange(0, i as int)),
        decreases i,
    {
        let ghost pre = name@.subrange(0, i as int);
        assert(pre.drop_last() =~= name@.subrange(0, i - 1));
        if name.get_char(i - 1) == '@' {
            assert(pre.last() == '@');
            let base = name.substring_char(0, i - 1);
            let viewport = name.substring_char(i, n);
            return (String::from_str(base), Some(String::from_str(viewport)));
        }
        i = i - 1;
    }
    assert(name@.subrange(0, 0) =~= Seq::<char>::empty());
    (String::from_str(name), None)
}

/// A shot whose images differ beyond the threshold.
#[derive(Debug, Clone)]
pub struct ChangedShot {
    /// Shot name, with its `@viewport` suffix if any.
    pub name: String,
    /// Baseline image, relative to the output directory.
    pub baseline_path: String,
    /// Current image, relative to the output directory.
    pub current_path: String,
    /// Diff image, relative to the output directory.
    pub diff_path: String,
    /// Share of differing pixels.
    pub ratio: DiffRatio,
    /// The viewport, for multi-viewport shot names.
    pub viewport: Option<String>,
}

/// The categorised result of a comparison pass.
#[derive(Debug, Clone)]
pub struct DiffResult {
    /// Shots within the threshold.
    pub unchanged: Vec<String>,
    /// Shots beyond the threshold.
    pub changed: Vec<ChangedShot>,
    /// Shots with no baseline.
    pub added: Vec<String>,
    /// Baselines with no current shot.
    pub removed: Vec<String>,
}

impl DiffResult {
    /// Whether anything changed, appeared or disappeared.
    pub fn has_changes(&self) -> (r: bool)
        ensures
            r == (self.changed@.len() > 0 || self.added@.len() > 0 || self.removed@.len() > 0),
    {
        self.changed.len() > 0 || self.added.len() > 0 || self.removed.len() > 0
    }
}

/// The names among the first `n` whose ratio is within the threshold.
pub open spec fn split_unchanged(
    names: Seq<Seq<char>>,
    ratios: Seq<DiffRatio>,
    t: Threshold,
    n: nat,
) -> Seq<Seq<char>>
    decreases n,
{
    if n == 0 {
        Seq::empty()
    } else {
        let prev = split_unchanged(names, ratios, t, (n - 1) as nat);
        if exceeds(ratios[n - 1], t) {
            prev
        } else {
            prev.push(names[n - 1])
        }
    }
}

/// The names among the first `n`, with their ratios, beyond the threshold.
pub open spec fn split_changed(
    names: Seq<Seq<char>>,
    ratios: Seq<DiffRatio>,
    t: Threshold,
    n: nat,
) -> Seq<(Seq<char>, DiffRatio)>
    decreases n,
{
    if n == 0 {
        Seq::empty()
    } else {
        let prev = split_changed(names, ratios, t, (n - 1) as nat);
        if exceeds(ratios[n - 1], t) {
            prev.push((names[n - 1], ratios[n - 1]))
        } else {
            prev
        }
    }
}

/// The name and ratio of a changed shot.
pub open spec fn changed_entry(c: ChangedShot) -> (Seq<char>, DiffRatio) {
    (c.name@, c.ratio)
}

/// The paths and viewport of a changed shot follow from its name.
pub open spec fn change_well_formed(c: ChangedShot) -> bool {
    &&& c.baseline_path@ == baseline_path_of(c.name@)
    &&& c.current_path@ == current_path_of(c.name@)
    &&& c.diff_path@ == diff_path_of(c.name@)
    &&& opt_view(c.viewport) == shot_viewport(c.name@)
}

/// `r` is what the measurements `ratios` (one per common shot) give at threshold `t`.
pub open spec fn built_from(sets: ShotSets, ratios: Seq<DiffRatio>, t: Threshold, r: DiffResult) -> bool {
    &&& r.added@ == sets.added@
    &&& r.removed@ == sets.removed@
    &&& views(r.unchanged@) == split_unchanged(
        views(sets.common@),
        ratios,
        t,
        sets.common@.len(),
    )
    &&& r.changed@.map_values(|c: ChangedShot| changed_entry(c)) == split_changed(
        views(sets.common@),
        ratios,
        t,
        sets.common@.len(),
    )
    &&& forall|k: int| 0 <= k < r.changed@.len() ==> change_well_formed(#[trigger] r.changed@[k])
}

/// The changed shots are in ascending order of name.
pub open spec fn changes_sorted(cs: Seq<ChangedShot>) -> bool {
    forall|i: int, j: int| 0 <= i < j < cs.len() ==> text_le(cs[i].name@, cs[j].name@)
}

/// Classifies each common shot by its measured ratio: beyond the threshold it
/// is changed (with its image paths and viewport), otherwise unchanged.
pub fn build_diff_result(sets: ShotSets, ratios: &Vec<DiffRatio>, t: Threshold) -> (r: DiffResult)
    requires
        ratios@.len() == sets.common@.len(),
    ensures
        built_from(sets, ratios@, t, r),
        sorted_texts(sets.common@) ==> sorted_texts(r.unchanged@) && changes_sorted(r.changed@),
{
    let ghost names = views(sets.common@);
    let ghost sorted = sorted_texts(sets.common@);
    let mut unchanged: Vec<String> = Vec::new();
    let mut changed: Vec<ChangedShot> = Vec::new();
    let mut i: usize = 0;
    while i < sets.common.len()
        invariant
            names == views(sets.common@),
            ratios@.len() == sets.common@.len(),
            i <= sets.common@.len(),
            views(unchanged@) == split_unchanged(names, ratios@, t, i as nat),
            changed@.map_values(|c: ChangedShot| changed_entry(c)) == split_changed(
                names,
                ratios@,
                t,
                i as nat,
            ),
            forall|k: int| 0 <= k < changed@.len() ==> change_well_formed(#[trigger] changed@[k]),
            sorted == sorted_texts(sets.common@),
            sorted ==> sorted_texts(unchanged@) && changes_sorted(changed@),
            sorted ==> forall|k: int, j: int|
                0 <= k < unchanged@.len() && i <= j < sets.common@.len() ==> text_le(
                    unchanged@[k]@,
                    sets.common@[j]@,
                ),
            sorted ==> forall|k: int, j: int|
                0 <= k < changed@.len() && i <= j < sets.common@.len() ==> text_le(
                    changed@[k].name@,
                    sets.common@[j]@,
                ),
        decreases sets.common@.len() - i,
    {
        let name = &sets.common[i];
        let ghost old_unchanged = unchanged@;
        let ghost old_changed = changed@;
        if is_changed(ratios[i], t) {
            let (_, viewport) = parse_shot_name(name.as_str());
            let shot = ChangedShot {
                name: name.clone(),
                baseline_path: baseline_path(name.as_str()),
                current_path: current_path(name.as_str()),
                diff_path: diff_path(name.as_str()),
                ratio: ratios[i],
                viewport,
            };
            let ghost before = changed@;
            changed.push(shot);
            assert(changed@.map_values(|c: ChangedShot| changed_entry(c)) =~= before.map_values(
                |c: ChangedShot| changed_entry(c),
            ).push((names[i as int], ratios@[i as int])));
        } else {
            let ghost before = unchanged@;
            unchanged.push(name.clone());
            assert(views(unchanged@) =~= views(before).push(names[i as int]));
        }
        proof {
            if sorted {
                assert forall|k: int, j: int|
                    0 <= k < unchanged@.len() && i + 1 <= j < sets.common@.len() implies text_le(
                    unchanged@[k]@,
                    sets.common@[j]@,
                ) by {
                    if k < old_unchanged.len() {
                        assert(unchanged@[k] == old_unchanged[k]);
                    }
                }
                assert forall|k: int, j: int|
                    0 <= k < changed@.len() && i + 1 <= j < sets.common@.len() implies text_le(
                    changed@[k].name@,
                    sets.common@[j]@,
                ) by {
                    if k < old_changed.len() {
                        assert(changed@[k] == old_changed[k]);
                    }
                }
                assert forall|a: int, b: int| 0 <= a < b < unchanged@.len() implies text_le(
                    unchanged@[a]@,
                    unchanged@[b]@,
                ) by {
                    if b < old_unchanged.len() {
                        assert(unchanged@[a] == old_unchanged[a]);
                        assert(unchanged@[b] == old_unchanged[b]);
                    } else {
                        assert(unchanged@[a] == old_unchanged[a]);
                    }
                }
                assert forall|a: int, b: int| 0 <= a < b < changed@.len() implies text_le(
                    changed@[a].name@,
                    changed@[b].name@,
                ) by {
                    if b < old_changed.len() {
                        assert(changed@[a] == old_changed[a]);
                        assert(changed@[b] == old_changed[b]);
                    } else {
                        assert(changed@[a] == old_changed[a]);
                    }
                }
            }
        }
        i = i + 1;
    }
    DiffResult { unchanged, changed, added: sets.added, removed: sets.removed }
}

/// The names of the changed shots of a result.
pub open spec fn changed_names(r: DiffResult) -> Set<Seq<char>> {
    Set::new(|n: Seq<char>| exists|k: int| 0 <= k < r.changed@.len() && r.changed@[k].name@ == n)
}

proof fn lemma_split(names: Seq<Seq<char>>, ratios: Seq<DiffRatio>, t: Threshold, n: nat)
    requires
        n <= names.len(),
        n <= ratios.len(),
        forall|i: int, j: int| 0 <= i < names.len() && 0 <= j < names.len() && i != j ==> names[i] != names[j],
    ensures
        forall|x: Seq<char>|
            (split_unchanged(names, ratios, t, n).contains(x) || exists|k: int|
                0 <= k < split_changed(names, ratios, t, n).len() && split_changed(names, ratios, t, n)[k].0
                    == x) <==> exists|i: int| 0 <= i < n && names[i] == x,
        forall|x: Seq<char>|
            !(split_unchanged(names, ratios, t, n).contains(x) && exists|k: int|
                0 <= k < split_changed(names, ratios, t, n).len() && split_changed(names, ratios, t, n)[k].0
                    == x),
    decreases n,
{
    if n > 0 {
        let m = (n - 1) as nat;
        lemma_split(names, ratios, t, m);
        let u0 = split_unchanged(names, ratios, t, m);
        let c0 = split_changed(names, ratios, t, m);
        let u = split_unchanged(names, ratios, t, n);
        let c = split_changed(names, ratios, t, n);
        let y = names[m as int];
        broadcast use vstd::seq_lib::lemma_seq_contains_after_push;
        assert forall|x: Seq<char>|
            (u.contains(x) || exists|k: int| 0 <= k < c.len() && c[k].0 == x) <==> exists|i: int|
                0 <= i < n && names[i] == x by {
            if exists|k: int| 0 <= k < c.len() && c[k].0 == x {
                let k = choose|k: int| 0 <= k < c.len() && c[k].0 == x;
                if k < c0.len() {
                    assert(c0[k] == c[k]);
                }
            }
            if exists|i: int| 0 <= i < n && names[i] == x {
                let i = choose|i: int| 0 <= i < n && names[i] == x;
                if i < m {
                    if !u0.contains(x) {
                        let k = choose|k: int| 0 <= k < c0.len() && c0[k].0 == x;
                        assert(c[k] == c0[k]);
                    }
                } else if exceeds(ratios[m as int], t) {
                    assert(c[c0.len() as int].0 == x);
                }
            }
            if exists|k: int| 0 <= k < c0.len() && c0[k].0 == x {
                let k = choose|k: int| 0 <= k < c0.len() && c0[k].0 == x;
                assert(c[k] == c0[k]);
            }
        }
        assert forall|x: Seq<char>|
            !(u.contains(x) && exists|k: int| 0 <= k < c.len() && c[k].0 == x) by {
            if u.contains(x) && exists|k: int| 0 <= k < c.len() && c[k].0 == x {
                let k = choose|k: int| 0 <= k < c.len() && c[k].0 == x;
                if x == y {
                    if k < c0.len() {
                        assert(c0[k] == c[k]);
                        assert(exists|kk: int| 0 <= kk < c0.len() && c0[kk].0 == x);
                        assert(u0.contains(x) || exists|kk: int| 0 <= kk < c0.len() && c0[kk].0 == x);
                        assert(exists|i: int| 0 <= i < m && names[i] == x);
                        let i = choose|i: int| 0 <= i < m && names[i] == x;
                        assert(names[i] == names[m as int]);
                    } else {
                        assert(!u0.contains(x)) by {
                            if u0.contains(x) {
                                let i = choose|i: int| 0 <= i < m && names[i] == x;
                                assert(names[i] == names[m as int]);
                            }
                        }
                    }
                } else {
                    if k < c0.len() {
                        assert(c0[k] == c[k]);
                    }
                }
            }
        }
    }
}

/// The four outputs of a comparison pass partition the shot names: unchanged
/// and changed together are exactly the names present in both directories,
/// added are the current-only names, removed the baseline-only ones, and no
/// name falls in two of the four.
pub proof fn lemma_partition(
    current: Seq<String>,
    baseline: Seq<String>,
    sets: ShotSets,
    ratios: Seq<DiffRatio>,
    t: Threshold,
    r: DiffResult,
)
    requires
        reconciled(current, baseline, sets),
        ratios.len() == sets.common@.len(),
        built_from(sets, ratios, t, r),
    ensures
        names_of(r.unchanged@).union(changed_names(r)) == names_of(current).intersect(
            names_of(baseline),
        ),
        names_of(r.added@) == names_of(current).difference(names_of(baseline)),
        names_of(r.removed@) == names_of(baseline).difference(names_of(current)),
        names_of(r.unchanged@).disjoint(changed_names(r)),
        names_of(r.unchanged@).disjoint(names_of(r.added@)),
        names_of(r.unchanged@).disjoint(names_of(r.removed@)),
        changed_names(r).disjoint(names_of(r.added@)),
        changed_names(r).disjoint(names_of(r.removed@)),
        names_of(r.added@).disjoint(names_of(r.removed@)),
{
    let names = views(sets.common@);
    let n = sets.common@.len();
    assert forall|i: int, j: int| 0 <= i < names.len() && 0 <= j < names.len() && i != j implies names[i] != names[j] by {
        assert(names[i] == sets.common@[i]@);
    }
    lemma_split(names, ratios, t, n);
    let cs = split_changed(names, ratios, t, n);
    assert forall|x: Seq<char>| changed_names(r).contains(x) <==> exists|k: int| 0 <= k < cs.len() && cs[k].0 == x by {
        if changed_names(r).contains(x) {
            let k = choose|k: int| 0 <= k < r.changed@.len() && r.changed@[k].name@ == x;
            assert(cs[k] == changed_entry(r.changed@[k]));
        }
        if exists|k: int| 0 <= k < cs.len() && cs[k].0 == x {
            let k = choose|k: int| 0 <= k < cs.len() && cs[k].0 == x;
            assert(cs[k] == changed_entry(r.changed@[k]));
        }
    }
    assert forall|x: Seq<char>| names_of(sets.common@).contains(x) <==> exists|i: int| 0 <= i < n && names[i] == x by {}
    let us = split_unchanged(names, ratios, t, n);
    assert forall|x: Seq<char>|
        names_of(r.unchanged@).union(changed_names(r)).contains(x) == names_of(
            sets.common@,
        ).contains(x) by {
        assert(names_of(r.unchanged@).contains(x) == us.contains(x));
        assert(names_of(sets.common@).contains(x) == exists|i: int| 0 <= i < n && names[i] == x);
        assert((us.contains(x) || exists|k: int| 0 <= k < cs.len() && cs[k].0 == x) <==> exists|
            i: int,
        | 0 <= i < n && names[i] == x);
    }
    assert(names_of(r.unchanged@).union(changed_names(r)) =~= names_of(sets.common@));
    assert forall|x: Seq<char>|
        !(names_of(r.unchanged@).contains(x) && changed_names(r).contains(x)) by {
        assert(names_of(r.unchanged@).contains(x) == us.contains(x));
        assert(!(us.contains(x) && exists|k: int| 0 <= k < cs.len() && cs[k].0 == x));
    }
    let cb = names_of(current).intersect(names_of(baseline));
    assert forall|x: Seq<char>| names_of(r.unchanged@).contains(x) implies cb.contains(x) by {
        assert(names_of(r.unchanged@).union(changed_names(r)).contains(x));
    }
    assert forall|x: Seq<char>| changed_names(r).contains(x) implies cb.contains(x) by {
        assert(names_of(r.unchanged@).union(changed_names(r)).contains(x));
    }
    assert forall|x: Seq<char>|
        !(names_of(r.unchanged@).contains(x) && names_of(r.added@).contains(x)) by {
        if names_of(r.unchanged@).contains(x) {
            assert(cb.contains(x));
        }
    }
    assert forall|x: Seq<char>|
        !(names_of(r.unchanged@).contains(x) && names_of(r.removed@).contains(x)) by {
        if names_of(r.unchanged@).contains(x) {
            assert(cb.contains(x));
        }
    }
    assert forall|x: Seq<char>| !(changed_names(r).contains(x) && names_of(r.added@).contains(x)) by {
        if changed_names(r).contains(x) {
            assert(cb.contains(x));
        }
    }
    assert forall|x: Seq<char>| !(changed_names(r).contains(x) && names_of(r.removed@).contains(x)) by {
        if changed_names(r).contains(x) {
            assert(cb.contains(x));
        }
    }
}

} // verus!
