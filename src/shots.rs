//! Selecting and merging shots: name patterns, overrides, and update filters.

use vstd::prelude::*;
use crate::config::Shot;
use crate::text::{copy_opt_text, is_prefix, join2, join3, same_text, starts_with};
use vstd::string::*;

verus! {

/// Whether `regex` compiled as a regular expression matches somewhere in
/// `text`; none when `regex` does not compile.
pub uninterp spec fn regex_outcome(regex: Seq<char>, text: Seq<char>) -> Option<bool>;

/// Relies on `regex::Regex::new` and `Regex::is_match`: whether the compiled
/// expression matches `text`, or none when it does not compile.
#[verifier::external_body]
fn regex_matches(regex: &str, text: &str) -> (r: Option<bool>)
    ensures
        r == regex_outcome(regex@, text@),
{
    match regex::Regex::new(regex) {
        Ok(re) => Some(re.is_match(text)),
        Err(_) => None,
    }
}

/// `s` with each `**` (left to right) replaced by `.*`.
pub open spec fn double_stars(s: Seq<char>) -> Seq<char>
    decreases s.len(),
{
    if s.len() == 0 {
        s
    } else if s.len() >= 2 && s[0] == '*' && s[1] == '*' {
        seq!['.', '*'] + double_stars(s.subrange(2, s.len() as int))
    } else {
        seq![s[0]] + double_stars(s.subrange(1, s.len() as int))
    }
}

/// `s` with each `*` replaced by `[^/]*`.
pub open spec fn single_stars(s: Seq<char>) -> Seq<char>
    decreases s.len(),
{
    if s.len() == 0 {
        s
    } else {
        single_stars(s.drop_last()) + if s.last() == '*' {
            seq!['[', '^', '/', ']', '*']
        } else {
            seq![s.last()]
        }
    }
}

/// The anchored regular expression a glob pattern stands for.
pub open spec fn glob_regex(p: Seq<char>) -> Seq<char> {
    seq!['^'] + single_stars(double_stars(p)) + seq!['$']
}

/// Whether a shot name matches a glob pattern: `**/*` and `*` match
/// everything; otherwise the pattern's regular expression must match.
pub open spec fn glob_matches(p: Seq<char>, name: Seq<char>) -> bool {
    if p == "**/*"@ || p == "*"@ {
        true
    } else {
        regex_outcome(glob_regex(p), name) == Some(true)
    }
}

fn replace_double_stars(p: &str) -> (r: String)
    ensures
        r@ == double_stars(p@),
{
    let n = p.unicode_len();
    let mut out = String::new();
    let mut i: usize = 0;
    assert(p@.subrange(0, n as int) =~= p@);
    while i < n
        invariant
            n == p@.len(),
            i <= n,
            double_stars(p@) == out@ + double_stars(p@.subrange(i as int, n as int)),
        decreases n - i,
    {
        let ghost rest = p@.subrange(i as int, n as int);
        if i + 1 < n && p.get_char(i) == '*' && p.get_char(i + 1) == '*' {
            proof {
                reveal_strlit(".*");
                assert(rest.subrange(2, rest.len() as int) =~= p@.subrange(i + 2, n as int));
            }
            out.append(".*");
            assert(double_stars(p@) =~= out@ + double_stars(p@.subrange(i + 2, n as int)));
            i = i + 2;
        } else {
            proof {
                assert(rest.subrange(1, rest.len() as int) =~= p@.subrange(i + 1, n as int));
            }
            let c = p.substring_char(i, i + 1);
            out.append(c);
            assert(double_stars(p@) =~= out@ + double_stars(p@.subrange(i + 1, n as int)));
            i = i + 1;
        }
    }
    assert(p@.subrange(n as int, n as int) =~= Seq::<char>::empty());
    assert(out@ + Seq::<char>::empty() =~= out@);
    out
}

fn replace_single_stars(p: &str) -> (r: String)
    ensures
        r@ == single_stars(p@),
{
    let n = p.unicode_len();
    let mut out = String::new();
    let mut i: usize = 0;
    while i < n
        invariant
            n == p@.len(),
            i <= n,
            out@ == single_stars(p@.subrange(0, i as int)),
        decreases n - i,
    {
        let ghost pre = p@.subrange(0, i as int + 1);
        assert(pre.drop_last() =~= p@.subrange(0, i as int));
        if p.get_char(i) == '*' {
            proof {
                reveal_strlit("[^/]*");
            }
            out.append("[^/]*");
        } else {
            out.append(p.substring_char(i, i + 1));
        }
        i = i + 1;
    }
    assert(p@.subrange(0, n as int) =~= p@);
    out
}

/// Whether a shot name matches a glob pattern (`*` within a path segment,
/// `**` across segments).
pub fn glob_match(pattern: &str, name: &str) -> (r: bool)
    ensures
        r == glob_matches(pattern@, name@),
{
    if same_text(pattern, "**/*") || same_text(pattern, "*") {
        return true;
    }
    let a = replace_double_stars(pattern);
    let b = replace_single_stars(a.as_str());
    proof {
        reveal_strlit("^");
        reveal_strlit("$");
        assert("^"@ =~= seq!['^']);
        assert("$"@ =~= seq!['$']);
    }
    let regex = join3("^", b.as_str(), "$");
    match regex_matches(regex.as_str(), name) {
        Some(m) => m,
        None => false,
    }
}

/// Whether some pattern of `ps` matches `name`.
pub open spec fn any_matches(ps: Seq<String>, name: Seq<char>) -> bool {
    exists|i: int| 0 <= i < ps.len() && glob_matches(ps[i]@, name)
}

fn matches_any(ps: &Vec<String>, name: &str) -> (r: bool)
    ensures
        r == any_matches(ps@, name@),
{
    let mut i: usize = 0;
    while i < ps.len()
        invariant
            i <= ps@.len(),
            forall|j: int| 0 <= j < i ==> !glob_matches(ps@[j]@, name@),
        decreases ps@.len() - i,
    {
        if glob_match(ps[i].as_str(), name) {
            return true;
        }
        i = i + 1;
    }
    false
}

/// Whether a shot name is selected: no exclude pattern matches it, and some
/// include pattern does (with no include patterns, everything is included).
pub fn matches_patterns(name: &str, includes: &Vec<String>, excludes: &Vec<String>) -> (r: bool)
    ensures
        r == (!any_matches(excludes@, name@) && (any_matches(includes@, name@) || includes@.len()
            == 0)),
{
    if matches_any(excludes, name) {
        return false;
    }
    if matches_any(includes, name) {
        return true;
    }
    includes.len() == 0
}

/// The first shot of `s` named `n`.
pub open spec fn first_named(s: Seq<Shot>, n: Seq<char>) -> Option<Shot>
    decreases s.len(),
{
    if s.len() == 0 {
        None
    } else if s[0].name@ == n {
        Some(s[0])
    } else {
        first_named(s.subrange(1, s.len() as int), n)
    }
}

/// A discovered shot with a configured override applied: the override's wait
/// selector and delay replace the discovered ones where it gives them; the
/// discovered name and path are kept.
pub open spec fn merged_shot(shot: Shot, overrides: Seq<Shot>) -> Shot {
    match first_named(overrides, shot.name@) {
        Some(o) => Shot {
            wait_for: if o.wait_for is Some {
                o.wait_for
            } else {
                shot.wait_for
            },
            delay: if o.delay is Some {
                o.delay
            } else {
                shot.delay
            },
            ..shot
        },
        None => shot,
    }
}

fn find_override<'a>(overrides: &'a Vec<Shot>, name: &str) -> (r: Option<&'a Shot>)
    ensures
        match r {
            Some(o) => first_named(overrides@, name@) == Some(*o),
            None => first_named(overrides@, name@) is None,
        },
{
    let n = overrides.len();
    let mut i: usize = 0;
    assert(overrides@.subrange(0, n as int) =~= overrides@);
    while i < n
        invariant
            n == overrides@.len(),
            i <= n,
            first_named(overrides@, name@) == first_named(
                overrides@.subrange(i as int, n as int),
                name@,
            ),
        decreases n - i,
    {
        let ghost rest = overrides@.subrange(i as int, n as int);
        assert(rest.subrange(1, rest.len() as int) =~= overrides@.subrange(i + 1, n as int));
        if same_text(overrides[i].name.as_str(), name) {
            return Some(&overrides[i]);
        }
        i = i + 1;
    }
    None
}

/// Applies configured overrides to discovered shots, shot by shot.
pub fn merge_shots(discovered: Vec<Shot>, overrides: &Vec<Shot>) -> (r: Vec<Shot>)
    ensures
        r@.len() == discovered@.len(),
        forall|i: int| 0 <= i < r@.len() ==> r@[i] == merged_shot(discovered@[i], overrides@),
{
    let mut out: Vec<Shot> = Vec::new();
    let mut i: usize = 0;
    while i < discovered.len()
        invariant
            i <= discovered@.len(),
            out@.len() == i,
            forall|j: int| 0 <= j < i ==> out@[j] == merged_shot(discovered@[j], overrides@),
        decreases discovered@.len() - i,
    {
        let mut shot = discovered[i].copy();
        match find_override(overrides, shot.name.as_str()) {
            Some(o) => {
                if o.wait_for.is_some() {
                    shot.wait_for = copy_opt_text(&o.wait_for);
                }
                if o.delay.is_some() {
                    shot.delay = o.delay;
                }
            },
            None => {},
        }
        out.push(shot);
        i = i + 1;
    }
    out
}

/// Whether a captured shot name is selected by an update filter: it equals
/// a filter name, or is that name with a viewport suffix (`name@viewport`).
pub open spec fn selected_by(name: Seq<char>, filter: Seq<String>) -> bool {
    exists|i: int|
        0 <= i < filter.len() && (name == filter[i]@ || is_prefix(filter[i]@ + seq!['@'], name))
}

/// Whether a captured shot name is selected by an update filter.
pub fn selected_for_update(name: &str, filter: &Vec<String>) -> (r: bool)
    ensures
        r == selected_by(name@, filter@),
{
    let mut i: usize = 0;
    while i < filter.len()
        invariant
            i <= filter@.len(),
            forall|j: int|
                0 <= j < i ==> !(name@ == filter@[j]@ || is_prefix(filter@[j]@ + seq!['@'], name@)),
        decreases filter@.len() - i,
    {
        let with_at = join2(filter[i].as_str(), "@");
        proof {
            reveal_strlit("@");
            assert("@"@ =~= seq!['@']);
        }
        if same_text(name, filter[i].as_str()) || starts_with(name, with_at.as_str()) {
            return true;
        }
        i = i + 1;
    }
    false
}

} // verus!
