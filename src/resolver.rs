//! Resolving plugin identifiers to package directories.
//!
//! An identifier starting with `.` or `/` is a path (relative to the working
//! directory, or absolute). Any other identifier is a package name, looked up
//! under `node_modules` in the working directory and then in each of its
//! ancestors. Which candidate exists is for the caller to probe.

use vstd::prelude::*;
use crate::error::PluginError;
use crate::text::{contains_text, copy_texts, join2, join3, occurs_in, owned};
use vstd::string::*;

verus! {

/// Whether an identifier names a path rather than a package.
pub open spec fn is_path_identifier(name: Seq<char>) -> bool {
    name.len() > 0 && (name[0] == '.' || name[0] == '/')
}

/// `rel` under directory `base`.
pub open spec fn join_dir(base: Seq<char>, rel: Seq<char>) -> Seq<char> {
    if base.len() == 0 {
        rel
    } else if base.last() == '/' {
        base + rel
    } else {
        base + seq!['/'] + rel
    }
}

/// The position of the last `/` in a path, if any.
pub open spec fn last_slash(p: Seq<char>) -> Option<int>
    decreases p.len(),
{
    if p.len() == 0 {
        None
    } else if p.last() == '/' {
        Some(p.len() - 1)
    } else {
        last_slash(p.drop_last())
    }
}

/// The parent directory of a path: up to its last `/` (the root for a path
/// directly under it), the empty path for a single relative component, and
/// none for the root or the empty path.
pub open spec fn parent_of(p: Seq<char>) -> Option<Seq<char>> {
    if p.len() == 0 || p == seq!['/'] {
        None
    } else {
        match last_slash(p) {
            None => Some(Seq::empty()),
            Some(k) => if k == 0 {
                Some(seq!['/'])
            } else {
                Some(p.subrange(0, k))
            },
        }
    }
}

proof fn lemma_last_slash_bounds(p: Seq<char>)
    ensures
        last_slash(p) matches Some(k) ==> 0 <= k < p.len() && p[k] == '/',
        last_slash(p) is None ==> forall|i: int| 0 <= i < p.len() ==> p[i] != '/',
    decreases p.len(),
{
    if p.len() > 0 && p.last() != '/' {
        lemma_last_slash_bounds(p.drop_last());
        if last_slash(p) is None {
            assert forall|i: int| 0 <= i < p.len() implies p[i] != '/' by {
                if i < p.len() - 1 {
                    assert(p.drop_last()[i] == p[i]);
                }
            }
        }
    }
}

proof fn lemma_parent_shorter(p: Seq<char>)
    ensures
        parent_of(p) matches Some(q) ==> q.len() < p.len(),
{
    lemma_last_slash_bounds(p);
    if p.len() == 1 && last_slash(p) == Some(0int) {
        assert(p =~= seq!['/']);
    }
}

/// The candidate package directories for `name`, starting the search at
/// directory `dir` and going up through its ancestors.
pub open spec fn package_candidates(dir: Seq<char>, name: Seq<char>) -> Seq<Seq<char>>
    decreases dir.len(),
{
    let here = seq![join_dir(join_dir(dir, "node_modules"@), name)];
    match parent_of(dir) {
        Some(up) => if up.len() < dir.len() {
            here + package_candidates(up, name)
        } else {
            here
        },
        None => here,
    }
}

/// Where a plugin identifier may live, in the order to probe.
pub open spec fn candidates_of(name: Seq<char>, working_dir: Seq<char>) -> Seq<Seq<char>> {
    if is_path_identifier(name) {
        if name[0] == '/' {
            seq![name]
        } else {
            seq![join_dir(working_dir, name)]
        }
    } else {
        package_candidates(working_dir, name)
    }
}

fn last_slash_index(p: &str) -> (r: Option<usize>)
    ensures
        match r {
            Some(k) => last_slash(p@) == Some(k as int),
            None => last_slash(p@) is None,
        },
{
    let n = p.unicode_len();
    let mut i: usize = n;
    assert(p@.subrange(0, n as int) =~= p@);
    while i > 0
        invariant
            n == p@.len(),
            i <= n,
            last_slash(p@) == last_slash(p@.subrange(0, i as int)),
        decreases i,
    {
        let ghost pre = p@.subrange(0, i as int);
        assert(pre.drop_last() =~= p@.subrange(0, i - 1));
        if p.get_char(i - 1) == '/' {
            return Some(i - 1);
        }
        i = i - 1;
    }
    assert(p@.subrange(0, 0) =~= Seq::<char>::empty());
    None
}

/// The parent directory of a path.
pub fn parent_dir(p: &str) -> (r: Option<String>)
    ensures
        match r {
            Some(q) => parent_of(p@) == Some(q@),
            None => parent_of(p@) is None,
        },
{
    let n = p.unicode_len();
    if n == 0 {
        return None;
    }
    proof {
        reveal_strlit("/");
        assert("/"@ =~= seq!['/']);
    }
    if n == 1 && p.get_char(0) == '/' {
        assert(p@ =~= seq!['/']);
        return None;
    }
    assert(p@ != seq!['/']);
    proof {
        lemma_last_slash_bounds(p@);
    }
    match last_slash_index(p) {
        None => Some(String::new()),
        Some(k) => if k == 0 {
            Some(owned("/"))
        } else {
            Some(String::from_str(p.substring_char(0, k)))
        },
    }
}

/// `rel` under directory `base`.
pub fn join_path(base: &str, rel: &str) -> (r: String)
    ensures
        r@ == join_dir(base@, rel@),
{
    let n = base.unicode_len();
    if n == 0 {
        owned(rel)
    } else if base.get_char(n - 1) == '/' {
        join2(base, rel)
    } else {
        proof {
            reveal_strlit("/");
            assert("/"@ =~= seq!['/']);
        }
        join3(base, "/", rel)
    }
}

/// Where a plugin identifier may live, in the order to probe: for a path, the
/// one directory it names; for a package name, `node_modules/<name>` in the
/// working directory and then in each ancestor directory.
pub fn plugin_candidates(name: &str, working_dir: &str) -> (r: Vec<String>)
    ensures
        views_of(r@) == candidates_of(name@, working_dir@),
{
    let n = name.unicode_len();
    if n > 0 && (name.get_char(0) == '.' || name.get_char(0) == '/') {
        let mut out: Vec<String> = Vec::new();
        if name.get_char(0) == '/' {
            out.push(owned(name));
        } else {
            out.push(join_path(working_dir, name));
        }
        assert(views_of(out@) =~= candidates_of(name@, working_dir@));
        return out;
    }
    let mut out: Vec<String> = Vec::new();
    let mut dir = owned(working_dir);
    let ghost start = working_dir@;
    proof {
        assert(views_of(out@) + package_candidates(dir@, name@) =~= package_candidates(start, name@));
    }
    loop
        invariant
            views_of(out@) + package_candidates(dir@, name@) == package_candidates(start, name@),
            !is_path_identifier(name@),
            start == working_dir@,
            candidates_of(name@, start) == package_candidates(start, name@),
        decreases dir@.len(),
    {
        let modules = join_path(dir.as_str(), "node_modules");
        let here = join_path(modules.as_str(), name);
        let ghost before = out@;
        out.push(here);
        proof {
            assert(views_of(out@) =~= views_of(before).push(here@));
            lemma_parent_shorter(dir@);
        }
        match parent_dir(dir.as_str()) {
            Some(up) => {
                assert(views_of(out@) + package_candidates(up@, name@) =~= views_of(before) + package_candidates(dir@, name@));
                dir = up;
            },
            None => {
                assert(views_of(out@) =~= views_of(before) + package_candidates(dir@, name@));
                return out;
            },
        }
    }
}

/// The views of a list of texts.
pub open spec fn views_of(s: Seq<String>) -> Seq<Seq<char>> {
    s.map_values(|x: String| x@)
}

/// The index of the first candidate that exists, if any.
pub open spec fn first_existing(exists: Seq<bool>) -> Option<int>
    decreases exists.len(),
{
    if exists.len() == 0 {
        None
    } else if exists[0] {
        Some(0)
    } else {
        match first_existing(exists.subrange(1, exists.len() as int)) {
            Some(k) => Some(k + 1),
            None => None,
        }
    }
}

/// Picks the first candidate that exists (`exists[i]` says whether
/// `candidates[i]` is a directory); with none, fails naming the identifier
/// and every place that was tried.
pub fn resolve_from_probes(name: &str, candidates: &Vec<String>, exists: &Vec<bool>) -> (r: Result<
    String,
    PluginError,
>)
    requires
        exists@.len() == candidates@.len(),
    ensures
        match first_existing(exists@) {
            Some(k) => r matches Ok(p) && p@ == candidates@[k]@,
            None => r matches Err(PluginError::NotFound { identifier, tried }) && identifier@
                == name@ && tried@ == candidates@,
        },
{
    let n = exists.len();
    let mut i: usize = 0;
    assert(exists@.subrange(0, n as int) =~= exists@);
    while i < n
        invariant
            n == exists@.len(),
            n == candidates@.len(),
            i <= n,
            first_existing(exists@) == match first_existing(exists@.subrange(i as int, n as int)) {
                Some(k) => Some(k + i),
                None => None::<int>,
            },
        decreases n - i,
    {
        let ghost rest = exists@.subrange(i as int, n as int);
        assert(rest.subrange(1, rest.len() as int) =~= exists@.subrange(i + 1, n as int));
        if exists[i] {
            return Ok(candidates[i].clone());
        }
        i = i + 1;
    }
    assert(exists@.subrange(n as int, n as int).len() == 0);
    Err(PluginError::NotFound { identifier: owned(name), tried: copy_texts(candidates) })
}

/// Whether a `package.json` text declares a plugin: it has a `"pixelguard"` key.
pub fn has_plugin_field(package_json: &str) -> (r: bool)
    ensures
        r == occurs_in("\"pixelguard\""@, package_json@),
{
    contains_text(package_json, "\"pixelguard\"")
}

} // verus!
