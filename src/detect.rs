//! The kinds of project a configuration can be started from.

use vstd::prelude::*;
use crate::config::Shot;
use crate::text::{join2, join3, owned};
use vstd::string::*;

verus! {

/// A detected project type with what detection found.
#[derive(Debug, Clone)]
pub enum ProjectType {
    /// A Storybook project with its stories as shots.
    Storybook {
        /// Base URL of the running Storybook server.
        base_url: String,
        /// Discovered stories.
        stories: Vec<Shot>,
    },
    /// A Next.js project with its routes as shots.
    NextJs {
        /// Base URL of the running dev server.
        base_url: String,
        /// Discovered routes.
        routes: Vec<Shot>,
    },
    /// A Vite project.
    Vite {
        /// Base URL of the running dev server.
        base_url: String,
    },
    /// Nothing recognised; shots are configured by hand.
    Unknown,
}

impl ProjectType {
    /// Whether the type is a known one.
    pub fn is_known(&self) -> (r: bool)
        ensures
            r == !(self is Unknown),
    {
        match self {
            ProjectType::Unknown => false,
            _ => true,
        }
    }

    /// The dev server's base URL, for known types.
    pub fn base_url(&self) -> (r: Option<&str>)
        ensures
            match self {
                ProjectType::Storybook { base_url, .. } => r matches Some(u) && u@ == base_url@,
                ProjectType::NextJs { base_url, .. } => r matches Some(u) && u@ == base_url@,
                ProjectType::Vite { base_url } => r matches Some(u) && u@ == base_url@,
                ProjectType::Unknown => r is None,
            },
    {
        match self {
            ProjectType::Storybook { base_url, .. } => Some(base_url.as_str()),
            ProjectType::NextJs { base_url, .. } => Some(base_url.as_str()),
            ProjectType::Vite { base_url } => Some(base_url.as_str()),
            ProjectType::Unknown => None,
        }
    }

    /// The source name a configuration records for the type.
    pub fn source_name(&self) -> (r: &'static str)
        ensures
            r@ == match self {
                ProjectType::Storybook { .. } => "storybook"@,
                ProjectType::NextJs { .. } => "nextjs"@,
                ProjectType::Vite { .. } => "vite"@,
                ProjectType::Unknown => "manual"@,
            },
    {
        match self {
            ProjectType::Storybook { .. } => "storybook",
            ProjectType::NextJs { .. } => "nextjs",
            ProjectType::Vite { .. } => "vite",
            ProjectType::Unknown => "manual",
        }
    }
}

/// The shot for a Storybook story: its story frame, waiting for the story root.
pub fn story_shot(id: &str) -> (r: Shot)
    ensures
        r.name@ == id@,
        r.path@ == "/iframe.html?id="@ + id@ + "&viewMode=story"@,
        r.wait_for matches Some(w) && w@ == "#storybook-root"@,
        r.delay == Some(100u64),
{
    Shot {
        name: owned(id),
        path: join3("/iframe.html?id=", id, "&viewMode=story"),
        wait_for: Some(owned("#storybook-root")),
        delay: Some(100),
    }
}

/// `s` with every `/` turned into `-`.
pub open spec fn dashed(s: Seq<char>) -> Seq<char> {
    s.map_values(|c: char| if c == '/' { '-' } else { c })
}

/// `s` without leading dashes.
pub open spec fn strip_leading_dashes(s: Seq<char>) -> Seq<char>
    decreases s.len(),
{
    if s.len() > 0 && s[0] == '-' {
        strip_leading_dashes(s.subrange(1, s.len() as int))
    } else {
        s
    }
}

/// `s` without trailing dashes.
pub open spec fn strip_trailing_dashes(s: Seq<char>) -> Seq<char>
    decreases s.len(),
{
    if s.len() > 0 && s.last() == '-' {
        strip_trailing_dashes(s.drop_last())
    } else {
        s
    }
}

/// The shot name of a route: `page-` and the route with slashes as dashes,
/// without leading or trailing dashes.
pub open spec fn route_name(route: Seq<char>) -> Seq<char> {
    "page-"@ + strip_trailing_dashes(strip_leading_dashes(dashed(route)))
}

fn dash_route(s: &str) -> (r: String)
    ensures
        r@ == dashed(s@),
{
    let n = s.unicode_len();
    let mut out = String::new();
    let mut i: usize = 0;
    while i < n
        invariant
            n == s@.len(),
            i <= n,
            out@ == dashed(s@.subrange(0, i as int)),
        decreases n - i,
    {
        if s.get_char(i) == '/' {
            out.append("-");
            proof {
                reveal_strlit("-");
            }
        } else {
            out.append(s.substring_char(i, i + 1));
        }
        assert(dashed(s@.subrange(0, i + 1)) =~= dashed(s@.subrange(0, i as int)) + dashed(
            s@.subrange(i as int, i + 1),
        ));
        i = i + 1;
    }
    assert(s@.subrange(0, n as int) =~= s@);
    out
}

fn trim_dashes(s: &str) -> (r: String)
    ensures
        r@ == strip_trailing_dashes(strip_leading_dashes(s@)),
{
    let n = s.unicode_len();
    let mut lo: usize = 0;
    assert(s@.subrange(0, n as int) =~= s@);
    while lo < n && s.get_char(lo) == '-'
        invariant
            n == s@.len(),
            lo <= n,
            strip_leading_dashes(s@) == strip_leading_dashes(s@.subrange(lo as int, n as int)),
        decreases n - lo,
    {
        let ghost rest = s@.subrange(lo as int, n as int);
        assert(rest.subrange(1, rest.len() as int) =~= s@.subrange(lo + 1, n as int));
        lo = lo + 1;
    }
    let ghost front = s@.subrange(lo as int, n as int);
    assert(strip_leading_dashes(front) == front);
    let mut hi: usize = n;
    while hi > lo && s.get_char(hi - 1) == '-'
        invariant
            n == s@.len(),
            lo <= hi <= n,
            front == s@.subrange(lo as int, n as int),
            strip_trailing_dashes(front) == strip_trailing_dashes(s@.subrange(lo as int, hi as int)),
        decreases hi - lo,
    {
        assert(s@.subrange(lo as int, hi as int).drop_last() =~= s@.subrange(lo as int, hi - 1));
        hi = hi - 1;
    }
    let r = String::from_str(s.substring_char(lo, hi));
    assert(strip_trailing_dashes(s@.subrange(lo as int, hi as int)) == s@.subrange(lo as int, hi as int));
    r
}

/// The shot for a page route, named after the route.
pub fn route_shot(route: &str) -> (r: Shot)
    ensures
        r.name@ == route_name(route@),
        r.path@ == route@,
        r.wait_for is None,
        r.delay == Some(500u64),
{
    let d = dash_route(route);
    let t = trim_dashes(d.as_str());
    Shot { name: join2("page-", t.as_str()), path: owned(route), wait_for: None, delay: Some(500) }
}

} // verus!
