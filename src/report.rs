//! Report helpers: HTML escaping and the summary counts of a result.

use vstd::prelude::*;
use crate::diff::DiffResult;
use vstd::string::*;

verus! {

/// How one character is written in HTML text.
pub open spec fn escape_char(c: char) -> Seq<char> {
    if c == '&' {
        "&amp;"@
    } else if c == '<' {
        "&lt;"@
    } else if c == '>' {
        "&gt;"@
    } else if c == '"' {
        "&quot;"@
    } else if c == '\'' {
        "&#39;"@
    } else {
        seq![c]
    }
}

/// `s` with the HTML special characters escaped.
pub open spec fn escape_html(s: Seq<char>) -> Seq<char>
    decreases s.len(),
{
    if s.len() == 0 {
        s
    } else {
        escape_html(s.drop_last()) + escape_char(s.last())
    }
}

/// Escapes `&`, `<`, `>`, `"` and `'` for HTML.
pub fn html_escape(s: &str) -> (r: String)
    ensures
        r@ == escape_html(s@),
{
    let n = s.unicode_len();
    let mut out = String::new();
    let mut i: usize = 0;
    while i < n
        invariant
            n == s@.len(),
            i <= n,
            out@ == escape_html(s@.subrange(0, i as int)),
        decreases n - i,
    {
        let ghost pre = s@.subrange(0, i as int + 1);
        assert(pre.drop_last() =~= s@.subrange(0, i as int));
        let c = s.get_char(i);
        if c == '&' {
            out.append("&amp;");
        } else if c == '<' {
            out.append("&lt;");
        } else if c == '>' {
            out.append("&gt;");
        } else if c == '"' {
            out.append("&quot;");
        } else if c == '\'' {
            out.append("&#39;");
        } else {
            let one = s.substring_char(i, i + 1);
            assert(one@ =~= seq![c]);
            out.append(one);
        }
        i = i + 1;
    }
    assert(s@.subrange(0, n as int) =~= s@);
    out
}

/// Summary counts of a comparison result.
#[derive(Debug, Clone, Copy, PartialEq, Eq, Structural)]
pub struct ResultsSummary {
    /// Shots compared, in all four categories.
    pub total: usize,
    /// Unchanged shots.
    pub unchanged: usize,
    /// Changed shots.
    pub changed: usize,
    /// Added shots.
    pub added: usize,
    /// Removed shots.
    pub removed: usize,
    /// Whether nothing changed, appeared or disappeared.
    pub passed: bool,
}

/// The summary counts of a comparison result.
pub fn summarize(result: &DiffResult) -> (r: ResultsSummary)
    requires
        result.unchanged@.len() + result.changed@.len() + result.added@.len()
            + result.removed@.len() <= usize::MAX,
    ensures
        r.unchanged == result.unchanged@.len(),
        r.changed == result.changed@.len(),
        r.added == result.added@.len(),
        r.removed == result.removed@.len(),
        r.total == r.unchanged + r.changed + r.added + r.removed,
        r.passed == (r.changed == 0 && r.added == 0 && r.removed == 0),
{
    let unchanged = result.unchanged.len();
    let changed = result.changed.len();
    let added = result.added.len();
    let removed = result.removed.len();
    ResultsSummary {
        total: unchanged + changed + added + removed,
        unchanged,
        changed,
        added,
        removed,
        passed: changed == 0 && added == 0 && removed == 0,
    }
}

} // verus!
