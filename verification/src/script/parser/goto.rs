//! The `->` jump production.

use vstd::prelude::*;
use super::values::{spec_ws, match_at, skip_ws, tag_at, lemma_spec_ws};
use super::super::{ScriptStep, StepView};

verus! {

/// Whether `c` is an ASCII letter or digit: the characters script and
/// anchor names are made of.
pub open spec fn is_alnum(c: char) -> bool {
    ('a' <= c && c <= 'z') || ('A' <= c && c <= 'Z') || ('0' <= c && c <= '9')
}

/// Whether `c` is a name character, per [`is_alnum`].
pub fn is_alnum_exec(c: char) -> (r: bool)
    ensures
        r == is_alnum(c),
{
    (c >= 'a' && c <= 'z') || (c >= 'A' && c <= 'Z') || (c >= '0' && c <= '9')
}

/// The end of the run of name characters starting at `i`.
pub open spec fn spec_alnum_end(s: Seq<char>, i: int) -> int
    decreases s.len() - i when 0 <= i <= s.len()
{
    if i < s.len() && is_alnum(s[i]) {
        spec_alnum_end(s, i + 1)
    } else {
        i
    }
}

/// The run of name characters stays within the text.
pub proof fn lemma_spec_alnum_end(s: Seq<char>, i: int)
    requires
        0 <= i <= s.len(),
    ensures
        i <= spec_alnum_end(s, i) <= s.len(),
    decreases s.len() - i,
{
    if i < s.len() && is_alnum(s[i]) {
        lemma_spec_alnum_end(s, i + 1);
    }
}

/// An optional name: the run of name characters at `i`, or nothing when
/// the run is empty.
pub open spec fn spec_opt_name(s: Seq<char>, i: int) -> (int, Option<Seq<char>>) {
    let e = spec_alnum_end(s, i);
    if e > i {
        (e, Some(s.subrange(i, e)))
    } else {
        (i, None)
    }
}

/// Parse an optional name, per [`spec_opt_name`].
pub fn opt_name(s: &str, i: usize) -> (r: (usize, Option<String>))
    requires
        i <= s@.len(),
    ensures
        spec_opt_name(s@, i as int) == (r.0 as int, r.1.deep_view()),
        i <= r.0 <= s@.len(),
{
    let n = s.unicode_len();
    let mut e = i;
    while e < n && is_alnum_exec(s.get_char(e))
        invariant
            i <= e <= n,
            n == s@.len(),
            spec_alnum_end(s@, i as int) == spec_alnum_end(s@, e as int),
        decreases n - e,
    {
        e += 1;
    }
    if e > i {
        let v = s.substring_char(i, e).to_owned();
        (e, Some(v))
    } else {
        (i, None)
    }
}

/// `-> [scriptName] : [anchorName]`: a jump, where the script name
/// defaults to the current script and the anchor to the first anchor.
pub open spec fn spec_goto(s: Seq<char>, i: int) -> Option<(int, StepView)> {
    let j = spec_ws(s, i);
    if match_at(s, j, "->"@) {
        let (j2, name) = spec_opt_name(s, spec_ws(s, j + "->"@.len()));
        let j3 = spec_ws(s, j2);
        if j3 < s.len() && s[j3] == ':' {
            let (j4, anchor) = spec_opt_name(s, spec_ws(s, j3 + 1));
            Some((j4, StepView::GoTo(name, anchor)))
        } else {
            None
        }
    } else {
        None
    }
}

/// Bounds of a successful [`spec_goto`].
pub proof fn lemma_spec_goto_bounds(s: Seq<char>, i: int)
    requires
        0 <= i <= s.len(),
    ensures
        spec_goto(s, i) matches Some((j, _)) ==> i < j <= s.len(),
{
    lemma_spec_ws(s, i);
    reveal_strlit("->");
    let j = spec_ws(s, i);
    if match_at(s, j, "->"@) {
        lemma_spec_ws(s, j + 2);
        lemma_spec_alnum_end(s, spec_ws(s, j + 2));
        let (j2, _) = spec_opt_name(s, spec_ws(s, j + 2));
        lemma_spec_ws(s, j2);
        let j3 = spec_ws(s, j2);
        if j3 < s.len() && s[j3] == ':' {
            lemma_spec_ws(s, j3 + 1);
            lemma_spec_alnum_end(s, spec_ws(s, j3 + 1));
        }
    }
}

/// Parse a jump, per [`spec_goto`].
pub fn goto(s: &str, i: usize) -> (r: Option<(usize, ScriptStep)>)
    requires
        i <= s@.len(),
    ensures
        match r {
            Some((j, st)) => spec_goto(s@, i as int) == Some((j as int, st.deep_view())) && i < j
                <= s@.len(),
            None => spec_goto(s@, i as int) is None,
        },
{
    let n = s.unicode_len();
    let j = skip_ws(s, i);
    if !tag_at(s, j, "->") {
        return None;
    }
    let m = "->".unicode_len();
    proof {
        reveal_strlit("->");
        assert(j + m <= n);
    }
    let (j2, name) = opt_name(s, skip_ws(s, j + m));
    let j3 = skip_ws(s, j2);
    if j3 >= n || s.get_char(j3) != ':' {
        return None;
    }
    let (j4, anchor) = opt_name(s, skip_ws(s, j3 + 1));
    Some((j4, ScriptStep::GoTo(name, anchor)))
}

} // verus!
