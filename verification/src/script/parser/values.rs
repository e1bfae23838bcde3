//! The lexical pieces every production shares: whitespace skipping, literal
//! matching, quoted values and decimal coordinates.
//!
//! Each executable function mirrors a spec function over the text's view,
//! so a production's contract can say exactly which characters it consumed
//! and which value it produced.

use vstd::prelude::*;
use crate::{Num, Position};

verus! {

/// The characters the grammar treats as whitespace between tokens.
pub open spec fn is_space(c: char) -> bool {
    c == ' ' || c == '\t' || c == '\r' || c == '\n'
}

/// The first position at or after `i` holding a non-space character, or the
/// end of the text.
pub open spec fn spec_ws(s: Seq<char>, i: int) -> int
    decreases s.len() - i when 0 <= i <= s.len()
{
    if i < s.len() && is_space(s[i]) {
        spec_ws(s, i + 1)
    } else {
        i
    }
}

/// `spec_ws` stays within the text, skips only spaces and stops on the
/// first non-space.
pub proof fn lemma_spec_ws(s: Seq<char>, i: int)
    requires
        0 <= i <= s.len(),
    ensures
        i <= spec_ws(s, i) <= s.len(),
        spec_ws(s, i) < s.len() ==> !is_space(s[spec_ws(s, i)]),
    decreases s.len() - i,
{
    if i < s.len() && is_space(s[i]) {
        lemma_spec_ws(s, i + 1);
    }
}

/// Skip whitespace, per [`spec_ws`].
pub fn skip_ws(s: &str, i: usize) -> (r: usize)
    requires
        i <= s@.len(),
    ensures
        r == spec_ws(s@, i as int),
        i <= r <= s@.len(),
{
    let n = s.unicode_len();
    let mut j = i;
    while j < n && is_space_exec(s.get_char(j))
        invariant
            i <= j <= n,
            n == s@.len(),
            spec_ws(s@, i as int) == spec_ws(s@, j as int),
        decreases n - j,
    {
        j += 1;
    }
    j
}

/// Whether `c` is grammar whitespace; see [`is_space`].
pub fn is_space_exec(c: char) -> (r: bool)
    ensures
        r == is_space(c),
{
    c == ' ' || c == '\t' || c == '\r' || c == '\n'
}

/// The first position at or after `i`, before `b`, holding `c`; `-1` when
/// there is none.
pub open spec fn find_char(s: Seq<char>, i: int, b: int, c: char) -> int
    decreases b - i when 0 <= i && i <= b && b <= s.len()
{
    if i >= b {
        -1
    } else if s[i] == c {
        i
    } else {
        find_char(s, i + 1, b, c)
    }
}

/// `find_char` finds exactly the first occurrence of `c` in `[i, b)`.
pub proof fn lemma_find_char(s: Seq<char>, i: int, b: int, c: char)
    requires
        0 <= i <= b <= s.len(),
    ensures
        find_char(s, i, b, c) == -1 || i <= find_char(s, i, b, c) < b,
        find_char(s, i, b, c) >= 0 ==> s[find_char(s, i, b, c)] == c,
        forall|j: int| i <= j < find_char(s, i, b, c) ==> s[j] != c,
        find_char(s, i, b, c) == -1 ==> forall|j: int| i <= j < b ==> s[j] != c,
    decreases b - i,
{
    if i < b && s[i] != c {
        lemma_find_char(s, i + 1, b, c);
    }
}

/// Find the first occurrence of `c` in `[i, b)`, per [`find_char`].
pub fn find_from(s: &str, i: usize, b: usize, c: char) -> (r: Option<usize>)
    requires
        i <= b <= s@.len(),
    ensures
        match r {
            Some(p) => find_char(s@, i as int, b as int, c) == p as int && i <= p < b,
            None => find_char(s@, i as int, b as int, c) == -1,
        },
{
    proof {
        lemma_find_char(s@, i as int, b as int, c);
    }
    let mut j = i;
    while j < b
        invariant
            i <= j <= b <= s@.len(),
            forall|p: int| i <= p < j ==> s@[p] != c,
            find_char(s@, i as int, b as int, c) == -1 || i as int <= find_char(
                s@,
                i as int,
                b as int,
                c,
            ) < b as int,
            find_char(s@, i as int, b as int, c) >= 0 ==> s@[find_char(
                s@,
                i as int,
                b as int,
                c,
            )] == c,
            forall|p: int| i <= p < find_char(s@, i as int, b as int, c) ==> s@[p] != c,
            find_char(s@, i as int, b as int, c) == -1 ==> forall|p: int|
                i <= p < b ==> s@[p] != c,
        decreases b - j,
    {
        if s.get_char(j) == c {
            return Some(j);
        }
        j += 1;
    }
    None
}

/// Whether the text holds exactly `t` starting at position `i`.
pub open spec fn match_at(s: Seq<char>, i: int, t: Seq<char>) -> bool {
    &&& 0 <= i
    &&& i + t.len() <= s.len()
    &&& forall|k: int| 0 <= k < t.len() ==> s[i + k] == t[k]
}

/// Whether `t` occurs at position `i` of `s`, per [`match_at`].
pub fn tag_at(s: &str, i: usize, t: &str) -> (r: bool)
    requires
        i <= s@.len(),
    ensures
        r == match_at(s@, i as int, t@),
{
    let n = s.unicode_len();
    let m = t.unicode_len();
    if m > n - i {
        return false;
    }
    let mut k: usize = 0;
    while k < m
        invariant
            0 <= k <= m,
            m == t@.len(),
            n == s@.len(),
            i + m <= n,
            forall|p: int| 0 <= p < k ==> s@[i + p] == t@[p],
        decreases m - k,
    {
        if s.get_char(i + k) != t.get_char(k) {
            return false;
        }
        k += 1;
    }
    true
}

/// A single-quoted value at `i`: the content between the quote at `i` and
/// the next single quote, and the position after the closing quote.  `None`
/// when `i` does not hold a quote or no closing quote follows.
pub open spec fn spec_quote_at(s: Seq<char>, i: int) -> Option<(int, Seq<char>)> {
    spec_delimited(s, i, '\'')
}

/// A double-quoted value at `i`, as [`spec_quote_at`] but with `"`.
pub open spec fn spec_speech_at(s: Seq<char>, i: int) -> Option<(int, Seq<char>)> {
    spec_delimited(s, i, '"')
}

/// The content between a delimiter at `i` and the next same delimiter.
pub open spec fn spec_delimited(s: Seq<char>, i: int, q: char) -> Option<(int, Seq<char>)> {
    if 0 <= i < s.len() && s[i] == q {
        let e = find_char(s, i + 1, s.len() as int, q);
        if e >= 0 {
            Some((e + 1, s.subrange(i + 1, e)))
        } else {
            None
        }
    } else {
        None
    }
}

/// A successful [`spec_delimited`] consumes at least the two delimiters and
/// stays within the text.
pub proof fn lemma_delimited(s: Seq<char>, i: int, q: char)
    requires
        0 <= i <= s.len(),
    ensures
        spec_delimited(s, i, q) matches Some((j, _)) ==> i + 2 <= j <= s.len(),
{
    if 0 <= i < s.len() && s[i] == q {
        lemma_find_char(s, i + 1, s.len() as int, q);
    }
}

/// Parse a delimited value at `i`, per [`spec_delimited`].
pub fn delimited(s: &str, i: usize, q: char) -> (r: Option<(usize, String)>)
    requires
        i <= s@.len(),
    ensures
        match r {
            Some((j, v)) => spec_delimited(s@, i as int, q) == Some((j as int, v@)) && i < j
                <= s@.len(),
            None => spec_delimited(s@, i as int, q) is None,
        },
{
    let n = s.unicode_len();
    if i >= n || s.get_char(i) != q {
        return None;
    }
    match find_from(s, i + 1, n, q) {
        Some(e) => {
            let v = s.substring_char(i + 1, e).to_owned();
            Some((e + 1, v))
        },
        None => None,
    }
}

/// A single-quoted value after optional whitespace: the way the grammar
/// reads entity, state, background and music names.
pub open spec fn spec_quote(s: Seq<char>, i: int) -> Option<(int, Seq<char>)> {
    spec_quote_at(s, spec_ws(s, i))
}

/// Parse a single-quoted value after optional whitespace, per
/// [`spec_quote`].
pub fn quote(s: &str, i: usize) -> (r: Option<(usize, String)>)
    requires
        i <= s@.len(),
    ensures
        match r {
            Some((j, v)) => spec_quote(s@, i as int) == Some((j as int, v@)) && i < j <= s@.len(),
            None => spec_quote(s@, i as int) is None,
        },
{
    let j = skip_ws(s, i);
    delimited(s, j, '\'')
}

/// Whether `c` is a decimal digit.
pub open spec fn is_digit(c: char) -> bool {
    '0' <= c && c <= '9'
}

/// The numeric value of a digit character.
pub open spec fn digit_val(c: char) -> int {
    c as int - '0' as int
}

/// Whether every character of `t` is a decimal digit.
pub open spec fn all_digits(t: Seq<char>) -> bool {
    forall|k: int| 0 <= k < t.len() ==> is_digit(#[trigger] t[k])
}

/// The integer written by a run of digit characters; 0 for the empty run.
pub open spec fn digits_val(t: Seq<char>) -> int
    decreases t.len(),
{
    if t.len() == 0 {
        0
    } else {
        digits_val(t.drop_last()) * 10 + digit_val(t.last())
    }
}

/// Ten to the power `n`.
pub open spec fn pow10(n: nat) -> int
    decreases n,
{
    if n == 0 {
        1
    } else {
        10 * pow10((n - 1) as nat)
    }
}

/// Ten-to-the-power is positive.
pub proof fn lemma_pow10_pos(n: nat)
    ensures
        0 < pow10(n),
    decreases n,
{
    if n > 0 {
        lemma_pow10_pos((n - 1) as nat);
    }
}

/// Ten-to-the-power grows with its exponent.
pub proof fn lemma_pow10_mono(m: nat, n: nat)
    requires
        m <= n,
    ensures
        0 < pow10(m) <= pow10(n),
    decreases n,
{
    lemma_pow10_pos(m);
    if m < n {
        lemma_pow10_mono(m, (n - 1) as nat);
    }
}

/// The number written by the trimmed text `t`, read as an optional sign, a
/// digit run, and an optional dot with a further digit run.
///
/// A text of any other shape, or one with more than nineteen digits in all,
/// falls back to zero: coordinate text never fails a parse.
pub open spec fn spec_num(t: Seq<char>) -> Num {
    let neg = t.len() > 0 && t[0] == '-';
    let u = if t.len() > 0 && (t[0] == '-' || t[0] == '+') {
        t.drop_first()
    } else {
        t
    };
    let d = find_char(u, 0, u.len() as int, '.');
    let ip = if d >= 0 {
        u.subrange(0, d)
    } else {
        u
    };
    let fp = if d >= 0 {
        u.subrange(d + 1, u.len() as int)
    } else {
        Seq::empty()
    };
    let digits = ip + fp;
    if all_digits(digits) && 1 <= digits.len() <= 19 {
        Num { neg, mantissa: digits_val(digits) as u64, exp: (0 - fp.len()) as i32 }
    } else {
        Num { neg: false, mantissa: 0, exp: 0 }
    }
}


/// A concatenation is all digits exactly when both halves are.
pub proof fn lemma_concat_digits(x: Seq<char>, y: Seq<char>)
    ensures
        all_digits(x + y) <==> (all_digits(x) && all_digits(y)),
{
    if all_digits(x + y) {
        assert forall|k: int| 0 <= k < x.len() implies is_digit(#[trigger] x[k]) by {
            assert((x + y)[k] == x[k]);
        }
        assert forall|k: int| 0 <= k < y.len() implies is_digit(#[trigger] y[k]) by {
            assert((x + y)[x.len() + k] == y[k]);
        }
    }
    if all_digits(x) && all_digits(y) {
        assert forall|k: int| 0 <= k < (x + y).len() implies is_digit(#[trigger] (x + y)[k]) by {
            if k < x.len() {
                assert((x + y)[k] == x[k]);
            } else {
                assert((x + y)[k] == y[k - x.len()]);
            }
        }
    }
}

/// Fold the digit run `[a, b)` of `s` onto `acc0`, which already holds the
/// value of the digits `pre`; `None` when a non-digit appears in the run.
#[verifier::loop_isolation(false)]
fn accum_digits(s: &str, a: usize, b: usize, acc0: u64, Ghost(pre): Ghost<Seq<char>>) -> (r: Option<
    u64,
>)
    requires
        a <= b <= s@.len(),
        all_digits(pre),
        acc0 == digits_val(pre),
        pre.len() + (b - a) <= 19,
        acc0 < pow10(pre.len()),
        pow10(19) == 10000000000000000000,
    ensures
        match r {
            Some(acc) => {
                let run = s@.subrange(a as int, b as int);
                &&& all_digits(run)
                &&& acc == digits_val(pre + run)
                &&& all_digits(pre + run)
                &&& acc < pow10(pre.len() + run.len())
            },
            None => !all_digits(s@.subrange(a as int, b as int)),
        },
{
    let ghost run = s@.subrange(a as int, b as int);
    let mut acc = acc0;
    let mut p = a;
    proof {
        assert(pre + run.subrange(0, 0) =~= pre);
    }
    while p < b
        invariant
            a <= p <= b,
            all_digits(run.subrange(0, p - a)),
            all_digits(pre + run.subrange(0, p - a)),
            acc == digits_val(pre + run.subrange(0, p - a)),
            acc < pow10((pre.len() + p - a) as nat),
        decreases b - p,
    {
        let c = s.get_char(p);
        proof {
            assert(run[p - a] == c);
        }
        if c < '0' || c > '9' {
            proof {
                assert(!all_digits(run)) by {
                    assert(!is_digit(run[p - a]));
                }
            }
            return None;
        }
        let d8 = (c as u32 - '0' as u32) as u64;
        proof {
            let w = pre + run.subrange(0, p - a);
            let w2 = pre + run.subrange(0, p - a + 1);
            assert(w2.drop_last() =~= w);
            assert(w2.last() == c);
            assert(d8 == digit_val(c));
            lemma_pow10_step((w.len() + 1) as nat);
            lemma_pow10_mono((w.len() + 1) as nat, 19);
            assert(acc * 10 + d8 < pow10((w.len() + 1) as nat));
            assert(all_digits(run.subrange(0, p - a + 1))) by {
                assert(forall|k: int|
                    0 <= k < p - a + 1 ==> run.subrange(0, p - a + 1)[k] == #[trigger] run.subrange(
                        0,
                        p - a + 1,
                    )[k]);
                assert(run.subrange(0, p - a + 1) =~= run.subrange(0, p - a).push(c));
            }
            assert(all_digits(w2)) by {
                lemma_concat_digits(pre, run.subrange(0, p - a + 1));
            }
        }
        acc = acc * 10 + d8;
        p += 1;
    }
    proof {
        assert(run.subrange(0, b - a) =~= run);
    }
    Some(acc)
}

/// Parse the text `[a, b)` of `s` as a decimal number, per [`spec_num`]
/// applied to that range.
#[verifier::rlimit(100)]
#[verifier::loop_isolation(false)]
pub fn parse_num(s: &str, a: usize, b: usize) -> (r: Num)
    requires
        a <= b <= s@.len(),
    ensures
        r == spec_num(s@.subrange(a as int, b as int)),
{
    let ghost t = s@.subrange(a as int, b as int);
    let zero = Num { neg: false, mantissa: 0, exp: 0 };
    // Optional sign.
    let mut neg = false;
    let mut start = a;
    if a < b && (s.get_char(a) == '-' || s.get_char(a) == '+') {
        neg = s.get_char(a) == '-';
        start = a + 1;
    }
    let ghost u = if t.len() > 0 && (t[0] == '-' || t[0] == '+') {
        t.drop_first()
    } else {
        t
    };
    proof {
        assert(u =~= s@.subrange(start as int, b as int));
        assert(neg == (t.len() > 0 && t[0] == '-'));
    }
    // Split at the first dot, if any.
    let dot = find_from(s, start, b, '.');
    let ghost d = find_char(u, 0, u.len() as int, '.');
    proof {
        lemma_find_char(s@, start as int, b as int, '.');
        lemma_find_char(u, 0, u.len() as int, '.');
        match dot {
            Some(p) => {
                assert(u[p - start] == '.');
                assert(forall|k: int| 0 <= k < p - start ==> u[k] != '.');
                if d < p - start {
                    assert(u[d] != '.');
                }
                assert(d == p - start);
            },
            None => {
                assert(forall|k: int| 0 <= k < u.len() ==> u[k] != '.');
                assert(d == -1);
            },
        }
    }
    let (ip_end, fp_start): (usize, usize) = match dot {
        Some(p) => (p, p + 1),
        None => (b, b),
    };
    let ghost ip = if d >= 0 {
        u.subrange(0, d)
    } else {
        u
    };
    let ghost fp = if d >= 0 {
        u.subrange(d + 1, u.len() as int)
    } else {
        Seq::empty()
    };
    let ghost digits = ip + fp;
    proof {
        assert(ip =~= s@.subrange(start as int, ip_end as int));
        assert(fp =~= s@.subrange(fp_start as int, b as int));
    }
    // Count the digits and refuse the wrong shapes.
    let count = (ip_end - start) + (b - fp_start);
    proof {
        assert(digits.len() == count);
    }
    if count < 1 || count > 19 {
        return zero;
    }
    // Check that everything is a digit, accumulating the value as we go.
    proof {
        reveal_with_fuel(pow10, 20);
        lemma_concat_digits(ip, fp);
    }
    let acc1 = match accum_digits(s, start, ip_end, 0, Ghost(Seq::empty())) {
        Some(v) => v,
        None => {
            proof {
                assert(!all_digits(digits));
            }
            return zero;
        },
    };
    proof {
        assert(Seq::empty() + ip =~= ip);
    }
    let acc = match accum_digits(s, fp_start, b, acc1, Ghost(ip)) {
        Some(v) => v,
        None => {
            proof {
                assert(!all_digits(digits));
            }
            return zero;
        },
    };
    let fplen = b - fp_start;
    let exp: i32 = 0i32 - (fplen as i32);
    proof {
        assert(digits.subrange(0, digits.len() as int) =~= digits);
        assert(all_digits(digits));
        assert(acc == digits_val(digits));
        assert(fp.len() == fplen);
        assert(exp as int == 0 - fp.len());
        assert(1 <= digits.len() <= 19);
    }
    Num { neg, mantissa: acc, exp }
}

/// Unfolding ten-to-the-power by one step from above.
proof fn lemma_pow10_step(n: nat)
    requires
        n > 0,
    ensures
        pow10(n) == 10 * pow10((n - 1) as nat),
{
}

/// The end of the trimmed range: the positions `[a', b')` within `[a, b)`
/// with leading and trailing whitespace removed.
pub open spec fn spec_trim_start(s: Seq<char>, a: int, b: int) -> int
    decreases b - a when 0 <= a <= b <= s.len()
{
    if a < b && is_space(s[a]) {
        spec_trim_start(s, a + 1, b)
    } else {
        a
    }
}

/// See [`spec_trim_start`]; the right-hand end.
pub open spec fn spec_trim_end(s: Seq<char>, a: int, b: int) -> int
    decreases b - a when 0 <= a <= b <= s.len()
{
    if a < b && is_space(s[b - 1]) {
        spec_trim_end(s, a, b - 1)
    } else {
        b
    }
}

/// Trim whitespace from both ends of `[a, b)`.
pub fn trim_range(s: &str, a: usize, b: usize) -> (r: (usize, usize))
    requires
        a <= b <= s@.len(),
    ensures
        r.0 == spec_trim_start(s@, a as int, b as int),
        r.1 == spec_trim_end(s@, r.0 as int, b as int),
        a <= r.0 <= r.1 <= b,
{
    let mut x = a;
    while x < b && is_space_exec(s.get_char(x))
        invariant
            a <= x <= b <= s@.len(),
            spec_trim_start(s@, a as int, b as int) == spec_trim_start(s@, x as int, b as int),
        decreases b - x,
    {
        x += 1;
    }
    let mut y = b;
    while y > x && is_space_exec(s.get_char(y - 1))
        invariant
            x <= y <= b <= s@.len(),
            spec_trim_end(s@, x as int, b as int) == spec_trim_end(s@, x as int, y as int),
        decreases y,
    {
        y -= 1;
    }
    (x, y)
}

/// A coordinate pair at `i`: optional whitespace, `(`, number text up to
/// the comma, `,`, number text up to the closing parenthesis, `)`.  Each
/// number text is trimmed and read by [`spec_num`], so unreadable text
/// becomes zero rather than a failure.
pub open spec fn spec_pos(s: Seq<char>, i: int) -> Option<(int, Position)> {
    let j = spec_ws(s, i);
    if j < s.len() && s[j] == '(' {
        let comma = find_char(s, j + 1, s.len() as int, ',');
        if comma >= 0 {
            let close = find_char(s, comma + 1, s.len() as int, ')');
            if close >= 0 {
                let xa = spec_trim_start(s, j + 1, comma);
                let xb = spec_trim_end(s, xa, comma);
                let ya = spec_trim_start(s, comma + 1, close);
                let yb = spec_trim_end(s, ya, close);
                Some(
                    (
                        close + 1,
                        Position {
                            x: spec_num(s.subrange(xa, xb)),
                            y: spec_num(s.subrange(ya, yb)),
                        },
                    ),
                )
            } else {
                None
            }
        } else {
            None
        }
    } else {
        None
    }
}

/// Parse a coordinate pair, per [`spec_pos`].
pub fn pos(s: &str, i: usize) -> (r: Option<(usize, Position)>)
    requires
        i <= s@.len(),
    ensures
        match r {
            Some((j, p)) => spec_pos(s@, i as int) == Some((j as int, p)) && i < j <= s@.len(),
            None => spec_pos(s@, i as int) is None,
        },
{
    let n = s.unicode_len();
    let j = skip_ws(s, i);
    if j >= n || s.get_char(j) != '(' {
        return None;
    }
    let comma = match find_from(s, j + 1, n, ',') {
        Some(c) => c,
        None => {
            return None;
        },
    };
    let close = match find_from(s, comma + 1, n, ')') {
        Some(c) => c,
        None => {
            return None;
        },
    };
    let (xa, xb) = trim_range(s, j + 1, comma);
    let (ya, yb) = trim_range(s, comma + 1, close);
    let x = parse_num(s, xa, xb);
    let y = parse_num(s, ya, yb);
    Some((close + 1, Position { x, y }))
}

/// Bounds of a successful [`spec_quote`]: it consumes at least one
/// character and stays within the text.
pub proof fn lemma_spec_quote_bounds(s: Seq<char>, i: int)
    requires
        0 <= i <= s.len(),
    ensures
        spec_quote(s, i) matches Some((j, _)) ==> i < j <= s.len(),
{
    lemma_spec_ws(s, i);
    lemma_delimited(s, spec_ws(s, i), '\'');
}

/// Bounds of a successful [`spec_pos`]: it consumes at least one character
/// and stays within the text.
pub proof fn lemma_spec_pos_bounds(s: Seq<char>, i: int)
    requires
        0 <= i <= s.len(),
    ensures
        spec_pos(s, i) matches Some((j, _)) ==> i < j <= s.len(),
{
    lemma_spec_ws(s, i);
    let j = spec_ws(s, i);
    if j < s.len() && s[j] == '(' {
        lemma_find_char(s, j + 1, s.len() as int, ',');
        let comma = find_char(s, j + 1, s.len() as int, ',');
        if comma >= 0 {
            lemma_find_char(s, comma + 1, s.len() as int, ')');
        }
    }
}

/// A keyword followed by a single-quoted value, both after optional
/// whitespace: `None` when the keyword is absent or no quoted value
/// follows.
pub open spec fn spec_kw_quote(s: Seq<char>, i: int, kw: Seq<char>) -> Option<(int, Seq<char>)> {
    let j = spec_ws(s, i);
    if match_at(s, j, kw) {
        spec_quote(s, j + kw.len())
    } else {
        None
    }
}

/// Bounds of a successful [`spec_kw_quote`].
pub proof fn lemma_spec_kw_quote_bounds(s: Seq<char>, i: int, kw: Seq<char>)
    requires
        0 <= i <= s.len(),
    ensures
        spec_kw_quote(s, i, kw) matches Some((j, _)) ==> i < j <= s.len(),
{
    lemma_spec_ws(s, i);
    let j = spec_ws(s, i);
    if match_at(s, j, kw) {
        lemma_spec_quote_bounds(s, j + kw.len());
    }
}

/// Parse a keyword followed by a quoted value, per [`spec_kw_quote`].
pub fn kw_quote(s: &str, i: usize, kw: &str) -> (r: Option<(usize, String)>)
    requires
        i <= s@.len(),
    ensures
        match r {
            Some((j, v)) => spec_kw_quote(s@, i as int, kw@) == Some((j as int, v@)) && i < j
                <= s@.len(),
            None => spec_kw_quote(s@, i as int, kw@) is None,
        },
{
    let n = s.unicode_len();
    let j = skip_ws(s, i);
    if tag_at(s, j, kw) {
        let m = kw.unicode_len();
        proof {
            assert(j + m <= n);
        }
        quote(s, j + m)
    } else {
        None
    }
}

/// A keyword followed by a coordinate pair, both after optional whitespace.
pub open spec fn spec_kw_pos(s: Seq<char>, i: int, kw: Seq<char>) -> Option<(int, Position)> {
    let j = spec_ws(s, i);
    if match_at(s, j, kw) {
        spec_pos(s, j + kw.len())
    } else {
        None
    }
}

/// Bounds of a successful [`spec_kw_pos`].
pub proof fn lemma_spec_kw_pos_bounds(s: Seq<char>, i: int, kw: Seq<char>)
    requires
        0 <= i <= s.len(),
    ensures
        spec_kw_pos(s, i, kw) matches Some((j, _)) ==> i < j <= s.len(),
{
    lemma_spec_ws(s, i);
    let j = spec_ws(s, i);
    if match_at(s, j, kw) {
        lemma_spec_pos_bounds(s, j + kw.len());
    }
}

/// Parse a keyword followed by a coordinate pair, per [`spec_kw_pos`].
pub fn kw_pos(s: &str, i: usize, kw: &str) -> (r: Option<(usize, Position)>)
    requires
        i <= s@.len(),
    ensures
        match r {
            Some((j, p)) => spec_kw_pos(s@, i as int, kw@) == Some((j as int, p)) && i < j
                <= s@.len(),
            None => spec_kw_pos(s@, i as int, kw@) is None,
        },
{
    let n = s.unicode_len();
    let j = skip_ws(s, i);
    if tag_at(s, j, kw) {
        let m = kw.unicode_len();
        proof {
            assert(j + m <= n);
        }
        pos(s, j + m)
    } else {
        None
    }
}

/// An optional keyword-plus-quoted-value: consumed when fully present,
/// otherwise nothing is consumed at all.
pub open spec fn spec_opt_kw_quote(s: Seq<char>, i: int, kw: Seq<char>) -> (int, Option<
    Seq<char>,
>) {
    match spec_kw_quote(s, i, kw) {
        Some((j, v)) => (j, Some(v)),
        None => (i, None),
    }
}

/// Bounds of [`spec_opt_kw_quote`]: the position never moves backwards or
/// out of the text.
pub proof fn lemma_spec_opt_kw_quote_bounds(s: Seq<char>, i: int, kw: Seq<char>)
    requires
        0 <= i <= s.len(),
    ensures
        i <= spec_opt_kw_quote(s, i, kw).0 <= s.len(),
{
    lemma_spec_kw_quote_bounds(s, i, kw);
}

/// Parse an optional keyword-plus-quoted-value, per [`spec_opt_kw_quote`].
pub fn opt_kw_quote(s: &str, i: usize, kw: &str) -> (r: (usize, Option<String>))
    requires
        i <= s@.len(),
    ensures
        spec_opt_kw_quote(s@, i as int, kw@) == (r.0 as int, r.1.deep_view()),
        i <= r.0 <= s@.len(),
{
    match kw_quote(s, i, kw) {
        Some((j, v)) => (j, Some(v)),
        None => (i, None),
    }
}

} // verus!
