//! Comma-separated exclusion tokens.
//!
//! An exclusion argument is split on commas, and each piece is trimmed of
//! leading and trailing whitespace. A name is excluded when it equals one
//! of the trimmed tokens, case-sensitively.

use vstd::prelude::*;

verus! {

/// A whitespace character, as trimmed from the ends of a token.
pub open spec fn is_trim_ws(c: char) -> bool {
    c == ' ' || c == '\t' || c == '\n' || c == '\r'
}

/// The first position at or after `i` that holds no whitespace.
pub open spec fn ws_run_end(s: Seq<char>, i: int) -> int
    decreases s.len() - i,
{
    if i < 0 || i >= s.len() || !is_trim_ws(s[i]) {
        i
    } else {
        ws_run_end(s, i + 1)
    }
}

/// The start of the maximal whitespace suffix of `s`.
pub open spec fn ws_suffix_start(s: Seq<char>) -> int
    decreases s.len(),
{
    if s.len() == 0 {
        0
    } else if is_trim_ws(s.last()) {
        ws_suffix_start(s.drop_last())
    } else {
        s.len() as int
    }
}

/// `s` with leading and trailing whitespace removed.
pub open spec fn trim_spec(s: Seq<char>) -> Seq<char> {
    let a = ws_run_end(s, 0);
    let b = ws_suffix_start(s);
    if a < b {
        s.subrange(a, b)
    } else {
        Seq::empty()
    }
}

/// The position of the first comma at or after `i`, or `s.len()` if
/// there is none.
pub open spec fn comma_from(s: Seq<char>, i: int) -> int
    decreases s.len() - i,
{
    if i < 0 || i >= s.len() {
        s.len() as int
    } else if s[i] == ',' {
        i
    } else {
        comma_from(s, i + 1)
    }
}

/// The trimmed comma-separated tokens of `s`. An input with no comma
/// yields a single token.
pub open spec fn split_trimmed(s: Seq<char>) -> Seq<Seq<char>>
    decreases s.len(),
{
    let i = comma_from(s, 0);
    if i < 0 || i >= s.len() {
        seq![trim_spec(s)]
    } else {
        seq![trim_spec(s.subrange(0, i))] + split_trimmed(
            s.subrange(i + 1, s.len() as int),
        )
    }
}

/// `name` equals one of the trimmed tokens of `arg`.
pub open spec fn name_in_tokens(arg: Seq<char>, name: Seq<char>) -> bool {
    split_trimmed(arg).contains(name)
}

/// Bounds of the first comma position.
pub proof fn lemma_comma_from(s: Seq<char>, i: int)
    requires
        0 <= i <= s.len(),
    ensures
        i <= comma_from(s, i) <= s.len(),
    decreases s.len() - i,
{
    if i < s.len() && s[i] != ',' {
        lemma_comma_from(s, i + 1);
    }
}

/// Comma positions shift with the suffix view: searching inside
/// `s[start..]` finds the same comma as searching `s` from `start`.
pub proof fn lemma_comma_from_shift(s: Seq<char>, start: int, k: int)
    requires
        0 <= start,
        0 <= k,
        start + k <= s.len(),
    ensures
        comma_from(s.subrange(start, s.len() as int), k) == comma_from(s, start + k) - start,
    decreases s.len() - start - k,
{
    let t = s.subrange(start, s.len() as int);
    if k < t.len() {
        assert(t[k] == s[start + k]);
        if s[start + k] != ',' {
            lemma_comma_from_shift(s, start, k + 1);
        }
    }
}

/// The end of the whitespace run starting at `j`, executably.
fn ws_run_end_exec(s: &str, j: usize) -> (r: usize)
    requires
        j <= s@.len(),
    ensures
        r as int == ws_run_end(s@, j as int),
        j <= r <= s@.len(),
    decreases s@.len() - j,
{
    let n = s.unicode_len();
    if j < n {
        let c = s.get_char(j);
        if c == ' ' || c == '\t' || c == '\n' || c == '\r' {
            return ws_run_end_exec(s, j + 1);
        }
    }
    j
}

/// A position below which everything back to the last non-whitespace
/// character is whitespace pins down the suffix start.
proof fn lemma_ws_suffix_start_exact(s: Seq<char>, j: int)
    requires
        0 <= j <= s.len(),
        forall|k: int| j <= k < s.len() ==> is_trim_ws(#[trigger] s[k]),
        j == 0 || !is_trim_ws(s[j - 1]),
    ensures
        ws_suffix_start(s) == j,
    decreases s.len(),
{
    if s.len() > 0 {
        if j == s.len() {
        } else {
            assert(is_trim_ws(s.last()));
            let d = s.drop_last();
            assert(forall|k: int| j <= k < d.len() ==> is_trim_ws(#[trigger] d[k]));
            lemma_ws_suffix_start_exact(d, j);
        }
    }
}

/// Scans backward from `j` over whitespace to find the suffix start.
fn ws_suffix_scan(s: &str, j: usize) -> (r: usize)
    requires
        j <= s@.len(),
        forall|k: int| j <= k < s@.len() ==> is_trim_ws(#[trigger] s@[k]),
    ensures
        r as int == ws_suffix_start(s@),
        r <= s@.len(),
    decreases j,
{
    if j > 0 {
        let c = s.get_char(j - 1);
        if c == ' ' || c == '\t' || c == '\n' || c == '\r' {
            return ws_suffix_scan(s, j - 1);
        }
    }
    proof {
        lemma_ws_suffix_start_exact(s@, j as int);
    }
    j
}

/// Removes leading and trailing whitespace.
pub fn trim_str(s: &str) -> (r: String)
    ensures
        r@ == trim_spec(s@),
{
    let n = s.unicode_len();
    let a = ws_run_end_exec(s, 0);
    let b = ws_suffix_scan(s, n);
    if a < b {
        let sub = s.substring_char(a, b);
        String::from_str(sub)
    } else {
        String::new()
    }
}

/// Splits on commas and trims each piece.
pub fn split_and_trim(s: &str) -> (r: Vec<String>)
    ensures
        r.deep_view() == split_trimmed(s@),
{
    let n = s.unicode_len();
    let mut r: Vec<String> = Vec::new();
    let mut start: usize = 0;
    let mut done: bool = false;
    proof {
        assert(s@.subrange(0, n as int) =~= s@);
        assert(r.deep_view() =~= Seq::<Seq<char>>::empty());
        assert(r.deep_view() + split_trimmed(s@.subrange(0, n as int)) =~= split_trimmed(s@));
    }
    while !done
        invariant
            0 <= start <= n == s@.len(),
            done ==> r.deep_view() == split_trimmed(s@),
            !done ==> split_trimmed(s@) == r.deep_view() + split_trimmed(
                s@.subrange(start as int, n as int),
            ),
        decreases n - start + (if done { 0int } else { 1int }),
    {
        let ghost t = s@.subrange(start as int, n as int);
        let ghost old_r = r.deep_view();
        proof {
            lemma_comma_from_shift(s@, start as int, 0);
            lemma_comma_from(s@, start as int);
        }
        let j = comma_from_exec(s, start);
        let piece = s.substring_char(start, j);
        let token = trim_str(piece);
        r.push(token);
        proof {
            assert(r.deep_view() =~= old_r.push(trim_spec(piece@)));
        }
        if j == n {
            done = true;
            proof {
                assert(comma_from(t, 0) == t.len());
                assert(piece@ =~= t);
                assert(split_trimmed(t) == seq![trim_spec(t)]);
                assert(r.deep_view() =~= old_r + split_trimmed(t));
            }
        } else {
            start = j + 1;
            proof {
                let i = comma_from(t, 0);
                assert(0 <= i < t.len());
                assert(piece@ =~= t.subrange(0, i));
                assert(t.subrange(i + 1, t.len() as int) =~= s@.subrange(
                    start as int,
                    n as int,
                ));
                assert(split_trimmed(t) == seq![trim_spec(t.subrange(0, i))] + split_trimmed(
                    t.subrange(i + 1, t.len() as int),
                ));
                assert(old_r + split_trimmed(t) =~= r.deep_view() + split_trimmed(
                    s@.subrange(start as int, n as int),
                ));
            }
        }
    }
    r
}

/// The position of the first comma at or after `j`, executably.
fn comma_from_exec(s: &str, j: usize) -> (r: usize)
    requires
        j <= s@.len(),
    ensures
        r as int == comma_from(s@, j as int),
        j <= r <= s@.len(),
    decreases s@.len() - j,
{
    let n = s.unicode_len();
    if j == n {
        return j;
    }
    let c = s.get_char(j);
    if c == ',' {
        j
    } else {
        comma_from_exec(s, j + 1)
    }
}

/// Whether `name` equals one of the strings in `tokens`.
pub fn contains_string(tokens: &Vec<String>, name: &String) -> (b: bool)
    ensures
        b == tokens.deep_view().contains(name@),
{
    let mut i: usize = 0;
    while i < tokens.len()
        invariant
            0 <= i <= tokens.len(),
            forall|j: int| 0 <= j < i ==> tokens.deep_view()[j] != name@,
        decreases tokens.len() - i,
    {
        if tokens[i].eq(name) {
            proof {
                assert(tokens.deep_view()[i as int] == name@);
            }
            return true;
        }
        i = i + 1;
    }
    proof {
        if tokens.deep_view().contains(name@) {
            let j = choose|j: int|
                0 <= j < tokens.deep_view().len() && tokens.deep_view()[j] == name@;
            assert(tokens.deep_view()[j] != name@);
        }
    }
    false
}

} // verus!
