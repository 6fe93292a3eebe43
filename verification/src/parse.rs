//! Message identifier parsing.
//!
//! A user-supplied message reference is either a bare numeric ID — which is
//! rejected, because it names no channel — or a message URL of the fixed
//! shape `https://discord.com/channels/<guild>/<channel>/<message>`, whose
//! channel and message segments become a [`MessageReference`]. The match may
//! start anywhere in the input; the earliest matching position wins.

use vstd::prelude::*;
use crate::digits::{
    all_dec_digits, dec_rep, digits_val, is_dec_digit, lemma_dec_rep_digits,
    lemma_digits_val_dec_rep, parse_digit_range, u64_to_dec_string,
};

verus! {

/// A (channel identifier, message identifier) pair locating one message.
/// Both identifiers are nonzero.
#[derive(Clone, Copy, Debug, PartialEq, Eq, Structural)]
pub struct MessageReference {
    pub channel_id: u64,
    pub message_id: u64,
}

impl MessageReference {
    /// Both identifiers are nonzero.
    pub open spec fn wf(self) -> bool {
        self.channel_id > 0 && self.message_id > 0
    }
}

/// Why a message identifier failed to parse.
#[derive(Clone, Copy, Debug, PartialEq, Eq, Structural)]
pub enum ParseError {
    /// The input was a bare numeric ID, which names no channel.
    AmbiguousIdentifier,
    /// The input matched neither accepted shape.
    InvalidFormat,
}

impl ParseError {
    /// The user-visible description of each failure.
    pub open spec fn message_spec(self) -> Seq<char> {
        match self {
            ParseError::AmbiguousIdentifier => "When providing just a message ID, you must also specify the channel ID"@,
            ParseError::InvalidFormat => "Invalid message identifier format. Please provide a valid Discord message URL"@,
        }
    }

    /// The user-visible description of the failure.
    pub fn message(&self) -> (r: String)
        ensures
            r@ == self.message_spec(),
    {
        match self {
            ParseError::AmbiguousIdentifier => String::from_str(
                "When providing just a message ID, you must also specify the channel ID",
            ),
            ParseError::InvalidFormat => String::from_str(
                "Invalid message identifier format. Please provide a valid Discord message URL",
            ),
        }
    }
}

/// The fixed literal that precedes the three numeric path segments.
pub open spec fn url_prefix() -> Seq<char> {
    "https://discord.com/channels/"@
}

/// The end of the run of digit characters starting at `i`: the first
/// position at or after `i` that holds no digit.
pub open spec fn digit_run_end(s: Seq<char>, i: int) -> int
    decreases s.len() - i,
{
    if i < 0 || i >= s.len() || !is_dec_digit(s[i]) {
        i
    } else {
        digit_run_end(s, i + 1)
    }
}

/// Bounds and contents of a digit run.
pub proof fn lemma_digit_run_end(s: Seq<char>, i: int)
    requires
        0 <= i <= s.len(),
    ensures
        i <= digit_run_end(s, i) <= s.len(),
        all_dec_digits(s.subrange(i, digit_run_end(s, i))),
        digit_run_end(s, i) < s.len() ==> !is_dec_digit(s[digit_run_end(s, i)]),
    decreases s.len() - i,
{
    if i < s.len() && is_dec_digit(s[i]) {
        lemma_digit_run_end(s, i + 1);
        let e = digit_run_end(s, i);
        assert forall|k: int| 0 <= k < s.subrange(i, e).len() implies is_dec_digit(
            #[trigger] s.subrange(i, e)[k],
        ) by {
            if k > 0 {
                assert(s.subrange(i, e)[k] == s.subrange(i + 1, e)[k - 1]);
            }
        }
    }
}

/// A run that covers exactly the digits `[i, j)` ends at `j`.
pub proof fn lemma_digit_run_end_exact(s: Seq<char>, i: int, j: int)
    requires
        0 <= i <= j <= s.len(),
        forall|k: int| i <= k < j ==> is_dec_digit(#[trigger] s[k]),
        j == s.len() || !is_dec_digit(s[j]),
    ensures
        digit_run_end(s, i) == j,
    decreases j - i,
{
    if i < j {
        lemma_digit_run_end_exact(s, i + 1, j);
    }
}

/// The URL pattern matches `s` at position `i`: the literal prefix, then
/// three nonempty digit runs separated by `/` characters.
pub open spec fn match_at(s: Seq<char>, i: int) -> bool {
    let p = url_prefix().len() as int;
    let g_end = digit_run_end(s, i + p);
    let c_end = digit_run_end(s, g_end + 1);
    let m_end = digit_run_end(s, c_end + 1);
    &&& 0 <= i
    &&& i + p <= s.len()
    &&& s.subrange(i, i + p) == url_prefix()
    &&& g_end > i + p
    &&& g_end < s.len()
    &&& s[g_end] == '/'
    &&& c_end > g_end + 1
    &&& c_end < s.len()
    &&& s[c_end] == '/'
    &&& m_end > c_end + 1
}

/// The channel segment captured by a match at `i`.
pub open spec fn channel_digits(s: Seq<char>, i: int) -> Seq<char> {
    let p = url_prefix().len() as int;
    let g_end = digit_run_end(s, i + p);
    let c_end = digit_run_end(s, g_end + 1);
    s.subrange(g_end + 1, c_end)
}

/// The message segment captured by a match at `i`.
pub open spec fn message_digits(s: Seq<char>, i: int) -> Seq<char> {
    let p = url_prefix().len() as int;
    let g_end = digit_run_end(s, i + p);
    let c_end = digit_run_end(s, g_end + 1);
    let m_end = digit_run_end(s, c_end + 1);
    s.subrange(c_end + 1, m_end)
}

/// The first position at or after `i` where the pattern matches.
pub open spec fn first_match_from(s: Seq<char>, i: int) -> Option<int>
    decreases s.len() - i,
{
    if i < 0 || i >= s.len() {
        None
    } else if match_at(s, i) {
        Some(i)
    } else {
        first_match_from(s, i + 1)
    }
}

/// What parsing returns for the input `s`: a bare digit string is
/// ambiguous; otherwise the earliest URL match yields the captured channel
/// and message identifiers, provided both are nonzero and fit in 64 bits;
/// everything else is an invalid format.
pub open spec fn parse_spec(s: Seq<char>) -> Result<MessageReference, ParseError> {
    if all_dec_digits(s) {
        Err(ParseError::AmbiguousIdentifier)
    } else {
        match first_match_from(s, 0) {
            None => Err(ParseError::InvalidFormat),
            Some(i) => {
                let cv = digits_val(channel_digits(s, i));
                let mv = digits_val(message_digits(s, i));
                if 1 <= cv <= u64::MAX && 1 <= mv <= u64::MAX {
                    Ok(MessageReference { channel_id: cv as u64, message_id: mv as u64 })
                } else {
                    Err(ParseError::InvalidFormat)
                }
            },
        }
    }
}

/// Whether `s` consists of decimal digits only.
fn all_digits_exec(s: &str) -> (b: bool)
    ensures
        b == all_dec_digits(s@),
{
    let n = s.unicode_len();
    let mut i: usize = 0;
    while i < n
        invariant
            0 <= i <= n == s@.len(),
            forall|j: int| 0 <= j < i ==> is_dec_digit(#[trigger] s@[j]),
        decreases n - i,
    {
        let c = s.get_char(i);
        if !(c >= '0' && c <= '9') {
            proof {
                assert(!is_dec_digit(s@[i as int]));
            }
            return false;
        }
        i = i + 1;
    }
    true
}

/// The end of the digit run starting at `j`, executably.
fn digit_run_end_exec(s: &str, j: usize) -> (r: usize)
    requires
        j <= s@.len(),
    ensures
        r as int == digit_run_end(s@, j as int),
        j <= r <= s@.len(),
    decreases s@.len() - j,
{
    let n = s.unicode_len();
    if j < n {
        let c = s.get_char(j);
        if c >= '0' && c <= '9' {
            return digit_run_end_exec(s, j + 1);
        }
    }
    j
}

/// Whether the literal URL prefix occurs at position `i`.
fn prefix_matches_at(s: &str, i: usize) -> (b: bool)
    requires
        i <= s@.len(),
    ensures
        b == (i + url_prefix().len() <= s@.len() && s@.subrange(
            i as int,
            i + url_prefix().len(),
        ) == url_prefix()),
{
    let p = "https://discord.com/channels/";
    proof {
        reveal_strlit("https://discord.com/channels/");
    }
    let plen = p.unicode_len();
    let n = s.unicode_len();
    if n < plen || i > n - plen {
        return false;
    }
    let mut k: usize = 0;
    while k < plen
        invariant
            0 <= k <= plen,
            plen == url_prefix().len(),
            i + plen <= n == s@.len(),
            p@ == url_prefix(),
            forall|t: int| 0 <= t < k ==> s@[i + t] == url_prefix()[t],
        decreases plen - k,
    {
        if s.get_char(i + k) != p.get_char(k) {
            proof {
                if s@.subrange(i as int, i + url_prefix().len()) == url_prefix() {
                    assert(s@.subrange(i as int, i + url_prefix().len())[k as int] == s@[i + k]);
                    assert(false);
                }
            }
            return false;
        }
        k = k + 1;
    }
    proof {
        assert(s@.subrange(i as int, i + url_prefix().len()) =~= url_prefix());
    }
    true
}

/// Attempts the URL pattern at position `i`. On success, returns the
/// bounds `(c_start, c_end, m_start, m_end)` of the channel and message
/// digit segments.
fn try_match_at(s: &str, i: usize) -> (r: Option<(usize, usize, usize, usize)>)
    requires
        i <= s@.len(),
    ensures
        r is Some <==> match_at(s@, i as int),
        (r matches Some(t) ==> {
            let p = url_prefix().len() as int;
            let g_end = digit_run_end(s@, i + p);
            let c_end = digit_run_end(s@, g_end + 1);
            let m_end = digit_run_end(s@, c_end + 1);
            t.0 == g_end + 1 && t.1 == c_end && t.2 == c_end + 1 && t.3 == m_end
        }),
{
    if !prefix_matches_at(s, i) {
        return None;
    }
    proof {
        reveal_strlit("https://discord.com/channels/");
    }
    let plen = "https://discord.com/channels/".unicode_len();
    let n = s.unicode_len();
    let g_end = digit_run_end_exec(s, i + plen);
    if g_end == i + plen || g_end >= n {
        return None;
    }
    if s.get_char(g_end) != '/' {
        return None;
    }
    let c_start = g_end + 1;
    let c_end = digit_run_end_exec(s, c_start);
    if c_end == c_start || c_end >= n {
        return None;
    }
    if s.get_char(c_end) != '/' {
        return None;
    }
    let m_start = c_end + 1;
    let m_end = digit_run_end_exec(s, m_start);
    if m_end == m_start {
        return None;
    }
    Some((c_start, c_end, m_start, m_end))
}

/// Parses a message reference out of a bare ID or a message URL.
///
/// A string of decimal digits only is rejected as ambiguous: a bare
/// message ID cannot be resolved to a channel. Otherwise the input is
/// scanned for the URL pattern; the earliest match yields the channel and
/// message identifiers. Anything else — including a matched segment that
/// is zero or too large for 64 bits — is an invalid format.
pub fn parse_message_identifier(message_identifier: &str) -> (r: Result<
    MessageReference,
    ParseError,
>)
    ensures
        r == parse_spec(message_identifier@),
        all_dec_digits(message_identifier@) ==> r == Err::<MessageReference, ParseError>(
            ParseError::AmbiguousIdentifier,
        ),
        (r matches Ok(m) ==> m.wf()),
{
    let ghost sv = message_identifier@;
    if all_digits_exec(message_identifier) {
        return Err(ParseError::AmbiguousIdentifier);
    }
    let n = message_identifier.unicode_len();
    let mut i: usize = 0;
    while i < n
        invariant
            0 <= i <= n == sv.len(),
            sv == message_identifier@,
            !all_dec_digits(sv),
            first_match_from(sv, 0) == first_match_from(sv, i as int),
        decreases n - i,
    {
        match try_match_at(message_identifier, i) {
            Some(bounds) => {
                let (c_start, c_end, m_start, m_end) = bounds;
                proof {
                    assert(first_match_from(sv, i as int) == Some(i as int));
                    let p = url_prefix().len() as int;
                    lemma_digit_run_end(sv, i + p);
                    let g_end = digit_run_end(sv, i + p);
                    lemma_digit_run_end(sv, g_end + 1);
                    let ce = digit_run_end(sv, g_end + 1);
                    lemma_digit_run_end(sv, ce + 1);
                }
                let cv = parse_digit_range(message_identifier, c_start, c_end);
                let mv = parse_digit_range(message_identifier, m_start, m_end);
                match (cv, mv) {
                    (Some(c), Some(m)) => {
                        if c > 0 && m > 0 {
                            return Ok(MessageReference { channel_id: c, message_id: m });
                        } else {
                            return Err(ParseError::InvalidFormat);
                        }
                    },
                    _ => {
                        return Err(ParseError::InvalidFormat);
                    },
                }
            },
            None => {},
        }
        i = i + 1;
    }
    Err(ParseError::InvalidFormat)
}

/// The canonical message URL carrying a (guild, channel, message) triple.
pub open spec fn url_of(guild_id: nat, channel_id: nat, message_id: nat) -> Seq<char> {
    url_prefix() + dec_rep(guild_id) + seq!['/'] + dec_rep(channel_id) + seq!['/'] + dec_rep(
        message_id,
    )
}

/// Renders the canonical URL of `reference` within the guild `guild_id`.
pub fn format_message_url(guild_id: u64, reference: &MessageReference) -> (r: String)
    ensures
        r@ == url_of(guild_id as nat, reference.channel_id as nat, reference.message_id as nat),
{
    let mut r = String::from_str("https://discord.com/channels/");
    let g = u64_to_dec_string(guild_id);
    let c = u64_to_dec_string(reference.channel_id);
    let m = u64_to_dec_string(reference.message_id);
    r.append(g.as_str());
    r.append("/");
    r.append(c.as_str());
    r.append("/");
    r.append(m.as_str());
    proof {
        reveal_strlit("/");
        assert("/"@ =~= seq!['/']);
        assert(r@ =~= url_of(
            guild_id as nat,
            reference.channel_id as nat,
            reference.message_id as nat,
        ));
    }
    r
}

/// Round trip: parsing the canonical URL rendered from a well-formed
/// reference reproduces exactly that reference, whatever the guild.
pub proof fn lemma_parse_format_round_trip(guild_id: u64, reference: MessageReference)
    requires
        reference.wf(),
    ensures
        parse_spec(
            url_of(guild_id as nat, reference.channel_id as nat, reference.message_id as nat),
        ) == Ok::<MessageReference, ParseError>(reference),
{
    let g = dec_rep(guild_id as nat);
    let c = dec_rep(reference.channel_id as nat);
    let m = dec_rep(reference.message_id as nat);
    let s = url_of(guild_id as nat, reference.channel_id as nat, reference.message_id as nat);
    lemma_dec_rep_digits(guild_id as nat);
    lemma_dec_rep_digits(reference.channel_id as nat);
    lemma_dec_rep_digits(reference.message_id as nat);
    lemma_digits_val_dec_rep(reference.channel_id as nat);
    lemma_digits_val_dec_rep(reference.message_id as nat);
    reveal_strlit("https://discord.com/channels/");
    let p = url_prefix().len() as int;
    assert(p == 29);
    let g_end = p + g.len() as int;
    let c_end = g_end + 1 + c.len() as int;
    let m_end = c_end + 1 + m.len() as int;
    assert(s.len() == m_end);
    // The layout of the rendered URL.
    assert(s.subrange(0, p) =~= url_prefix());
    assert forall|k: int| 0 <= k < g.len() implies s[p + k] == g[k] by {}
    assert(s[g_end] == '/');
    assert forall|k: int| 0 <= k < c.len() implies s[g_end + 1 + k] == c[k] by {}
    assert(s[c_end] == '/');
    assert forall|k: int| 0 <= k < m.len() implies s[c_end + 1 + k] == m[k] by {}
    // The input is not a bare digit string.
    assert(s[0] == 'h');
    assert(!is_dec_digit('h'));
    assert(!all_dec_digits(s));
    // The three digit runs end exactly at the separators and at the end.
    assert(!is_dec_digit('/'));
    assert forall|k: int| p <= k < g_end implies is_dec_digit(#[trigger] s[k]) by {
        assert(s[k] == g[k - p]);
    }
    lemma_digit_run_end_exact(s, p, g_end);
    assert forall|k: int| g_end + 1 <= k < c_end implies is_dec_digit(#[trigger] s[k]) by {
        assert(s[k] == c[k - (g_end + 1)]);
    }
    lemma_digit_run_end_exact(s, g_end + 1, c_end);
    assert forall|k: int| c_end + 1 <= k < m_end implies is_dec_digit(#[trigger] s[k]) by {
        assert(s[k] == m[k - (c_end + 1)]);
    }
    lemma_digit_run_end_exact(s, c_end + 1, m_end);
    // The pattern therefore matches at the start, and nothing earlier can.
    assert(match_at(s, 0));
    assert(first_match_from(s, 0) == Some(0int));
    // The captured segments are the rendered channel and message digits.
    assert(channel_digits(s, 0) =~= c);
    assert(message_digits(s, 0) =~= m);
    assert(digits_val(c) == reference.channel_id as nat);
    assert(digits_val(m) == reference.message_id as nat);
}

} // verus!
