//! Decimal digits: the spec-level value of a digit string, the decimal
//! rendering of a number, and verified executable conversions between the
//! two.

use vstd::prelude::*;

verus! {

/// `c` is one of the ten decimal digit characters.
pub open spec fn is_dec_digit(c: char) -> bool {
    '0' <= c && c <= '9'
}

/// The numeric value of a digit character.
pub open spec fn digit_val(c: char) -> nat {
    (c as u32 - '0' as u32) as nat
}

/// Every character of `s` is a decimal digit.
pub open spec fn all_dec_digits(s: Seq<char>) -> bool {
    forall|i: int| 0 <= i < s.len() ==> is_dec_digit(#[trigger] s[i])
}

/// The numeric value of a digit string, most significant digit first.
/// The empty string has value zero.
pub open spec fn digits_val(s: Seq<char>) -> nat
    decreases s.len(),
{
    if s.len() == 0 {
        0
    } else {
        10 * digits_val(s.drop_last()) + digit_val(s.last())
    }
}

/// The digit character of a value below ten.
pub open spec fn digit_char(d: nat) -> char {
    if d == 0 {
        '0'
    } else if d == 1 {
        '1'
    } else if d == 2 {
        '2'
    } else if d == 3 {
        '3'
    } else if d == 4 {
        '4'
    } else if d == 5 {
        '5'
    } else if d == 6 {
        '6'
    } else if d == 7 {
        '7'
    } else if d == 8 {
        '8'
    } else {
        '9'
    }
}

/// The decimal rendering of `n`: nonempty, most significant digit first,
/// with no leading zero unless `n` itself is zero.
pub open spec fn dec_rep(n: nat) -> Seq<char>
    decreases n,
{
    if n < 10 {
        seq![digit_char(n)]
    } else {
        dec_rep(n / 10).push(digit_char(n % 10))
    }
}

/// A decimal rendering is nonempty and consists of digit characters.
pub proof fn lemma_dec_rep_digits(n: nat)
    ensures
        dec_rep(n).len() >= 1,
        all_dec_digits(dec_rep(n)),
    decreases n,
{
    if n < 10 {
        assert(is_dec_digit(dec_rep(n)[0]));
    } else {
        lemma_dec_rep_digits(n / 10);
        let x = dec_rep(n / 10);
        let c = digit_char(n % 10);
        assert forall|i: int| 0 <= i < dec_rep(n).len() implies is_dec_digit(#[trigger] dec_rep(n)[i]) by {
            if i < x.len() {
                assert(dec_rep(n)[i] == x[i]);
            } else {
                assert(dec_rep(n)[i] == c);
            }
        }
    }
}

/// Reading the decimal rendering of `n` back gives `n`.
pub proof fn lemma_digits_val_dec_rep(n: nat)
    ensures
        digits_val(dec_rep(n)) == n,
    decreases n,
{
    if n < 10 {
        let s = dec_rep(n);
        assert(s.drop_last() =~= Seq::<char>::empty());
        assert(digits_val(Seq::<char>::empty()) == 0);
        assert(digit_val(digit_char(n)) == n);
        assert(digits_val(s) == 10 * digits_val(s.drop_last()) + digit_val(s.last()));
    } else {
        lemma_digits_val_dec_rep(n / 10);
        let x = dec_rep(n / 10);
        let c = digit_char(n % 10);
        assert(x.push(c).drop_last() =~= x);
        assert(x.push(c).last() == c);
        assert(digit_val(c) == n % 10);
    }
}

/// Extending a digit string on the right cannot decrease its value.
pub proof fn lemma_digits_val_take_le(s: Seq<char>, i: int, j: int)
    requires
        0 <= i <= j <= s.len(),
    ensures
        digits_val(s.take(i)) <= digits_val(s.take(j)),
    decreases j - i,
{
    if i < j {
        lemma_digits_val_take_le(s, i, j - 1);
        assert(s.take(j).drop_last() =~= s.take(j - 1));
        assert(digits_val(s.take(j)) == 10 * digits_val(s.take(j - 1)) + digit_val(s.take(j).last()));
    }
}

/// The digit character of `d` as a one-character string slice.
fn digit_str(d: u64) -> (r: &'static str)
    requires
        d < 10,
    ensures
        r@ == seq![digit_char(d as nat)],
{
    proof {
        reveal_strlit("0");
        reveal_strlit("1");
        reveal_strlit("2");
        reveal_strlit("3");
        reveal_strlit("4");
        reveal_strlit("5");
        reveal_strlit("6");
        reveal_strlit("7");
        reveal_strlit("8");
        reveal_strlit("9");
    }
    let r: &'static str = if d == 0 {
        "0"
    } else if d == 1 {
        "1"
    } else if d == 2 {
        "2"
    } else if d == 3 {
        "3"
    } else if d == 4 {
        "4"
    } else if d == 5 {
        "5"
    } else if d == 6 {
        "6"
    } else if d == 7 {
        "7"
    } else if d == 8 {
        "8"
    } else {
        "9"
    };
    proof {
        assert(r@ =~= seq![digit_char(d as nat)]);
    }
    r
}

/// Renders `n` in decimal.
pub fn u64_to_dec_string(n: u64) -> (r: String)
    ensures
        r@ == dec_rep(n as nat),
    decreases n,
{
    if n < 10 {
        String::from_str(digit_str(n))
    } else {
        let mut r = u64_to_dec_string(n / 10);
        r.append(digit_str(n % 10));
        proof {
            assert(r@ =~= dec_rep((n / 10) as nat).push(digit_char((n % 10) as nat)));
        }
        r
    }
}

/// Reads the decimal value of the digit characters `s[start..end]`.
/// Returns `None` exactly when the value does not fit in a `u64`.
pub fn parse_digit_range(s: &str, start: usize, end: usize) -> (r: Option<u64>)
    requires
        start <= end <= s@.len(),
        all_dec_digits(s@.subrange(start as int, end as int)),
    ensures
        (match r {
            Some(v) => v as nat == digits_val(s@.subrange(start as int, end as int)),
            None => digits_val(s@.subrange(start as int, end as int)) > u64::MAX,
        }),
{
    let ghost t = s@.subrange(start as int, end as int);
    let mut val: u64 = 0;
    let mut i: usize = start;
    while i < end
        invariant
            start <= i <= end <= s@.len(),
            all_dec_digits(t),
            t == s@.subrange(start as int, end as int),
            val as nat == digits_val(t.take(i - start)),
        decreases end - i,
    {
        let c = s.get_char(i);
        proof {
            assert(c == t[i - start]);
            assert(is_dec_digit(t[i - start]));
        }
        let d = (c as u32 - '0' as u32) as u64;
        let ghost k = i - start;
        proof {
            assert(t.take(k + 1).drop_last() =~= t.take(k));
            assert(t.take(k + 1).last() == t[k]);
            assert(digits_val(t.take(k + 1)) == 10 * digits_val(t.take(k)) + digit_val(t[k]));
        }
        let next = match val.checked_mul(10) {
            Some(m) => m.checked_add(d),
            None => None,
        };
        match next {
            Some(v) => {
                val = v;
                i = i + 1;
            },
            None => {
                proof {
                    assert(digits_val(t.take(k + 1)) > u64::MAX);
                    lemma_digits_val_take_le(t, k + 1, t.len() as int);
                    assert(t.take(t.len() as int) =~= t);
                }
                return None;
            },
        }
    }
    proof {
        assert(t.take(t.len() as int) =~= t);
    }
    Some(val)
}

} // verus!
