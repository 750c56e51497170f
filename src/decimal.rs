use vstd::prelude::*;

use crate::rand_data::{all_digits, digit_char, is_digit};
use crate::text::push_char;

verus! {

/// The value of a character that is a decimal digit.
pub open spec fn digit_value(c: char) -> nat {
    (c as u32 - 48) as nat
}

/// The value of a sequence of decimal digits, most significant first.
pub open spec fn digits_value(s: Seq<char>) -> nat
    decreases s.len(),
{
    if s.len() == 0 {
        0
    } else {
        digits_value(s.drop_last()) * 10 + digit_value(s.last())
    }
}

/// The canonical decimal text of `n`: no sign, no leading zero.
pub open spec fn dec(n: nat) -> Seq<char>
    decreases n,
{
    if n < 10 {
        seq![digit_char(n)]
    } else {
        dec(n / 10).push(digit_char(n % 10))
    }
}

/// The digits of a decimal text, after an optional `'+'`.
pub open spec fn unsigned_body(s: Seq<char>) -> Seq<char> {
    if s.len() > 0 && s[0] == '+' {
        s.drop_first()
    } else {
        s
    }
}

/// The number that a text spells as an unsigned decimal: an optional `'+'`, then one
/// or more digits; `None` for any other text.
pub open spec fn parse_num(s: Seq<char>) -> Option<nat> {
    let b = unsigned_body(s);
    if b.len() > 0 && all_digits(b) {
        Some(digits_value(b))
    } else {
        None
    }
}

/// The number that a text spells, where it is at most `max`.
pub open spec fn parse_at_most(s: Seq<char>, max: nat) -> Option<nat> {
    match parse_num(s) {
        Some(v) => if v <= max {
            Some(v)
        } else {
            None
        },
        None => None,
    }
}

/// The value of a prefix of a digit sequence is at most that of the whole.
pub proof fn lemma_digits_value_prefix(s: Seq<char>, i: int)
    requires
        0 <= i <= s.len(),
    ensures
        digits_value(s.take(i)) <= digits_value(s),
    decreases s.len(),
{
    if i < s.len() {
        assert(s.drop_last().take(i) =~= s.take(i));
        lemma_digits_value_prefix(s.drop_last(), i);
    } else {
        assert(s.take(i) =~= s);
    }
}

/// The canonical text of a number spells that number.
pub proof fn lemma_parse_dec(n: nat)
    ensures
        parse_num(dec(n)) == Some(n),
        dec(n).len() > 0,
        all_digits(dec(n)),
    decreases n,
{
    if n >= 10 {
        lemma_parse_dec(n / 10);
        assert(dec(n).drop_last() =~= dec(n / 10));
        assert(digit_value(digit_char(n % 10)) == n % 10);
        assert(digits_value(dec(n)) == n);
    } else {
        assert(dec(n).drop_last() =~= Seq::<char>::empty());
        assert(digit_value(digit_char(n)) == n);
        assert(digits_value(Seq::<char>::empty()) == 0);
        assert(dec(n).last() == digit_char(n));
        assert(digits_value(dec(n)) == n);
    }
    let d = dec(n);
    assert(d[0] != '+');
    assert(unsigned_body(d) == d);
    assert forall|i: int| 0 <= i < d.len() implies is_digit(#[trigger] d[i]) by {
        if n >= 10 && i < d.len() - 1 {
            assert(d[i] == dec(n / 10)[i]);
        }
    }
}

/// Appends the canonical decimal text of `n`.
pub fn push_decimal(out: &mut String, n: u32)
    ensures
        final(out)@ == old(out)@ + dec(n as nat),
    decreases n,
{
    if n >= 10 {
        push_decimal(out, n / 10);
    }
    let c = ((n % 10) as u8 + 48) as char;
    push_char(out, c);
    assert(final(out)@ =~= old(out)@ + dec(n as nat));
}

/// The canonical decimal text of `n`.
pub fn decimal_text(n: u32) -> (r: String)
    ensures
        r@ == dec(n as nat),
{
    let mut s = String::new();
    push_decimal(&mut s, n);
    assert(s@ =~= dec(n as nat));
    s
}

/// Reads an unsigned decimal of at most `max`, as `str::parse` reads an unsigned
/// integer: an optional `'+'`, then one or more digits.
pub fn parse_decimal(s: &str, max: u32) -> (r: Option<u32>)
    ensures
        match r {
            Some(v) => parse_at_most(s@, max as nat) == Some(v as nat),
            None => parse_at_most(s@, max as nat) is None,
        },
{
    let n = s.unicode_len();
    let mut i: usize = 0;
    if n > 0 && s.get_char(0) == '+' {
        i = 1;
    }
    let start = i;
    let ghost b = unsigned_body(s@);
    assert(b =~= s@.subrange(start as int, n as int));
    if start == n {
        return None;
    }
    let mut acc: u32 = 0;
    while i < n
        invariant
            n == s@.len(),
            start <= i <= n,
            b == s@.subrange(start as int, n as int),
            b == unsigned_body(s@),
            b.len() > 0,
            acc as nat == digits_value(b.take(i - start)),
            acc <= max,
            all_digits(b.take(i - start)),
        decreases n - i,
    {
        let c = s.get_char(i);
        if c < '0' || c > '9' {
            assert(b[i - start] == c);
            assert(!is_digit(b[i - start]));
            assert(!all_digits(b));
            assert(parse_num(s@) is None);
            return None;
        }
        let d: u32 = (c as u32) - 48;
        proof {
            assert(b.take(i - start + 1).drop_last() =~= b.take(i - start));
        }
        let next: u64 = (acc as u64) * 10 + (d as u64);
        if next > max as u64 {
            proof {
                assert(b[i - start] == c);
                assert(digits_value(b.take(i - start + 1)) == acc * 10 + d);
                lemma_digits_value_prefix(b, i - start + 1);
                if !all_digits(b) {
                } else {
                    assert(parse_num(s@) == Some(digits_value(b)));
                }
            }
            return None;
        }
        acc = next as u32;
        proof {
            assert(b[i - start] == c);
            assert(all_digits(b.take(i - start + 1)));
        }
        i = i + 1;
    }
    assert(b.take(n - start) =~= b);
    Some(acc)
}

} // verus!
