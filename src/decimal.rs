//! Signed decimal integers as ASCII bytes: an optional `+` or `-`, then at
//! least one digit, nothing else (the form that `str::parse::<i64>` takes).

use vstd::prelude::*;

verus! {

pub const PLUS: u8 = 43;
pub const MINUS: u8 = 45;
pub const ZERO: u8 = 48;

pub open spec fn is_digit(b: u8) -> bool {
    ZERO <= b && b <= ZERO + 9
}

pub open spec fn all_digits(s: Seq<u8>) -> bool {
    forall|i: int| 0 <= i < s.len() ==> is_digit(#[trigger] s[i])
}

/// The number that a run of decimal digits spells, most significant first.
pub open spec fn digits_value(s: Seq<u8>) -> int
    decreases s.len(),
{
    if s.len() == 0 {
        0
    } else {
        digits_value(s.drop_last()) * 10 + (s.last() - ZERO)
    }
}

/// The shortest decimal digits of `n`.
pub open spec fn decimal_digits(n: nat) -> Seq<u8>
    decreases n,
{
    if n < 10 {
        seq![(ZERO + n) as u8]
    } else {
        decimal_digits(n / 10).push((ZERO + n % 10) as u8)
    }
}

/// How `v` is written in the store: a `-` before negative values, no sign
/// before the others, and no leading zeros.
pub open spec fn spelled(v: int) -> Seq<u8> {
    if v < 0 {
        seq![MINUS] + decimal_digits((-v) as nat)
    } else {
        decimal_digits(v as nat)
    }
}

pub open spec fn sign_len(s: Seq<u8>) -> int {
    if s.len() > 0 && (s[0] == PLUS || s[0] == MINUS) {
        1
    } else {
        0
    }
}

pub open spec fn magnitude(s: Seq<u8>) -> Seq<u8> {
    s.subrange(sign_len(s), s.len() as int)
}

/// An optional sign followed by at least one digit.
pub open spec fn is_integer_text(s: Seq<u8>) -> bool {
    magnitude(s).len() > 0 && all_digits(magnitude(s))
}

/// The value of integer text, whatever its size.
pub open spec fn text_value(s: Seq<u8>) -> int {
    if s.len() > 0 && s[0] == MINUS {
        -digits_value(magnitude(s))
    } else {
        digits_value(magnitude(s))
    }
}

/// The `i64` that the bytes `s` spell, if they spell one.
pub open spec fn decoded(s: Seq<u8>) -> Option<i64> {
    if is_integer_text(s) && i64::MIN <= text_value(s) <= i64::MAX {
        Some(text_value(s) as i64)
    } else {
        None
    }
}

proof fn lemma_digits_value_nonneg(s: Seq<u8>)
    requires
        all_digits(s),
    ensures
        digits_value(s) >= 0,
    decreases s.len(),
{
    if s.len() > 0 {
        lemma_digits_value_nonneg(s.drop_last());
    }
}

/// Appending digits never makes the spelled number smaller.
proof fn lemma_digits_value_prefix(s: Seq<u8>, i: int)
    requires
        all_digits(s),
        0 <= i <= s.len(),
    ensures
        digits_value(s.take(i)) <= digits_value(s),
    decreases s.len(),
{
    if i < s.len() {
        let t = s.drop_last();
        assert(t.take(i) =~= s.take(i));
        lemma_digits_value_prefix(t, i);
        lemma_digits_value_nonneg(t);
    } else {
        assert(s.take(i) =~= s);
    }
}

proof fn lemma_decimal_digits(n: nat)
    ensures
        decimal_digits(n).len() > 0,
        all_digits(decimal_digits(n)),
        digits_value(decimal_digits(n)) == n,
    decreases n,
{
    let d = decimal_digits(n);
    if n >= 10 {
        lemma_decimal_digits(n / 10);
        assert(d.drop_last() =~= decimal_digits(n / 10));
        assert(d.last() - ZERO == n % 10);
        assert((n / 10) * 10 + n % 10 == n);
    } else {
        assert(d.drop_last() =~= Seq::<u8>::empty());
        assert(digits_value(d.drop_last()) == 0);
        assert(d.last() - ZERO == n);
    }
}

/// Parsing what [`encode_i64`] writes gives back the value written.
pub proof fn lemma_decode_spelled(v: i64)
    ensures
        decoded(spelled(v as int)) == Some(v),
{
    let s = spelled(v as int);
    if v < 0 {
        let d = decimal_digits((-v) as nat);
        lemma_decimal_digits((-v) as nat);
        assert(magnitude(s) =~= d);
    } else {
        let d = decimal_digits(v as nat);
        lemma_decimal_digits(v as nat);
        assert(is_digit(d[0]));
        assert(magnitude(s) =~= d);
    }
}

/// Reads a signed decimal integer: `None` unless the bytes are exactly an
/// optional sign and digits whose value lies in the range of `i64`.
pub fn parse_i64(text: &[u8]) -> (r: Option<i64>)
    ensures
        r == decoded(text@),
{
    let n = text.len();
    let negative = n > 0 && text[0] == MINUS;
    let start: usize = if n > 0 && (text[0] == PLUS || text[0] == MINUS) { 1 } else { 0 };
    proof {
        assert(start == sign_len(text@));
    }
    if start >= n {
        proof {
            assert(magnitude(text@).len() == 0);
        }
        return None;
    }
    let limit: i128 = 0x8000_0000_0000_0000;
    let mut acc: i128 = 0;
    let mut i: usize = start;
    while i < n
        invariant
            start <= i <= n,
            n == text@.len(),
            start == sign_len(text@),
            limit == 0x8000_0000_0000_0000,
            0 <= acc <= limit,
            all_digits(text@.subrange(start as int, i as int)),
            acc == digits_value(text@.subrange(start as int, i as int)),
        decreases n - i,
    {
        let b = text[i];
        if b < ZERO || b > ZERO + 9 {
            proof {
                let m = magnitude(text@);
                assert(m[i - start] == b);
            }
            return None;
        }
        proof {
            let t = text@.subrange(start as int, i + 1);
            assert(t.drop_last() =~= text@.subrange(start as int, i as int));
        }
        acc = acc * 10 + (b - ZERO) as i128;
        i = i + 1;
        if acc > limit {
            proof {
                let m = magnitude(text@);
                let t = text@.subrange(start as int, i as int);
                if all_digits(m) {
                    assert(m.take(i - start) =~= t);
                    lemma_digits_value_prefix(m, i - start);
                }
            }
            return None;
        }
    }
    proof {
        assert(text@.subrange(start as int, n as int) =~= magnitude(text@));
    }
    if negative {
        Some((-acc) as i64)
    } else if acc < limit {
        Some(acc as i64)
    } else {
        None
    }
}

fn push_digits(n: u64, out: &mut Vec<u8>)
    ensures
        final(out)@ == old(out)@ + decimal_digits(n as nat),
    decreases n,
{
    if n >= 10 {
        push_digits(n / 10, out);
    }
    out.push(ZERO + (n % 10) as u8);
    proof {
        if n >= 10 {
            assert(decimal_digits(n as nat) =~= decimal_digits((n / 10) as nat).push((ZERO + n % 10) as u8));
        }
    }
}

/// The decimal spelling of `v`, which [`parse_i64`] reads back as `v`.
pub fn encode_i64(v: i64) -> (r: Vec<u8>)
    ensures
        r@ == spelled(v as int),
        decoded(r@) == Some(v),
{
    let mut out: Vec<u8> = Vec::new();
    let m: u64;
    if v < 0 {
        out.push(MINUS);
        m = (-(v as i128)) as u64;
    } else {
        m = v as u64;
    }
    push_digits(m, &mut out);
    proof {
        if v < 0 {
            assert(out@ =~= seq![MINUS] + decimal_digits((-v) as nat));
        } else {
            assert(out@ =~= decimal_digits(v as nat));
        }
        lemma_decode_spelled(v);
    }
    out
}

} // verus!
