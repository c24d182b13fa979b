//! Building blocks for the files that the service writes: the bytes of a
//! string, whole numbers and amounts in decimal notation.

use crate::decimal::{hundredths, Decimal};
use crate::param::digits_value;
use vstd::prelude::*;
use vstd::string::*;

verus! {

/// The bytes of a string.
pub open spec fn utf8(s: Seq<char>) -> Seq<u8> {
    vstd::utf8::encode_utf8(s)
}

/// The decimal digits of `n`, the most significant first.
pub open spec fn digits(n: nat) -> Seq<u8>
    decreases n,
{
    if n < 10 {
        seq![(48 + n) as u8]
    } else {
        digits(n / 10).push((48 + n % 10) as u8)
    }
}

/// An amount in decimal notation with two fractional digits, rounded to the
/// nearest hundredth.
pub open spec fn money_digits(units: int) -> Seq<u8> {
    let h = hundredths(units);
    digits((h / 100) as nat) + seq![46u8, (48 + (h % 100) / 10) as u8, (48 + h % 10) as u8]
}

/// Appends the bytes of `s`.
pub fn push_str(out: &mut Vec<u8>, s: &str)
    ensures
        final(out)@ == old(out)@ + utf8(s@),
{
    let b = s.as_bytes();
    out.extend_from_slice(b);
    assert(out@ =~= old(out)@ + utf8(s@));
}

/// Appends `n` in decimal notation.
pub fn push_decimal(out: &mut Vec<u8>, n: u128)
    ensures
        final(out)@ == old(out)@ + digits(n as nat),
    decreases n,
{
    if n >= 10 {
        push_decimal(out, n / 10);
    }
    let d: u8 = (n % 10) as u8;
    out.push(48 + d);
    assert(out@ =~= old(out)@ + digits(n as nat));
}

/// Appends an amount with two fractional digits.
pub fn push_money(out: &mut Vec<u8>, amount: Decimal)
    ensures
        final(out)@ == old(out)@ + money_digits(amount.units as int),
{
    let h: u64 = amount.to_hundredths();
    push_decimal(out, (h / 100) as u128);
    out.push(46);
    let cents: u64 = h % 100;
    out.push(48 + (cents / 10) as u8);
    out.push(48 + (cents % 10) as u8);
    assert((h % 100) % 10 == h % 10) by (nonlinear_arith);
    assert(out@ =~= old(out)@ + money_digits(amount.units as int));
}

/// The character of the decimal digit `d`.
pub open spec fn digit_char(d: nat) -> char {
    if d == 0 {
        '0'
    } else if d == 1 {
        '1'
    } else if d == 2 {
        '2'
    } else if d == 3 {
        '3'
    } else if d == 4 {
        '4'
    } else if d == 5 {
        '5'
    } else if d == 6 {
        '6'
    } else if d == 7 {
        '7'
    } else if d == 8 {
        '8'
    } else {
        '9'
    }
}

/// The decimal notation of `n` as text.
pub open spec fn decimal_chars(n: nat) -> Seq<char>
    decreases n,
{
    if n < 10 {
        seq![digit_char(n)]
    } else {
        decimal_chars(n / 10).push(digit_char(n % 10))
    }
}

fn digit_str(d: u32) -> (s: &'static str)
    requires
        d < 10,
    ensures
        s@ == seq![digit_char(d as nat)],
{
    proof {
        reveal_strlit("0");
        reveal_strlit("1");
        reveal_strlit("2");
        reveal_strlit("3");
        reveal_strlit("4");
        reveal_strlit("5");
        reveal_strlit("6");
        reveal_strlit("7");
        reveal_strlit("8");
        reveal_strlit("9");
    }
    let s = if d == 0 {
        "0"
    } else if d == 1 {
        "1"
    } else if d == 2 {
        "2"
    } else if d == 3 {
        "3"
    } else if d == 4 {
        "4"
    } else if d == 5 {
        "5"
    } else if d == 6 {
        "6"
    } else if d == 7 {
        "7"
    } else if d == 8 {
        "8"
    } else {
        "9"
    };
    assert(s@ =~= seq![digit_char(d as nat)]);
    s
}

/// Appends the decimal notation of `n` to a string.
pub fn append_decimal(out: &mut String, n: u32)
    ensures
        final(out)@ == old(out)@ + decimal_chars(n as nat),
    decreases n,
{
    if n >= 10 {
        append_decimal(out, n / 10);
    }
    out.append(digit_str(n % 10));
    assert(out@ =~= old(out)@ + decimal_chars(n as nat));
}

/// The decimal notation of `n`.
pub fn decimal_text(n: u32) -> (s: String)
    ensures
        s@ == decimal_chars(n as nat),
{
    let mut s = String::new();
    append_decimal(&mut s, n);
    assert(s@ =~= decimal_chars(n as nat));
    s
}

/// Whether two byte strings are equal.
pub fn bytes_eq(a: &[u8], b: &[u8]) -> (r: bool)
    ensures
        r == (a@ == b@),
{
    if a.len() != b.len() {
        return false;
    }
    let mut i: usize = 0;
    while i < a.len()
        invariant
            i <= a@.len(),
            a@.len() == b@.len(),
            forall|j: int| 0 <= j < i ==> a@[j] == b@[j],
        decreases a@.len() - i,
    {
        if a[i] != b[i] {
            return false;
        }
        i += 1;
    }
    assert(a@ =~= b@);
    true
}

/// The bytes of `s` from `from` up to `to`.
pub fn copy_range(s: &[u8], from: usize, to: usize) -> (v: Vec<u8>)
    requires
        from <= to <= s@.len(),
    ensures
        v@ == s@.subrange(from as int, to as int),
{
    let mut v: Vec<u8> = Vec::new();
    let mut i: usize = from;
    while i < to
        invariant
            from <= i <= to <= s@.len(),
            v@ == s@.subrange(from as int, i as int),
        decreases to - i,
    {
        v.push(s[i]);
        assert(v@ =~= s@.subrange(from as int, i + 1));
        i += 1;
    }
    assert(v@ =~= s@.subrange(from as int, to as int));
    v
}

/// What is written of a number is decimal digits, at least one, and reads
/// back as that number.
pub proof fn lemma_digits_read_back(n: nat)
    ensures
        digits(n).len() > 0,
        forall|i: int| 0 <= i < digits(n).len() ==> 48 <= #[trigger] digits(n)[i] <= 57,
        digits_value(digits(n)) == n,
    decreases n,
{
    if n < 10 {
        assert(digits(n) =~= seq![(48 + n) as u8]);
        assert(digits(n).drop_last() =~= Seq::<u8>::empty());
        assert(digits_value(Seq::<u8>::empty()) == 0);
        assert(digits(n).last() == (48 + n) as u8);
    } else {
        lemma_digits_read_back(n / 10);
        let d = digits(n);
        assert(d == digits(n / 10).push((48 + n % 10) as u8));
        assert(d.drop_last() =~= digits(n / 10));
        assert(d.last() == (48 + n % 10) as u8);
        assert forall|i: int| 0 <= i < d.len() implies 48 <= #[trigger] d[i] <= 57 by {
            if i < d.len() - 1 {
                assert(d[i] == digits(n / 10)[i]);
            }
        }
        assert((n / 10) * 10 + n % 10 == n) by (nonlinear_arith);
    }
}

/// Different numbers are written differently.
pub proof fn lemma_digits_differ(a: nat, b: nat)
    requires
        digits(a) == digits(b),
    ensures
        a == b,
{
    lemma_digits_read_back(a);
    lemma_digits_read_back(b);
}

} // verus!
