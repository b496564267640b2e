//! Decimal integer text, as accepted by the standard unsigned integer parsers.
use vstd::prelude::*;
use crate::text::{utf8, is_digit};

verus! {

/// The value of a sequence of decimal digit bytes.
pub open spec fn digits_value(d: Seq<u8>) -> nat
    decreases d.len(),
{
    if d.len() == 0 {
        0
    } else {
        digits_value(d.drop_last()) * 10 + (d.last() - 0x30) as nat
    }
}

/// The digit part of unsigned decimal text: an optional leading `+` is skipped.
pub open spec fn unsigned_digits(v: Seq<u8>) -> Seq<u8> {
    if v.len() > 0 && v[0] == 0x2b { v.skip(1) } else { v }
}

/// Whether `v` is unsigned decimal text whose value fits below `bound`.
pub open spec fn parses_below(v: Seq<u8>, bound: nat) -> bool {
    let d = unsigned_digits(v);
    &&& d.len() > 0
    &&& forall|i: int| 0 <= i < d.len() ==> is_digit(#[trigger] d[i])
    &&& digits_value(d) < bound
}

proof fn lemma_digits_value_monotone(d: Seq<u8>, k: int)
    requires
        0 <= k <= d.len(),
        forall|i: int| 0 <= i < d.len() ==> is_digit(#[trigger] d[i]),
    ensures
        digits_value(d.subrange(0, k)) <= digits_value(d),
    decreases d.len() - k,
{
    if k < d.len() {
        lemma_digits_value_monotone(d, k + 1);
        let s = d.subrange(0, k + 1);
        assert(s.drop_last() =~= d.subrange(0, k));
    } else {
        assert(d.subrange(0, k) =~= d);
    }
}

/// Parses unsigned decimal text as `u64::from_str` does: an optional `+`,
/// then at least one digit, with no overflow.
pub fn parse_u64(s: &str) -> (res: Option<u64>)
    ensures
        match res {
            Some(n) => parses_below(utf8(s@), 0x1_0000_0000_0000_0000) && n == digits_value(unsigned_digits(utf8(s@))),
            None => !parses_below(utf8(s@), 0x1_0000_0000_0000_0000),
        },
{
    let bytes = s.as_bytes();
    let ghost v = bytes@;
    let start: usize = if bytes.len() > 0 && bytes[0] == 0x2b { 1 } else { 0 };
    let ghost d = unsigned_digits(v);
    assert(d =~= v.skip(start as int));
    if start >= bytes.len() {
        return None;
    }
    let mut value: u64 = 0;
    let mut i = start;
    while i < bytes.len()
        invariant
            start <= i <= bytes@.len(),
            v == bytes@,
            v == utf8(s@),
            d == unsigned_digits(v),
            d == v.skip(start as int),
            start < v.len(),
            forall|j: int| start <= j < i ==> is_digit(#[trigger] v[j]),
            value == digits_value(v.subrange(start as int, i as int)),
        decreases bytes@.len() - i,
    {
        let b = bytes[i];
        if !(b >= 0x30 && b <= 0x39) {
            proof {
                assert(!is_digit(d[i - start]));
            }
            return None;
        }
        let digit = (b - 0x30) as u64;
        proof {
            let t = v.subrange(start as int, i as int + 1);
            assert(t.drop_last() =~= v.subrange(start as int, i as int));
        }
        if value > 1844674407370955161 || (value == 1844674407370955161 && digit > 5) {
            proof {
                let t = v.subrange(start as int, i as int + 1);
                assert(digits_value(t) == value * 10 + digit);
                if forall|j: int| 0 <= j < d.len() ==> is_digit(#[trigger] d[j]) {
                    lemma_digits_value_monotone(d, t.len() as int);
                    assert(d.subrange(0, t.len() as int) =~= t);
                }
            }
            return None;
        }
        value = value * 10 + digit;
        i += 1;
    }
    assert(v.subrange(start as int, v.len() as int) =~= d);
    Some(value)
}

/// Parses unsigned decimal text as `u16::from_str` does.
pub fn parse_u16(s: &str) -> (res: Option<u16>)
    ensures
        match res {
            Some(n) => parses_below(utf8(s@), 0x1_0000) && n == digits_value(unsigned_digits(utf8(s@))),
            None => !parses_below(utf8(s@), 0x1_0000),
        },
{
    match parse_u64(s) {
        Some(n) => {
            if n <= 0xffff {
                Some(n as u16)
            } else {
                None
            }
        },
        None => None,
    }
}


/// Canonical decimal text: digits only, without a redundant leading zero.
pub open spec fn canonical_decimal(d: Seq<u8>, n: nat) -> bool {
    &&& d.len() > 0
    &&& forall|i: int| 0 <= i < d.len() ==> is_digit(#[trigger] d[i])
    &&& (d.len() == 1 || d[0] != 0x30)
    &&& digits_value(d) == n
}

/// Formats a 16-bit unsigned integer as canonical decimal text.
#[verifier::spinoff_prover]
#[verifier::rlimit(40)]
pub fn decimal_u16(n: u16) -> (res: Vec<u8>)
    ensures
        canonical_decimal(res@, n as nat),
{
    let d0 = (n / 10000) as u8;
    let d1 = ((n / 1000) % 10) as u8;
    let d2 = ((n / 100) % 10) as u8;
    let d3 = ((n / 10) % 10) as u8;
    let d4 = (n % 10) as u8;
    let mut out: Vec<u8> = Vec::new();
    if n >= 10000 {
        out.push(d0 + 0x30);
    }
    if n >= 1000 {
        out.push(d1 + 0x30);
    }
    if n >= 100 {
        out.push(d2 + 0x30);
    }
    if n >= 10 {
        out.push(d3 + 0x30);
    }
    out.push(d4 + 0x30);
    proof {
        let v = out@;
        reveal_with_fuel(digits_value, 6);
        if n >= 10000 {
            assert(v =~= seq![(d0 + 0x30) as u8, (d1 + 0x30) as u8, (d2 + 0x30) as u8, (d3 + 0x30) as u8, (d4 + 0x30) as u8]);
            assert(v.drop_last().drop_last().drop_last().drop_last() =~= seq![(d0 + 0x30) as u8]);
            assert(v.drop_last().drop_last().drop_last().drop_last().drop_last() =~= Seq::<u8>::empty());
        } else if n >= 1000 {
            assert(v =~= seq![(d1 + 0x30) as u8, (d2 + 0x30) as u8, (d3 + 0x30) as u8, (d4 + 0x30) as u8]);
            assert(v.drop_last().drop_last().drop_last().drop_last() =~= Seq::<u8>::empty());
        } else if n >= 100 {
            assert(v =~= seq![(d2 + 0x30) as u8, (d3 + 0x30) as u8, (d4 + 0x30) as u8]);
            assert(v.drop_last().drop_last().drop_last() =~= Seq::<u8>::empty());
        } else if n >= 10 {
            assert(v =~= seq![(d3 + 0x30) as u8, (d4 + 0x30) as u8]);
            assert(v.drop_last().drop_last() =~= Seq::<u8>::empty());
        } else {
            assert(v =~= seq![(d4 + 0x30) as u8]);
            assert(v.drop_last() =~= Seq::<u8>::empty());
        }
    }
    out
}

/// The decimal digit character of a value below ten.
pub open spec fn digit_char(d: nat) -> char {
    (d + 48) as char
}

/// Canonical decimal text of a natural number, most significant digit first.
pub open spec fn decimal_text(n: nat) -> Seq<char>
    decreases n,
{
    if n < 10 {
        seq![digit_char(n)]
    } else {
        decimal_text(n / 10).push(digit_char(n % 10))
    }
}

fn digit_string(d: u64) -> (res: &'static str)
    requires
        d < 10,
    ensures
        res@ == seq![digit_char(d as nat)],
{
    proof {
        reveal_strlit("0");
        reveal_strlit("1");
        reveal_strlit("2");
        reveal_strlit("3");
        reveal_strlit("4");
        reveal_strlit("5");
        reveal_strlit("6");
        reveal_strlit("7");
        reveal_strlit("8");
        reveal_strlit("9");
    }
    if d == 0 { "0" } else if d == 1 { "1" } else if d == 2 { "2" } else if d == 3 { "3" }
    else if d == 4 { "4" } else if d == 5 { "5" } else if d == 6 { "6" } else if d == 7 { "7" }
    else if d == 8 { "8" } else { "9" }
}

/// Formats an unsigned integer as canonical decimal text.
pub fn decimal_string(n: u64) -> (res: String)
    ensures
        res@ == decimal_text(n as nat),
    decreases n,
{
    if n < 10 {
        digit_string(n).to_owned()
    } else {
        let mut text = decimal_string(n / 10);
        text.append(digit_string(n % 10));
        text
    }
}

} // verus!
