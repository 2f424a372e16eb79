use vstd::prelude::*;

verus! {

pub open spec fn is_digit(c: u8) -> bool {
    48 <= c <= 57
}

pub open spec fn all_digits(s: Seq<u8>) -> bool {
    forall|i: int| 0 <= i < s.len() ==> is_digit(#[trigger] s[i])
}

/// The number that a run of ASCII digits spells in base ten.
pub open spec fn digits_value(s: Seq<u8>) -> int
    decreases s.len(),
{
    if s.len() == 0 {
        0
    } else {
        digits_value(s.drop_last()) * 10 + (s.last() - 48)
    }
}

/// A non-empty run of digits, negated where `negative`, whose value lies within `lo..=hi`.
pub open spec fn bounded_digits(s: Seq<u8>, negative: bool, lo: int, hi: int) -> Option<int> {
    let v = if negative { -digits_value(s) } else { digits_value(s) };
    if s.len() > 0 && all_digits(s) && lo <= v <= hi { Some(v) } else { None }
}

/// Decimal integer syntax of Rust's integer `FromStr`: an optional `+` (or `-` where the
/// type is signed) followed by one or more ASCII digits, with the value in `lo..=hi`.
pub open spec fn decimal_value(s: Seq<u8>, signed: bool, lo: int, hi: int) -> Option<int> {
    if s.len() == 0 {
        None
    } else if s[0] == 43u8 {
        bounded_digits(s.skip(1), false, lo, hi)
    } else if s[0] == 45u8 && signed {
        bounded_digits(s.skip(1), true, lo, hi)
    } else {
        bounded_digits(s, false, lo, hi)
    }
}

pub open spec fn decimal_i32(s: Seq<u8>) -> Option<int> {
    decimal_value(s, true, i32::MIN as int, i32::MAX as int)
}

pub open spec fn decimal_u8(s: Seq<u8>) -> Option<int> {
    decimal_value(s, false, 0, 255)
}

proof fn lemma_digits_value_nonneg(s: Seq<u8>)
    requires
        all_digits(s),
    ensures
        digits_value(s) >= 0,
    decreases s.len(),
{
    if s.len() > 0 {
        assert(all_digits(s.drop_last()));
        lemma_digits_value_nonneg(s.drop_last());
        assert(is_digit(s[s.len() - 1]));
    }
}

proof fn lemma_digits_value_grows(s: Seq<u8>, i: int, j: int)
    requires
        all_digits(s),
        0 <= i <= j <= s.len(),
    ensures
        digits_value(s.subrange(0, i)) <= digits_value(s.subrange(0, j)),
    decreases j - i,
{
    if i < j {
        lemma_digits_value_grows(s, i, j - 1);
        let t = s.subrange(0, j);
        assert(t.drop_last() =~= s.subrange(0, j - 1));
        assert(all_digits(s.subrange(0, j - 1)));
        lemma_digits_value_nonneg(s.subrange(0, j - 1));
        assert(is_digit(t[j - 1]));
    }
}

/// Value of the digits `b[lo..hi]`, or `None` where one is not a digit or the value
/// exceeds `cap`.
pub(crate) fn digits_upto(b: &[u8], lo: usize, hi: usize, cap: u64) -> (r: Option<u64>)
    requires
        lo <= hi <= b@.len(),
        cap <= 0x1_0000_0000,
    ensures
        r is Some <==> all_digits(b@.subrange(lo as int, hi as int)) && digits_value(
            b@.subrange(lo as int, hi as int),
        ) <= cap,
        r is Some ==> r->Some_0 as int == digits_value(b@.subrange(lo as int, hi as int)),
{
    let ghost s = b@.subrange(lo as int, hi as int);
    let mut acc: u64 = 0;
    let mut i: usize = lo;
    while i < hi
        invariant
            lo <= i <= hi <= b@.len(),
            s == b@.subrange(lo as int, hi as int),
            all_digits(s.subrange(0, i - lo)),
            acc as int == digits_value(s.subrange(0, i - lo)),
            acc <= cap,
            cap <= 0x1_0000_0000,
        decreases hi - i,
    {
        let c = b[i];
        if c < 48 || c > 57 {
            assert(s[i - lo] == c);
            return None;
        }
        proof {
            let t = s.subrange(0, i - lo + 1);
            assert(t.drop_last() =~= s.subrange(0, i - lo));
            assert(all_digits(t));
        }
        acc = acc * 10 + (c - 48) as u64;
        i = i + 1;
        if acc > cap {
            proof {
                if all_digits(s) {
                    lemma_digits_value_grows(s, i - lo, s.len() as int);
                    assert(s.subrange(0, s.len() as int) =~= s);
                }
            }
            return None;
        }
    }
    assert(s.subrange(0, hi - lo) =~= s);
    Some(acc)
}

/// Rust's `i32::from_str` on the bytes `b[lo..hi]`.
pub fn parse_i32(b: &[u8], lo: usize, hi: usize) -> (r: Option<i32>)
    requires
        lo <= hi <= b@.len(),
    ensures
        decimal_i32(b@.subrange(lo as int, hi as int)) == (match r {
            Some(v) => Some(v as int),
            None => None::<int>,
        }),
{
    let ghost s = b@.subrange(lo as int, hi as int);
    if lo == hi {
        return None;
    }
    let first = b[lo];
    if first == 43u8 || first == 45u8 {
        assert(s.skip(1) =~= b@.subrange(lo + 1, hi as int));
        let neg = first == 45u8;
        let cap: u64 = if neg { 0x8000_0000 } else { 0x7fff_ffff };
        match digits_upto(b, lo + 1, hi, cap) {
            Some(v) => {
                if lo + 1 == hi {
                    None
                } else if neg {
                    Some((0 - v as i64) as i32)
                } else {
                    Some(v as i32)
                }
            },
            None => None,
        }
    } else {
        match digits_upto(b, lo, hi, 0x7fff_ffff) {
            Some(v) => Some(v as i32),
            None => None,
        }
    }
}

/// Rust's `u8::from_str` on the bytes `b[lo..hi]`.
pub fn parse_u8(b: &[u8], lo: usize, hi: usize) -> (r: Option<u8>)
    requires
        lo <= hi <= b@.len(),
    ensures
        decimal_u8(b@.subrange(lo as int, hi as int)) == (match r {
            Some(v) => Some(v as int),
            None => None::<int>,
        }),
{
    let ghost s = b@.subrange(lo as int, hi as int);
    if lo == hi {
        return None;
    }
    let mut start = lo;
    if b[lo] == 43u8 {
        assert(s.skip(1) =~= b@.subrange(lo + 1, hi as int));
        if lo + 1 == hi {
            return None;
        }
        start = lo + 1;
    }
    match digits_upto(b, start, hi, 255) {
        Some(v) => Some(v as u8),
        None => None,
    }
}

} // verus!
