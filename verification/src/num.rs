//! Decimal integers in text: what `str::parse` accepts for an integer type,
//! and what `to_string` writes for one.

use vstd::prelude::*;

verus! {

pub open spec fn is_digit(c: char) -> bool {
    '0' <= c && c <= '9'
}

pub open spec fn digit_value(c: char) -> int {
    (c as int) - ('0' as int)
}

pub open spec fn all_digits(s: Seq<char>) -> bool {
    forall|i: int| 0 <= i < s.len() ==> is_digit(#[trigger] s[i])
}

/// The number a run of decimal digits denotes.
pub open spec fn digits_value(s: Seq<char>) -> int
    decreases s.len(),
{
    if s.len() == 0 {
        0
    } else {
        digits_value(s.drop_last()) * 10 + digit_value(s.last())
    }
}

/// What `str::parse` reads for a signed integer type before its range is
/// checked: an optional `+` or `-`, then one or more ASCII digits.
pub open spec fn parse_signed(s: Seq<char>) -> Option<int> {
    if s.len() > 0 && (s[0] == '+' || s[0] == '-') {
        let d = s.drop_first();
        if d.len() > 0 && all_digits(d) {
            Some(if s[0] == '-' { -digits_value(d) } else { digits_value(d) })
        } else {
            None
        }
    } else if s.len() > 0 && all_digits(s) {
        Some(digits_value(s))
    } else {
        None
    }
}

/// The same for an unsigned type: an optional `+`, then one or more digits.
pub open spec fn parse_unsigned(s: Seq<char>) -> Option<int> {
    if s.len() > 0 && s[0] == '-' {
        None
    } else {
        parse_signed(s)
    }
}

/// `s.parse::<i32>().ok()`.
pub open spec fn parse_i32(s: Seq<char>) -> Option<i32> {
    match parse_signed(s) {
        Some(v) => if i32::MIN <= v <= i32::MAX {
            Some(v as i32)
        } else {
            None
        },
        None => None,
    }
}

/// `s.parse::<u32>().ok()`.
pub open spec fn parse_u32(s: Seq<char>) -> Option<u32> {
    match parse_unsigned(s) {
        Some(v) => if v <= u32::MAX {
            Some(v as u32)
        } else {
            None
        },
        None => None,
    }
}

/// `s.parse::<u64>().ok()`.
pub open spec fn parse_u64(s: Seq<char>) -> Option<u64> {
    match parse_unsigned(s) {
        Some(v) => if v <= u64::MAX {
            Some(v as u64)
        } else {
            None
        },
        None => None,
    }
}

proof fn lemma_digits_value_nonneg(s: Seq<char>)
    requires
        all_digits(s),
    ensures
        digits_value(s) >= 0,
    decreases s.len(),
{
    if s.len() > 0 {
        lemma_digits_value_nonneg(s.drop_last());
    }
}

proof fn lemma_digits_value_prefix(s: Seq<char>, k: int)
    requires
        all_digits(s),
        0 <= k <= s.len(),
    ensures
        digits_value(s.take(k)) <= digits_value(s),
    decreases s.len() - k,
{
    if k < s.len() {
        lemma_digits_value_prefix(s.drop_last(), k);
        assert(s.drop_last().take(k) =~= s.take(k));
        lemma_digits_value_nonneg(s.drop_last());
    } else {
        assert(s.take(k) =~= s);
    }
}

/// Reads the digits of `s[from..]` into a number no larger than `limit`:
/// `None` when one is not a digit, when there are none, or when the number
/// is larger.
fn digits_upto(s: &[char], from: usize, limit: u128) -> (r: Option<u128>)
    requires
        from <= s@.len(),
        9 <= limit < 0x1000_0000_0000_0000_0000_0000_0000_0000,
    ensures
        ({
            let d = s@.skip(from as int);
            match r {
                Some(v) => d.len() > 0 && all_digits(d) && v == digits_value(d) && v <= limit,
                None => !(d.len() > 0 && all_digits(d) && digits_value(d) <= limit),
            }
        }),
{
    let ghost d = s@.skip(from as int);
    if from == s.len() {
        return None;
    }
    let mut v: u128 = 0;
    let mut i: usize = from;
    while i < s.len()
        invariant
            from <= i <= s@.len(),
            d == s@.skip(from as int),
            9 <= limit < 0x1000_0000_0000_0000_0000_0000_0000_0000,
            all_digits(d.take(i - from)),
            v == digits_value(d.take(i - from)),
            v <= limit,
        decreases s@.len() - i,
    {
        let c = s[i];
        if !('0' <= c && c <= '9') {
            proof {
                assert(d[i - from] == c);
            }
            return None;
        }
        let dv = (c as u32 - '0' as u32) as u128;
        proof {
            assert(d.take(i - from + 1).drop_last() =~= d.take(i - from));
            assert(d.take(i - from + 1).last() == c);
        }
        if v > (limit - dv) / 10 {
            proof {
                assert(v * 10 + dv > limit) by (nonlinear_arith)
                    requires
                        v > (limit - dv) / 10,
                        dv <= limit,
                ;
                if all_digits(d) {
                    lemma_digits_value_prefix(d, i - from + 1);
                }
            }
            return None;
        }
        proof {
            assert(v * 10 + dv <= limit) by (nonlinear_arith)
                requires
                    v <= (limit - dv) / 10,
                    dv <= limit,
            ;
        }
        v = v * 10 + dv;
        i = i + 1;
    }
    proof {
        assert(d.take(i - from) =~= d);
    }
    Some(v)
}

/// `s.parse::<u64>().ok()`.
pub fn parse_u64_exec(s: &[char]) -> (r: Option<u64>)
    ensures
        r == parse_u64(s@),
{
    let from: usize = if s.len() > 0 && s[0] == '+' {
        1
    } else {
        0
    };
    if s.len() > 0 && s[0] == '-' {
        return None;
    }
    let r = digits_upto(s, from, 0xffff_ffff_ffff_ffff);
    proof {
        if from == 0 {
            assert(s@.skip(0) =~= s@);
        } else {
            assert(s@.skip(1) =~= s@.drop_first());
        }
    }
    match r {
        Some(v) => Some(v as u64),
        None => None,
    }
}

/// `s.parse::<u32>().ok()`.
pub fn parse_u32_exec(s: &[char]) -> (r: Option<u32>)
    ensures
        r == parse_u32(s@),
{
    let from: usize = if s.len() > 0 && s[0] == '+' {
        1
    } else {
        0
    };
    if s.len() > 0 && s[0] == '-' {
        return None;
    }
    let r = digits_upto(s, from, 0xffff_ffff);
    proof {
        if from == 0 {
            assert(s@.skip(0) =~= s@);
        } else {
            assert(s@.skip(1) =~= s@.drop_first());
        }
    }
    match r {
        Some(v) => Some(v as u32),
        None => None,
    }
}

/// `s.parse::<i32>().ok()`.
pub fn parse_i32_exec(s: &[char]) -> (r: Option<i32>)
    ensures
        r == parse_i32(s@),
{
    let neg = s.len() > 0 && s[0] == '-';
    let from: usize = if s.len() > 0 && (s[0] == '+' || s[0] == '-') {
        1
    } else {
        0
    };
    let limit: u128 = if neg {
        0x8000_0000
    } else {
        0x7fff_ffff
    };
    let r = digits_upto(s, from, limit);
    proof {
        if from == 0 {
            assert(s@.skip(0) =~= s@);
        } else {
            assert(s@.skip(1) =~= s@.drop_first());
        }
    }
    match r {
        Some(v) => {
            if neg {
                Some((0 - (v as i64)) as i32)
            } else {
                Some(v as i32)
            }
        },
        None => None,
    }
}

// ───────────────────────────── writing ─────────────────────────────

pub open spec fn digit_char(d: int) -> char {
    ((d + ('0' as int)) as u32) as char
}

/// The decimal digits `to_string` writes for a natural number.
pub open spec fn dec(n: nat) -> Seq<char>
    decreases n,
{
    if n < 10 {
        seq![digit_char(n as int)]
    } else {
        dec(n / 10).push(digit_char((n % 10) as int))
    }
}

/// What `to_string` writes for an integer.
pub open spec fn dec_int(n: int) -> Seq<char> {
    if n < 0 {
        seq!['-'] + dec((-n) as nat)
    } else {
        dec(n as nat)
    }
}

pub fn dec_u64(n: u64) -> (r: Vec<char>)
    ensures
        r@ == dec(n as nat),
    decreases n,
{
    if n < 10 {
        let c = ((n as u8) + 48) as char;
        let mut v: Vec<char> = Vec::new();
        v.push(c);
        proof {
            assert(v@ =~= seq![digit_char(n as int)]);
        }
        v
    } else {
        let mut v = dec_u64(n / 10);
        let c = (((n % 10) as u8) + 48) as char;
        v.push(c);
        v
    }
}

pub fn dec_i64(n: i64) -> (r: Vec<char>)
    ensures
        r@ == dec_int(n as int),
{
    if n < 0 {
        let m: u64 = if n == i64::MIN {
            0x8000_0000_0000_0000
        } else {
            (-n) as u64
        };
        let d = dec_u64(m);
        let mut v: Vec<char> = Vec::new();
        v.push('-');
        let mut i: usize = 0;
        while i < d.len()
            invariant
                i <= d@.len(),
                v@ == seq!['-'] + d@.take(i as int),
            decreases d@.len() - i,
        {
            v.push(d[i]);
            assert(d@.take(i + 1) =~= d@.take(i as int).push(d@[i as int]));
            i = i + 1;
        }
        assert(d@.take(d@.len() as int) =~= d@);
        v
    } else {
        dec_u64(n as u64)
    }
}

pub proof fn lemma_dec_digits(n: nat)
    ensures
        dec(n).len() >= 1,
        all_digits(dec(n)),
        digits_value(dec(n)) == n,
    decreases n,
{
    if n >= 10 {
        lemma_dec_digits(n / 10);
        let d = dec(n);
        assert(d.drop_last() =~= dec(n / 10));
        assert(d.last() == digit_char((n % 10) as int));
        assert(digit_value(digit_char((n % 10) as int)) == n % 10);
        assert(n == (n / 10) * 10 + n % 10);
        assert(digits_value(d) == digits_value(d.drop_last()) * 10 + digit_value(d.last()));
        assert(digits_value(d.drop_last()) == n / 10);
    } else {
        let d = dec(n);
        assert(d.drop_last() =~= Seq::<char>::empty());
        assert(digit_value(digit_char(n as int)) == n);
        assert(digits_value(d) == digits_value(d.drop_last()) * 10 + digit_value(d.last()));
    }
}

/// Reading back what `to_string` wrote gives the same number.
pub proof fn lemma_parse_dec_int(n: int)
    ensures
        parse_signed(dec_int(n)) == Some(n),
{
    if n < 0 {
        lemma_dec_digits((-n) as nat);
        assert((seq!['-'] + dec((-n) as nat)).drop_first() =~= dec((-n) as nat));
    } else {
        lemma_dec_digits(n as nat);
        assert(is_digit(dec(n as nat)[0]));
    }
}

pub proof fn lemma_parse_i32_dec(n: i32)
    ensures
        parse_i32(dec_int(n as int)) == Some(n),
{
    lemma_parse_dec_int(n as int);
}

} // verus!
