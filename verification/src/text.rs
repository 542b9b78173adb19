//! Verified text helpers: decimal rendering of integers, whitespace
//! trimming, substring search and the number grammars that ffprobe and
//! ffmpeg output uses.

use vstd::prelude::*;

verus! {

/// The ASCII character of decimal digit `d` (0..=9).
pub open spec fn digit_char(d: int) -> char {
    (d + 48) as char
}

/// Decimal rendering of `n`, without sign or leading zeros (as `to_string`).
pub open spec fn decimal(n: nat) -> Seq<char>
    decreases n,
{
    if n < 10 {
        seq![digit_char(n as int)]
    } else {
        decimal(n / 10).push(digit_char((n % 10) as int))
    }
}

/// The last `w` decimal digits of `n`, zero-padded.
pub open spec fn fixed_digits(n: nat, w: nat) -> Seq<char>
    decreases w,
{
    if w == 0 {
        Seq::empty()
    } else {
        fixed_digits(n / 10, (w - 1) as nat).push(digit_char((n % 10) as int))
    }
}

/// One-character string of a decimal digit.
pub fn digit_str(d: u8) -> (s: &'static str)
    requires
        d < 10,
    ensures
        s@ == seq![digit_char(d as int)],
{
    match d {
        0 => {
            proof {
                reveal_strlit("0");
            }
            "0"
        },
        1 => {
            proof {
                reveal_strlit("1");
            }
            "1"
        },
        2 => {
            proof {
                reveal_strlit("2");
            }
            "2"
        },
        3 => {
            proof {
                reveal_strlit("3");
            }
            "3"
        },
        4 => {
            proof {
                reveal_strlit("4");
            }
            "4"
        },
        5 => {
            proof {
                reveal_strlit("5");
            }
            "5"
        },
        6 => {
            proof {
                reveal_strlit("6");
            }
            "6"
        },
        7 => {
            proof {
                reveal_strlit("7");
            }
            "7"
        },
        8 => {
            proof {
                reveal_strlit("8");
            }
            "8"
        },
        _ => {
            proof {
                reveal_strlit("9");
            }
            "9"
        },
    }
}

/// Appends the decimal rendering of `n` to `s`.
pub fn push_decimal(s: &mut String, n: u128)
    ensures
        final(s)@ == old(s)@ + decimal(n as nat),
    decreases n,
{
    if n >= 10 {
        push_decimal(s, n / 10);
    }
    s.append(digit_str((n % 10) as u8));
    proof {
        if n < 10 {
            assert(n % 10 == n);
        }
    }
}

/// The decimal rendering of `n` (what `n.to_string()` gives).
pub fn decimal_string(n: u128) -> (s: String)
    ensures
        s@ == decimal(n as nat),
{
    let mut s = String::new();
    push_decimal(&mut s, n);
    s
}

/// Decimal rendering of a signed integer (as `to_string`).
pub open spec fn signed_decimal(v: int) -> Seq<char> {
    if v < 0 {
        seq!['-'] + decimal((-v) as nat)
    } else {
        decimal(v as nat)
    }
}

/// Appends the decimal rendering of the signed `v` to `s`.
pub fn push_signed_decimal(s: &mut String, v: i64)
    ensures
        final(s)@ == old(s)@ + signed_decimal(v as int),
{
    if v < 0 {
        proof {
            reveal_strlit("-");
        }
        s.append("-");
        let m: u128 = (0i128 - v as i128) as u128;
        push_decimal(s, m);
        proof {
            assert(final(s)@ =~= old(s)@ + signed_decimal(v as int));
        }
    } else {
        push_decimal(s, v as u128);
    }
}

/// Appends the last `w` decimal digits of `n`, zero-padded.
pub fn push_fixed_digits(s: &mut String, n: u128, w: u32)
    ensures
        final(s)@ == old(s)@ + fixed_digits(n as nat, w as nat),
    decreases w,
{
    if w > 0 {
        push_fixed_digits(s, n / 10, w - 1);
        s.append(digit_str((n % 10) as u8));
    }
}


/// Whether two texts are equal.
pub fn str_eq(a: &str, b: &str) -> (r: bool)
    ensures
        r == (a@ == b@),
{
    let n = a.unicode_len();
    if n != b.unicode_len() {
        return false;
    }
    let mut i: usize = 0;
    while i < n
        invariant
            n == a@.len() == b@.len(),
            i <= n,
            forall|j: int| 0 <= j < i ==> a@[j] == b@[j],
        decreases n - i,
    {
        if a.get_char(i) != b.get_char(i) {
            return false;
        }
        i = i + 1;
    }
    proof {
        assert(a@ =~= b@);
    }
    true
}

/// Unicode `White_Space` characters (what `char::is_whitespace` and
/// `str::trim` use).
pub open spec fn is_whitespace(c: char) -> bool {
    let v = c as u32;
    (9 <= v <= 13) || v == 32 || v == 0x85 || v == 0xa0 || v == 0x1680 || (0x2000 <= v <= 0x200a)
        || v == 0x2028 || v == 0x2029 || v == 0x202f || v == 0x205f || v == 0x3000
}

pub fn is_whitespace_exec(c: char) -> (b: bool)
    ensures
        b == is_whitespace(c),
{
    let v = c as u32;
    (9 <= v && v <= 13) || v == 32 || v == 0x85 || v == 0xa0 || v == 0x1680 || (0x2000 <= v && v
        <= 0x200a) || v == 0x2028 || v == 0x2029 || v == 0x202f || v == 0x205f || v == 0x3000
}

/// The characters of `s`.
pub fn chars_of(s: &str) -> (v: Vec<char>)
    ensures
        v@ == s@,
{
    let n = s.unicode_len();
    let mut v: Vec<char> = Vec::new();
    let mut i: usize = 0;
    while i < n
        invariant
            n == s@.len(),
            i <= n,
            v@ == s@.take(i as int),
        decreases n - i,
    {
        let c = s.get_char(i);
        v.push(c);
        proof {
            assert(s@.take(i + 1) =~= s@.take(i as int).push(c));
        }
        i = i + 1;
    }
    proof {
        assert(s@.take(n as int) =~= s@);
    }
    v
}

/// `s` without leading whitespace.
pub open spec fn trim_start(s: Seq<char>) -> Seq<char>
    decreases s.len(),
{
    if s.len() > 0 && is_whitespace(s[0]) {
        trim_start(s.drop_first())
    } else {
        s
    }
}

/// `s` without trailing whitespace.
pub open spec fn trim_end(s: Seq<char>) -> Seq<char>
    decreases s.len(),
{
    if s.len() > 0 && is_whitespace(s.last()) {
        trim_end(s.drop_last())
    } else {
        s
    }
}

/// `s` without leading and trailing whitespace (as `str::trim`).
pub open spec fn trim(s: Seq<char>) -> Seq<char> {
    trim_end(trim_start(s))
}

/// Bounds of the trimmed part of `v[lo..hi]`.
pub fn trim_range(v: &Vec<char>, lo: usize, hi: usize) -> (r: (usize, usize))
    requires
        lo <= hi <= v@.len(),
    ensures
        lo <= r.0 <= r.1 <= hi,
        v@.subrange(r.0 as int, r.1 as int) == trim(v@.subrange(lo as int, hi as int)),
{
    let ghost s = v@.subrange(lo as int, hi as int);
    let mut a: usize = lo;
    while a < hi && is_whitespace_exec(v[a])
        invariant
            lo <= a <= hi <= v@.len(),
            s == v@.subrange(lo as int, hi as int),
            trim_start(s) == trim_start(v@.subrange(a as int, hi as int)),
        decreases hi - a,
    {
        proof {
            assert(v@.subrange(a as int, hi as int).drop_first() =~= v@.subrange(
                a + 1,
                hi as int,
            ));
        }
        a = a + 1;
    }
    proof {
        if a < hi {
            assert(!is_whitespace(v@.subrange(a as int, hi as int)[0]));
        } else {
            assert(v@.subrange(a as int, hi as int).len() == 0);
        }
    }
    let mut b: usize = hi;
    while b > a && is_whitespace_exec(v[b - 1])
        invariant
            lo <= a <= b <= hi <= v@.len(),
            s == v@.subrange(lo as int, hi as int),
            trim(s) == trim_end(v@.subrange(a as int, b as int)),
        decreases b,
    {
        proof {
            assert(v@.subrange(a as int, b as int).drop_last() =~= v@.subrange(a as int, b - 1));
        }
        b = b - 1;
    }
    (a, b)
}

/// Index of the first `c` in `s`, or `s.len()` when there is none.
pub open spec fn first_index_of(s: Seq<char>, c: char) -> int
    decreases s.len(),
{
    if s.len() == 0 {
        0
    } else if s[0] == c {
        0
    } else {
        1 + first_index_of(s.drop_first(), c)
    }
}

/// Index of the first `c` in `v[lo..hi]`, relative to `lo`.
pub fn find_char(v: &Vec<char>, lo: usize, hi: usize, c: char) -> (p: usize)
    requires
        lo <= hi <= v@.len(),
    ensures
        p == first_index_of(v@.subrange(lo as int, hi as int), c),
        p <= hi - lo,
{
    let mut i = lo;
    while i < hi && v[i] != c
        invariant
            lo <= i <= hi <= v@.len(),
            first_index_of(v@.subrange(lo as int, hi as int), c) == (i - lo) + first_index_of(
                v@.subrange(i as int, hi as int),
                c,
            ),
        decreases hi - i,
    {
        proof {
            assert(v@.subrange(i as int, hi as int).drop_first() =~= v@.subrange(
                i + 1,
                hi as int,
            ));
        }
        i = i + 1;
    }
    i - lo
}

/// An ASCII decimal digit.
pub open spec fn is_digit(c: char) -> bool {
    48 <= (c as u32) <= 57
}

/// Value of the ASCII digit `c`.
pub open spec fn digit_value(c: char) -> nat {
    ((c as u32) - 48) as nat
}

/// Reading a number left to right: the value of all digits read so far,
/// the number of digits after the decimal point, whether a point was read
/// and whether a digit was read; `None` once a character outside
/// `[0-9.]` or a second point appears.
pub open spec fn scan_number(b: Seq<char>) -> Option<(nat, nat, bool, bool)>
    decreases b.len(),
{
    if b.len() == 0 {
        Some((0, 0, false, false))
    } else {
        match scan_number(b.drop_last()) {
            None => None,
            Some((v, f, dot, dig)) => {
                let c = b.last();
                if is_digit(c) {
                    Some((v * 10 + digit_value(c), if dot {
                        f + 1
                    } else {
                        f
                    }, dot, true))
                } else if c == '.' && !dot {
                    Some((v, f, true, dig))
                } else {
                    None
                }
            },
        }
    }
}

/// Digit value read by [`scan_number`] (0 when the scan fails).
pub open spec fn scan_value(b: Seq<char>) -> nat {
    match scan_number(b) {
        Some((v, _f, _dot, _dig)) => v,
        None => 0,
    }
}

/// The value of the text `s` as `u64::from_str` reads it: an optional `+`
/// and at least one ASCII digit, within range.
pub open spec fn parse_u64_spec(s: Seq<char>) -> Option<u64> {
    let b = if s.len() > 0 && s[0] == '+' {
        s.drop_first()
    } else {
        s
    };
    match scan_number(b) {
        Some((v, f, dot, dig)) => {
            if dig && !dot && v <= u64::MAX {
                Some(v as u64)
            } else {
                None
            }
        },
        None => None,
    }
}

proof fn lemma_scan_prefix(b: Seq<char>, j: int)
    requires
        0 <= j <= b.len(),
        scan_number(b) is Some,
    ensures
        scan_number(b.take(j)) is Some,
        scan_value(b.take(j)) <= scan_value(b),
    decreases b.len() - j,
{
    if j < b.len() {
        let p = b.drop_last();
        assert(p.take(j) =~= b.take(j));
        lemma_scan_prefix(p, j);
    } else {
        assert(b.take(j) =~= b);
    }
}

/// Scans `v[lo..hi]` as a number; `None` when it is outside the grammar or
/// too large. Returns (digit value, digits after point, point seen, digit seen).
fn scan_number_exec(v: &Vec<char>, lo: usize, hi: usize) -> (r: Option<(u64, u64, bool, bool)>)
    requires
        lo <= hi <= v@.len(),
    ensures
        match r {
            Some((n, f, dot, dig)) => scan_number(v@.subrange(lo as int, hi as int)) == Some(
                (n as nat, f as nat, dot, dig),
            ),
            None => scan_number(v@.subrange(lo as int, hi as int)) is None || scan_value(
                v@.subrange(lo as int, hi as int),
            ) > u64::MAX,
        },
{
    let ghost b = v@.subrange(lo as int, hi as int);
    let mut val: u64 = 0;
    let mut f: u64 = 0;
    let mut dot = false;
    let mut dig = false;
    let mut i = lo;
    proof {
        assert(b.take(0) =~= Seq::<char>::empty());
    }
    while i < hi
        invariant
            lo <= i <= hi <= v@.len(),
            b == v@.subrange(lo as int, hi as int),
            f <= i - lo,
            scan_number(b.take(i - lo)) == Some((val as nat, f as nat, dot, dig)),
        decreases hi - i,
    {
        let c = v[i];
        proof {
            assert(b.take(i - lo + 1).drop_last() =~= b.take(i - lo));
            assert(b.take(i - lo + 1).last() == c);
        }
        let code = c as u32;
        if 48 <= code && code <= 57 {
            let d = (code - 48) as u64;
            if val > (u64::MAX - d) / 10 {
                proof {
                    assert(val * 10 + d > u64::MAX) by (nonlinear_arith)
                        requires
                            val > (u64::MAX - d) / 10,
                            d <= 9,
                    ;
                    if scan_number(b) is Some {
                        lemma_scan_prefix(b, i - lo + 1);
                    }
                }
                return None;
            }
            proof {
                assert(val * 10 + d <= u64::MAX) by (nonlinear_arith)
                    requires
                        val <= (u64::MAX - d) / 10,
                        d <= 9,
                ;
            }
            val = val * 10 + d;
            if dot {
                f = f + 1;
            }
            dig = true;
        } else if c == '.' && !dot {
            dot = true;
        } else {
            proof {
                if scan_number(b) is Some {
                    lemma_scan_prefix(b, i - lo + 1);
                }
            }
            return None;
        }
        i = i + 1;
    }
    proof {
        assert(b.take(hi - lo) =~= b);
    }
    Some((val, f, dot, dig))
}

/// Parses the text `v[lo..hi]` as `u64::from_str` does.
pub fn parse_u64_range(v: &Vec<char>, lo: usize, hi: usize) -> (r: Option<u64>)
    requires
        lo <= hi <= v@.len(),
    ensures
        r == parse_u64_spec(v@.subrange(lo as int, hi as int)),
{
    let ghost s = v@.subrange(lo as int, hi as int);
    let mut start = lo;
    if lo < hi && v[lo] == '+' {
        start = lo + 1;
    }
    proof {
        if start == lo + 1 {
            assert(s.drop_first() =~= v@.subrange(start as int, hi as int));
        } else {
            assert(s =~= v@.subrange(start as int, hi as int));
        }
    }
    match scan_number_exec(v, start, hi) {
        None => None,
        Some((num, _f, dot, dig)) => {
            if !dig || dot {
                None
            } else {
                Some(num)
            }
        },
    }
}

} // verus!
