//! Decimal parsing and formatting with exact specifications.
//!
//! Parsing follows the rules of the standard integer parsers: an optional
//! sign (only `+` for unsigned values), then one or more ASCII digits, with
//! any out-of-range value rejected.  Formatting produces the usual decimal
//! notation with a leading `-` for negative values.

use vstd::prelude::*;
use vstd::string::StrSliceExecFns;
use vstd::string::StringExecFns;

verus! {

/// `c` is an ASCII decimal digit.
pub open spec fn is_digit(c: char) -> bool {
    48 <= c as int <= 57
}

/// Numeric value of the digit `c`.
pub open spec fn digit_val(c: char) -> int {
    c as int - 48
}

/// Every character of `s` is an ASCII decimal digit.
pub open spec fn all_digits(s: Seq<char>) -> bool {
    forall|i: int| 0 <= i < s.len() ==> is_digit(#[trigger] s[i])
}

/// Value of the digit string `s` read as a base-10 numeral.
pub open spec fn dec_val(s: Seq<char>) -> int
    decreases s.len(),
{
    if s.len() == 0 {
        0
    } else {
        dec_val(s.drop_last()) * 10 + digit_val(s.last())
    }
}

/// The digit portion of an unsigned numeral: everything after an optional
/// leading `+`.
pub open spec fn unsigned_digits(s: Seq<char>) -> Seq<char> {
    if s.len() > 0 && s[0] == '+' {
        s.skip(1)
    } else {
        s
    }
}

/// What parsing `s` as a `u32` yields: the digits' value when `s` is an
/// optional `+` followed by one or more digits and the value fits, absent
/// otherwise.
pub open spec fn spec_parse_u32(s: Seq<char>) -> Option<u32> {
    let d = unsigned_digits(s);
    if d.len() > 0 && all_digits(d) && dec_val(d) <= u32::MAX {
        Some(dec_val(d) as u32)
    } else {
        None
    }
}

/// What parsing `s` as an `i64` yields: an optional sign followed by one or
/// more digits, rejected when the signed value falls outside the `i64`
/// range.
pub open spec fn spec_parse_i64(s: Seq<char>) -> Option<i64> {
    let negative = s.len() > 0 && s[0] == '-';
    let d = if s.len() > 0 && (s[0] == '-' || s[0] == '+') {
        s.skip(1)
    } else {
        s
    };
    if d.len() > 0 && all_digits(d) {
        let v = if negative {
            -dec_val(d)
        } else {
            dec_val(d)
        };
        if i64::MIN <= v <= i64::MAX {
            Some(v as i64)
        } else {
            None
        }
    } else {
        None
    }
}

/// The value of a digit string is never negative.
pub proof fn lemma_dec_val_nonneg(s: Seq<char>)
    requires
        all_digits(s),
    ensures
        dec_val(s) >= 0,
    decreases s.len(),
{
    if s.len() > 0 {
        assert(all_digits(s.drop_last()));
        lemma_dec_val_nonneg(s.drop_last());
        assert(is_digit(s.last()));
    }
}

/// Extending a digit string to the right never lowers its value.
pub proof fn lemma_dec_val_prefix_le(s: Seq<char>, k: int)
    requires
        all_digits(s),
        0 <= k <= s.len(),
    ensures
        dec_val(s.subrange(0, k)) <= dec_val(s),
    decreases s.len() - k,
{
    if k == s.len() {
        assert(s.subrange(0, k) =~= s);
    } else {
        let t = s.subrange(0, k + 1);
        assert(all_digits(t));
        assert(t.drop_last() =~= s.subrange(0, k));
        lemma_dec_val_nonneg(s.subrange(0, k));
        assert(is_digit(t.last()));
        assert(dec_val(t) >= dec_val(s.subrange(0, k)));
        lemma_dec_val_prefix_le(s, k + 1);
        assert(dec_val(s.subrange(0, k + 1)) <= dec_val(s));
    }
}

/// Parse the characters of `s` from position `from` on as a digit run whose
/// value is at most `limit`; yields the value exactly when the run is
/// non-empty, all digits, and within the limit.
fn parse_digits_u64(s: &str, from: usize, limit: u64) -> (r: Option<u64>)
    requires
        from <= s@.len(),
    ensures
        ({
            let d = s@.skip(from as int);
            match r {
                Some(v) => d.len() > 0 && all_digits(d) && dec_val(d) == v && v <= limit,
                None => !(d.len() > 0 && all_digits(d) && dec_val(d) <= limit),
            }
        }),
{
    let ghost d = s@.skip(from as int);
    let slen = s.unicode_len();
    if from == slen {
        return None;
    }
    let mut i: usize = from;
    let mut acc: u64 = 0;
    while i < slen
        invariant
            from <= i <= slen,
            from < slen,
            slen == s@.len(),
            d == s@.skip(from as int),
            all_digits(s@.subrange(from as int, i as int)),
            acc == dec_val(s@.subrange(from as int, i as int)),
            acc <= limit,
        decreases slen - i,
    {
        let c = s.get_char(i);
        let cv = c as u32;
        if cv < 48 || cv > 57 {
            proof {
                assert(d[i - from] == s@[i as int]);
                assert(!is_digit(d[i - from]));
            }
            return None;
        }
        let dv = (cv - 48) as u64;
        let ghost prefix = s@.subrange(from as int, i as int);
        let ghost longer = s@.subrange(from as int, i + 1 as int);
        proof {
            assert(longer.drop_last() =~= prefix);
            assert(longer.last() == s@[i as int]);
            assert(is_digit(longer.last()));
            assert(all_digits(longer));
            assert(dec_val(longer) == acc * 10 + dv);
        }
        if acc > limit / 10 || (acc == limit / 10 && dv > limit % 10) {
            proof {
                assert(acc * 10 + dv > limit);
                if all_digits(d) {
                    assert(d.subrange(0, i + 1 - from) =~= longer);
                    lemma_dec_val_prefix_le(d, i + 1 - from);
                    assert(dec_val(d) >= dec_val(longer));
                    assert(dec_val(d) > limit);
                }
            }
            return None;
        }
        proof {
            assert(acc <= limit / 10);
            assert(acc * 10 <= (limit / 10) * 10);
            assert((limit / 10) * 10 + limit % 10 == limit);
            assert(acc * 10 + dv <= limit);
        }
        acc = acc * 10 + dv;
        i = i + 1;
    }
    proof {
        assert(s@.subrange(from as int, slen as int) =~= d);
    }
    Some(acc)
}

/// Parse `s` as a `u32`, exactly as `spec_parse_u32` describes.
pub fn parse_u32(s: &str) -> (r: Option<u32>)
    ensures
        r == spec_parse_u32(s@),
{
    let slen = s.unicode_len();
    let from: usize = if slen > 0 && s.get_char(0) == '+' {
        1
    } else {
        0
    };
    proof {
        assert(s@.skip(0) =~= s@);
        assert(unsigned_digits(s@) == s@.skip(from as int));
    }
    match parse_digits_u64(s, from, 4294967295u64) {
        Some(v) => Some(v as u32),
        None => None,
    }
}

/// Parse `s` as an `i64`, exactly as `spec_parse_i64` describes.
pub fn parse_i64(s: &str) -> (r: Option<i64>)
    ensures
        r == spec_parse_i64(s@),
{
    let slen = s.unicode_len();
    let signed: bool = slen > 0 && (s.get_char(0) == '-' || s.get_char(0) == '+');
    let negative: bool = slen > 0 && s.get_char(0) == '-';
    let from: usize = if signed {
        1
    } else {
        0
    };
    let limit: u64 = if negative {
        9223372036854775808u64
    } else {
        9223372036854775807u64
    };
    proof {
        assert(s@.skip(0) =~= s@);
    }
    let ghost d = s@.skip(from as int);
    match parse_digits_u64(s, from, limit) {
        Some(v) => {
            if negative {
                proof {
                    assert(dec_val(d) == v <= 9223372036854775808);
                    assert(i64::MIN <= -dec_val(d) <= i64::MAX);
                }
                Some((-(v as i128)) as i64)
            } else {
                Some(v as i64)
            }
        },
        None => {
            proof {
                if d.len() > 0 && all_digits(d) {
                    lemma_dec_val_nonneg(d);
                }
            }
            None
        },
    }
}

/// The character standing for the digit `d`.
pub open spec fn digit_char(d: int) -> char {
    if d == 0 {
        '0'
    } else if d == 1 {
        '1'
    } else if d == 2 {
        '2'
    } else if d == 3 {
        '3'
    } else if d == 4 {
        '4'
    } else if d == 5 {
        '5'
    } else if d == 6 {
        '6'
    } else if d == 7 {
        '7'
    } else if d == 8 {
        '8'
    } else {
        '9'
    }
}

/// Decimal numeral of the non-negative number `n`, most significant digit
/// first, without sign or padding.
pub open spec fn spec_dec_u64(n: nat) -> Seq<char>
    decreases n,
{
    if n < 10 {
        seq![digit_char(n as int)]
    } else {
        spec_dec_u64(n / 10).push(digit_char((n % 10) as int))
    }
}

/// Decimal numeral of `v`, with a leading `-` when `v` is negative.
pub open spec fn spec_dec_i64(v: int) -> Seq<char> {
    if v >= 0 {
        spec_dec_u64(v as nat)
    } else {
        seq!['-'].add(spec_dec_u64((-v) as nat))
    }
}

/// One-character string for the digit `d`.
fn digit_str(d: u64) -> (s: &'static str)
    requires
        d < 10,
    ensures
        s@ =~= seq![digit_char(d as int)],
{
    proof {
        reveal_strlit("0");
        reveal_strlit("1");
        reveal_strlit("2");
        reveal_strlit("3");
        reveal_strlit("4");
        reveal_strlit("5");
        reveal_strlit("6");
        reveal_strlit("7");
        reveal_strlit("8");
        reveal_strlit("9");
    }
    match d {
        0 => "0",
        1 => "1",
        2 => "2",
        3 => "3",
        4 => "4",
        5 => "5",
        6 => "6",
        7 => "7",
        8 => "8",
        _ => "9",
    }
}

/// The numeral of `n` is non-empty, consists of digits alone, and reads
/// back as `n`.
pub proof fn lemma_spec_dec_u64_val(n: nat)
    ensures
        spec_dec_u64(n).len() >= 1,
        all_digits(spec_dec_u64(n)),
        dec_val(spec_dec_u64(n)) == n,
    decreases n,
{
    if n < 10 {
        let s = seq![digit_char(n as int)];
        assert(is_digit(digit_char(n as int)));
        assert(s.drop_last() =~= Seq::<char>::empty());
        assert(s.last() == digit_char(n as int));
        assert(dec_val(Seq::<char>::empty()) == 0);
        assert(dec_val(s) == digit_val(digit_char(n as int)));
    } else {
        lemma_spec_dec_u64_val(n / 10);
        let x = spec_dec_u64(n / 10);
        let c = digit_char((n % 10) as int);
        let s = x.push(c);
        assert(s.drop_last() =~= x);
        assert(s.last() == c);
        assert(is_digit(c));
        assert(all_digits(s)) by {
            assert forall|i: int| 0 <= i < s.len() implies is_digit(#[trigger] s[i]) by {
                if i < x.len() {
                    assert(s[i] == x[i]);
                } else {
                    assert(s[i] == c);
                }
            }
        }
        assert(dec_val(s) == dec_val(x) * 10 + digit_val(c));
        assert((n / 10) * 10 + n % 10 == n);
    }
}

/// Round trip: the decimal numeral written for an `i64` parses back to that
/// same value.
pub proof fn lemma_dec_i64_roundtrip(v: i64)
    ensures
        spec_parse_i64(spec_dec_i64(v as int)) == Some(v),
{
    if v >= 0 {
        let s = spec_dec_u64(v as nat);
        lemma_spec_dec_u64_val(v as nat);
        assert(is_digit(s[0]));
        assert(s[0] != '-' && s[0] != '+');
    } else {
        let t = spec_dec_u64((-(v as int)) as nat);
        lemma_spec_dec_u64_val((-(v as int)) as nat);
        let s = seq!['-'].add(t);
        assert(s[0] == '-');
        assert(s.skip(1) =~= t);
        assert(s.len() > 0);
    }
}

/// Format `n` in decimal, exactly as `spec_dec_u64` describes.
pub fn u64_to_dec(n: u64) -> (s: String)
    ensures
        s@ == spec_dec_u64(n as nat),
    decreases n,
{
    if n < 10 {
        let s = String::from_str(digit_str(n));
        proof {
            assert(s@ =~= spec_dec_u64(n as nat));
        }
        s
    } else {
        let mut s = u64_to_dec(n / 10);
        s.append(digit_str(n % 10));
        proof {
            assert(s@ =~= spec_dec_u64(n as nat));
        }
        s
    }
}

/// Format `v` in decimal, exactly as `spec_dec_i64` describes.
pub fn i64_to_dec(v: i64) -> (s: String)
    ensures
        s@ == spec_dec_i64(v as int),
{
    if v >= 0 {
        u64_to_dec(v as u64)
    } else {
        proof {
            reveal_strlit("-");
            assert(0 <= -(v as int) <= u64::MAX);
        }
        let m: u64 = (-(v as i128)) as u64;
        let mut s = String::from_str("-");
        let tail = u64_to_dec(m);
        s.append(tail.as_str());
        proof {
            assert(s@ =~= spec_dec_i64(v as int));
        }
        s
    }
}

} // verus!
