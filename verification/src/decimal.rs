//! Decimal numerals: parsing a `u64` from text and rendering one back.
//!
//! Parsing follows the standard library's convention for unsigned integers:
//! an optional leading `+`, then one or more ASCII digits, rejecting
//! anything else and any value that does not fit in a `u64`.

use vstd::prelude::*;
use vstd::string::*;

verus! {

/// Whether `c` is an ASCII decimal digit.
pub open spec fn char_is_digit(c: char) -> bool {
    48 <= c as u32 && c as u32 <= 57
}

/// The numeric value of an ASCII digit.
pub open spec fn digit_val(c: char) -> int {
    c as u32 - 48
}

/// Whether every character of `s` is an ASCII decimal digit.
pub open spec fn all_digits(s: Seq<char>) -> bool {
    forall|i: int| 0 <= i < s.len() ==> char_is_digit(#[trigger] s[i])
}

/// The value of a sequence of ASCII digits, most significant first.
pub open spec fn digits_val(s: Seq<char>) -> int
    decreases s.len(),
{
    if s.len() == 0 {
        0
    } else {
        digits_val(s.drop_last()) * 10 + digit_val(s.last())
    }
}

/// What `str::parse::<u64>` yields on `s`: an optional leading `+`,
/// then at least one digit, and a value that fits in a `u64`.
pub open spec fn parse_u64_spec(s: Seq<char>) -> Option<u64> {
    let t = if s.len() > 0 && s[0] == '+' {
        s.skip(1)
    } else {
        s
    };
    if t.len() > 0 && all_digits(t) && digits_val(t) <= u64::MAX {
        Some(digits_val(t) as u64)
    } else {
        None
    }
}

proof fn lemma_digits_val_push(s: Seq<char>, c: char)
    ensures
        digits_val(s.push(c)) == digits_val(s) * 10 + digit_val(c),
{
    assert(s.push(c).drop_last() =~= s);
    assert(s.push(c).last() == c);
}

/// Parse a `u64` from `s`, exactly as `str::parse::<u64>` would.
pub fn parse_u64(s: &str) -> (r: Option<u64>)
    ensures
        r == parse_u64_spec(s@),
{
    let n = s.unicode_len();
    let start: usize = if n > 0 && s.get_char(0) == '+' {
        1
    } else {
        0
    };
    if start >= n {
        return None;
    }
    let mut i: usize = start;
    let mut val: u64 = 0;
    let mut overflow: bool = false;
    while i < n
        invariant
            start <= i <= n,
            n == s@.len(),
            start == 0 || start == 1,
            start == 1 <==> (s@.len() > 0 && s@[0] == '+'),
            start < n,
            forall|j: int| start <= j < i ==> char_is_digit(#[trigger] s@[j]),
            !overflow ==> val == digits_val(s@.subrange(start as int, i as int)),
            overflow ==> digits_val(s@.subrange(start as int, i as int)) > u64::MAX,
        decreases n - i,
    {
        let c = s.get_char(i);
        let cv = c as u32;
        if cv < 48 || cv > 57 {
            proof {
                let t = if s@.len() > 0 && s@[0] == '+' {
                    s@.skip(1)
                } else {
                    s@
                };
                assert(!char_is_digit(t[i - start]));
            }
            return None;
        }
        let d = (cv - 48) as u64;
        proof {
            let pre = s@.subrange(start as int, i as int);
            assert(s@.subrange(start as int, i as int + 1) =~= pre.push(s@[i as int]));
            lemma_digits_val_push(pre, s@[i as int]);
        }
        if overflow || val > (u64::MAX - d) / 10 {
            proof {
                let pre = s@.subrange(start as int, i as int);
                if !overflow {
                    assert(val >= (u64::MAX - d) / 10 + 1);
                    assert(((u64::MAX - d) / 10 + 1) * 10 == ((u64::MAX - d) / 10) * 10 + 10);
                    assert(((u64::MAX - d) / 10) * 10 + 10 > u64::MAX - d) by {
                        assert(((u64::MAX - d) as int / 10) * 10 > u64::MAX - d - 10);
                    }
                    assert(val * 10 >= ((u64::MAX - d) / 10 + 1) * 10) by (nonlinear_arith)
                        requires
                            val >= (u64::MAX - d) / 10 + 1,
                            d <= 9,
                    ;
                    assert(digits_val(pre) * 10 + digit_val(s@[i as int]) > u64::MAX);
                } else {
                    assert(digits_val(pre) > u64::MAX);
                    assert(digits_val(pre) * 10 >= digits_val(pre) + 9 * digits_val(pre))
                        by (nonlinear_arith);
                    assert(digits_val(pre) * 10 + digit_val(s@[i as int]) > u64::MAX);
                }
            }
            overflow = true;
        } else {
            proof {
                assert(val * 10 <= ((u64::MAX - d) / 10) * 10) by (nonlinear_arith)
                    requires
                        val <= (u64::MAX - d) / 10,
                ;
                assert(((u64::MAX - d) / 10) * 10 <= u64::MAX - d);
            }
            val = val * 10 + d;
        }
        i = i + 1;
    }
    proof {
        let t = if s@.len() > 0 && s@[0] == '+' {
            s@.skip(1)
        } else {
            s@
        };
        assert(t =~= s@.subrange(start as int, n as int));
        assert(t.len() > 0);
        assert forall|k: int| 0 <= k < t.len() implies char_is_digit(#[trigger] t[k]) by {
            assert(t[k] == s@[k + start]);
        }
    }
    if overflow {
        None
    } else {
        Some(val)
    }
}

/// The digit character for a value in `0 ..= 9`.
pub open spec fn spec_digit_char(d: int) -> char
    recommends
        0 <= d <= 9,
{
    if d == 0 {
        '0'
    } else if d == 1 {
        '1'
    } else if d == 2 {
        '2'
    } else if d == 3 {
        '3'
    } else if d == 4 {
        '4'
    } else if d == 5 {
        '5'
    } else if d == 6 {
        '6'
    } else if d == 7 {
        '7'
    } else if d == 8 {
        '8'
    } else {
        '9'
    }
}

/// The decimal numeral of `v`, without sign or leading zeros.
pub open spec fn dec_digits(v: int) -> Seq<char>
    recommends
        v >= 0,
    decreases v,
{
    if v < 10 {
        seq![spec_digit_char(v)]
    } else {
        dec_digits(v / 10).push(spec_digit_char(v % 10))
    }
}

/// The decimal numeral of a value consists of digits, stands for that
/// value, is never empty, and has no leading zero.
pub proof fn lemma_dec_digits(v: int)
    requires
        v >= 0,
    ensures
        all_digits(dec_digits(v)),
        digits_val(dec_digits(v)) == v,
        dec_digits(v).len() >= 1,
        v >= 1 ==> dec_digits(v)[0] != '0',
    decreases v,
{
    if v < 10 {
        let c = spec_digit_char(v);
        let s1 = seq![c];
        assert(s1.drop_last() =~= Seq::<char>::empty());
        assert(s1.last() == c);
        assert(digits_val(Seq::<char>::empty()) == 0);
        assert(digits_val(s1) == digits_val(s1.drop_last()) * 10 + digit_val(s1.last()));
        assert(digit_val(c) == v);
    } else {
        lemma_dec_digits(v / 10);
        lemma_digits_val_push(dec_digits(v / 10), spec_digit_char(v % 10));
        assert(digits_val(dec_digits(v)) == (v / 10) * 10 + v % 10);
        assert((v / 10) * 10 + v % 10 == v);
        assert(dec_digits(v)[0] == dec_digits(v / 10)[0]);
    }
}

/// Parsing the decimal numeral of `v` gives back `v`.
pub proof fn lemma_parse_round_trip(v: u64)
    ensures
        parse_u64_spec(dec_digits(v as int)) == Some(v),
{
    lemma_dec_digits(v as int);
    let s = dec_digits(v as int);
    assert(char_is_digit(s[0]));
    assert(s[0] != '+');
}

fn append_digit(out: &mut String, d: u64)
    requires
        d <= 9,
    ensures
        (final(out))@ == old(out)@ + seq![spec_digit_char(d as int)],
{
    proof {
        reveal_strlit("0");
        reveal_strlit("1");
        reveal_strlit("2");
        reveal_strlit("3");
        reveal_strlit("4");
        reveal_strlit("5");
        reveal_strlit("6");
        reveal_strlit("7");
        reveal_strlit("8");
        reveal_strlit("9");
    }
    if d == 0 {
        out.append("0");
        proof { assert(out@ =~= old(out)@ + seq![spec_digit_char(d as int)]); }
    } else if d == 1 {
        out.append("1");
        proof { assert(out@ =~= old(out)@ + seq![spec_digit_char(d as int)]); }
    } else if d == 2 {
        out.append("2");
        proof { assert(out@ =~= old(out)@ + seq![spec_digit_char(d as int)]); }
    } else if d == 3 {
        out.append("3");
        proof { assert(out@ =~= old(out)@ + seq![spec_digit_char(d as int)]); }
    } else if d == 4 {
        out.append("4");
        proof { assert(out@ =~= old(out)@ + seq![spec_digit_char(d as int)]); }
    } else if d == 5 {
        out.append("5");
        proof { assert(out@ =~= old(out)@ + seq![spec_digit_char(d as int)]); }
    } else if d == 6 {
        out.append("6");
        proof { assert(out@ =~= old(out)@ + seq![spec_digit_char(d as int)]); }
    } else if d == 7 {
        out.append("7");
        proof { assert(out@ =~= old(out)@ + seq![spec_digit_char(d as int)]); }
    } else if d == 8 {
        out.append("8");
        proof { assert(out@ =~= old(out)@ + seq![spec_digit_char(d as int)]); }
    } else {
        out.append("9");
        proof { assert(out@ =~= old(out)@ + seq![spec_digit_char(d as int)]); }
    }
}

/// Append the decimal numeral of `v` to `out`.
pub fn push_decimal(out: &mut String, v: u64)
    ensures
        (final(out))@ == old(out)@ + dec_digits(v as int),
    decreases v,
{
    if v >= 10 {
        push_decimal(out, v / 10);
        append_digit(out, v % 10);
        proof {
            assert(out@ =~= old(out)@ + dec_digits(v as int));
        }
    } else {
        append_digit(out, v);
    }
}

/// The decimal numeral of `v`, as a fresh string.
pub fn u64_to_string(v: u64) -> (r: String)
    ensures
        r@ == dec_digits(v as int),
{
    let mut out = String::new();
    push_decimal(&mut out, v);
    proof {
        assert(out@ =~= dec_digits(v as int));
    }
    out
}

} // verus!
