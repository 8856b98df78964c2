//! Verified text building: concatenation and decimal rendering.

use crate::outside::push_char;
use vstd::prelude::*;
use vstd::std_specs::iter::IteratorSpec;
use vstd::string::StrSliceExecFns;
use vstd::string::StringExecFns;

verus! {

/// The digit character for `d % 10`.
pub open spec fn decimal_digit(d: nat) -> char {
    ((48 + (d % 10)) as u8) as char
}

/// The decimal rendering of `n`, most significant digit first, with no
/// sign and no leading zero except for `n == 0` itself.
pub open spec fn spec_decimal(n: nat) -> Seq<char>
    decreases n,
{
    if n < 10 {
        seq![decimal_digit(n)]
    } else {
        spec_decimal(n / 10).push(decimal_digit(n % 10))
    }
}

/// The decimal rendering of a signed integer: a minus sign before the
/// rendering of the magnitude when negative.
pub open spec fn spec_int_decimal(i: int) -> Seq<char> {
    if i >= 0 {
        spec_decimal(i as nat)
    } else {
        seq!['-'] + spec_decimal((-i) as nat)
    }
}

/// The characters of `s`, indexable in place.
pub fn str_chars(s: &str) -> (r: Vec<char>)
    ensures
        r@ == s@,
{
    broadcast use vstd::string::next_postcondition;

    let mut v: Vec<char> = Vec::new();
    let mut it = s.chars();
    proof {
        broadcast use vstd::string::axiom_spec_iter;

        assert(it.remaining() == s@);
    }
    loop
        invariant_except_break
            v@ + it.remaining() == s@,
            v@.len() <= s@.len(),
        ensures
            v@ == s@,
        decreases s@.len() - v@.len(),
    {
        match it.next() {
            Some(c) => {
                v.push(c);
            },
            None => {
                proof {
                    assert(v@ =~= s@);
                }
                break ;
            },
        }
    }
    v
}

/// `a` followed by `b`.
pub fn cat2(a: &str, b: &str) -> (r: String)
    ensures
        r@ == a@ + b@,
{
    a.to_owned().concat(b)
}

/// `a` followed by `b` followed by `c`.
pub fn cat3(a: &str, b: &str, c: &str) -> (r: String)
    ensures
        r@ == a@ + b@ + c@,
{
    a.to_owned().concat(b).concat(c)
}

/// Renders `n` in decimal.
pub fn u64_to_string(n: u64) -> (r: String)
    ensures
        r@ == spec_decimal(n as nat),
{
    let ghost dec: Seq<char> = spec_decimal(n as nat);
    let mut rev: Vec<char> = Vec::new();
    let mut m: u64 = n;
    if m == 0 {
        let mut out = String::new();
        push_char(&mut out, '0');
        proof {
            assert(dec =~= seq!['0']);
            assert(out@ =~= dec);
        }
        return out;
    }
    while m > 0
        invariant
            m > 0 ==> dec == spec_decimal(m as nat) + rev@.reverse(),
            m == 0 ==> dec == rev@.reverse(),
        decreases m,
    {
        let d: u8 = (m % 10) as u8;
        let ghost old_m = m as nat;
        let ghost old_rev = rev@;
        rev.push((48 + d) as char);
        m = m / 10;
        proof {
            assert(rev@.reverse() =~= seq![decimal_digit(old_m)] + old_rev.reverse());
            if m > 0 {
                assert(spec_decimal(old_m) == spec_decimal(old_m / 10).push(
                    decimal_digit(old_m % 10),
                ));
                assert(spec_decimal(m as nat) + rev@.reverse() =~= spec_decimal(old_m)
                    + old_rev.reverse());
            } else {
                assert(old_m < 10);
                assert(spec_decimal(old_m) =~= seq![decimal_digit(old_m)]);
                assert(rev@.reverse() =~= spec_decimal(old_m) + old_rev.reverse());
            }
        }
    }
    let ghost len = rev@.len();
    proof {
        assert(dec.len() == len);
    }
    let mut out = String::new();
    let mut j: usize = rev.len();
    while j > 0
        invariant
            j <= rev@.len(),
            rev@.len() == len,
            dec == rev@.reverse(),
            dec.len() == len,
            out@ == dec.take(len - j),
        decreases j,
    {
        j = j - 1;
        push_char(&mut out, rev[j]);
        proof {
            assert(dec[len - j - 1] == rev@[j as int]);
            assert(out@ =~= dec.take(len - j));
        }
    }
    proof {
        assert(out@ =~= dec);
    }
    out
}

/// Renders `i` in decimal, with a leading minus sign when negative.
pub fn i64_to_string(i: i64) -> (r: String)
    ensures
        r@ == spec_int_decimal(i as int),
{
    if i >= 0 {
        u64_to_string(i as u64)
    } else {
        let m: u64 = ((-(i + 1)) as u64) + 1;
        proof {
            assert(m as nat == (-(i as int)) as nat);
        }
        let digits = u64_to_string(m);
        let r = cat2("-", digits.as_str());
        proof {
            reveal_strlit("-");
            assert(r@ =~= spec_int_decimal(i as int));
        }
        r
    }
}

} // verus!
