//! Decoding of the platform's normalized-points field.
//!
//! A present score arrives as a decimal percentage in a string, such as
//! `"87.5"`.  The crate stores scores in parts per million of the full
//! mark, so that `"87.5"` becomes `875_000`; fractional digits beyond
//! the fourth carry less than one part per million and are discarded.
//! A string that is not such a percentage, or one above `100`, is a
//! decode failure.

use crate::error::CrowdmarkError;
use crate::text::str_chars;
use vstd::prelude::*;

verus! {

/// The whole mark, in parts per million.
pub const FULL_SCORE_PPM: u32 = 1000000;

/// Whether `c` is a decimal digit.
pub open spec fn is_digit(c: char) -> bool {
    '0' <= c && c <= '9'
}

/// The numeric value of a digit character.
pub open spec fn digit_val(c: char) -> int {
    c as int - 48
}

/// Whether every character of `s` is a decimal digit.
pub open spec fn all_digits(s: Seq<char>) -> bool {
    forall|i: int| 0 <= i < s.len() ==> is_digit(#[trigger] s[i])
}

/// The number written by a digit string, most significant digit first.
pub open spec fn digits_val(s: Seq<char>) -> int
    decreases s.len(),
{
    if s.len() == 0 {
        0
    } else {
        digits_val(s.drop_last()) * 10 + digit_val(s.last())
    }
}

/// Ten to the `n`.
pub open spec fn pow10(n: nat) -> int
    decreases n,
{
    if n == 0 {
        1
    } else {
        10 * pow10((n - 1) as nat)
    }
}

/// The first position at or after `i` holding a dot, or the length.
pub open spec fn spec_dot_pos(s: Seq<char>, i: int) -> int
    decreases s.len() - i,
{
    if i < 0 || i >= s.len() {
        s.len() as int
    } else if s[i] == '.' {
        i
    } else {
        spec_dot_pos(s, i + 1)
    }
}

/// Whether `s` is a decimal percentage: digits, then optionally a dot
/// and at least one further digit.
pub open spec fn score_shape(s: Seq<char>) -> bool {
    let dot = spec_dot_pos(s, 0);
    &&& dot >= 1
    &&& all_digits(s.take(dot))
    &&& (dot < s.len() ==> dot + 1 < s.len() && all_digits(s.skip(dot + 1)))
}

/// The value of a well-shaped percentage string, in parts per million.
pub open spec fn score_value_ppm(s: Seq<char>) -> int {
    let dot = spec_dot_pos(s, 0);
    let frac = if dot < s.len() {
        s.skip(dot + 1)
    } else {
        Seq::<char>::empty()
    };
    let frac4 = if frac.len() > 4 {
        frac.take(4)
    } else {
        frac
    };
    digits_val(s.take(dot)) * 10000 + digits_val(frac4) * pow10((4 - frac4.len()) as nat)
}

/// The score a normalized-points string decodes to: its value in parts
/// per million when it is a percentage of at most the whole mark, and
/// nothing otherwise.
pub open spec fn spec_score_ppm(s: Seq<char>) -> Option<int> {
    if score_shape(s) && score_value_ppm(s) <= FULL_SCORE_PPM {
        Some(score_value_ppm(s))
    } else {
        None
    }
}

/// A digit string names a number that is not negative.
proof fn lemma_digits_val_nonneg(s: Seq<char>)
    requires
        all_digits(s),
    ensures
        digits_val(s) >= 0,
    decreases s.len(),
{
    if s.len() > 0 {
        assert(all_digits(s.drop_last()));
        lemma_digits_val_nonneg(s.drop_last());
        assert(is_digit(s.last()));
    }
}

/// Dropping trailing digits never increases the number named.
proof fn lemma_digits_val_prefix_le(s: Seq<char>, j: int)
    requires
        all_digits(s),
        0 <= j <= s.len(),
    ensures
        digits_val(s.take(j)) <= digits_val(s),
    decreases s.len() - j,
{
    if j < s.len() {
        assert(all_digits(s.drop_last()));
        assert(s.drop_last().take(j) =~= s.take(j));
        lemma_digits_val_prefix_le(s.drop_last(), j);
        lemma_digits_val_nonneg(s.drop_last());
        assert(is_digit(s.last()));
        assert(digits_val(s) == digits_val(s.drop_last()) * 10 + digit_val(s.last()));
    } else {
        assert(s.take(j) =~= s);
    }
}

/// A percentage whose integer part already exceeds 100 decodes to
/// nothing, whatever follows the digits seen so far.
proof fn lemma_whole_gt100(s: Seq<char>, j: int)
    requires
        0 <= j <= spec_dot_pos(s, 0) <= s.len(),
        all_digits(s.take(j)),
        digits_val(s.take(j)) > 100,
    ensures
        spec_score_ppm(s) is None,
{
    if score_shape(s) {
        let dot = spec_dot_pos(s, 0);
        let ip = s.take(dot);
        assert(ip.take(j) =~= s.take(j));
        lemma_digits_val_prefix_le(ip, j);
        assert(digits_val(ip) > 100);
        let frac = if dot < s.len() {
            s.skip(dot + 1)
        } else {
            Seq::<char>::empty()
        };
        let frac4 = if frac.len() > 4 {
            frac.take(4)
        } else {
            frac
        };
        assert(all_digits(frac4)) by {
            assert(forall|k: int|
                0 <= k < frac4.len() ==> #[trigger] frac4[k] == frac[k]);
        }
        lemma_digits_val_nonneg(frac4);
        lemma_pow10_pos((4 - frac4.len()) as nat);
        assert(digits_val(frac4) * pow10((4 - frac4.len()) as nat) >= 0) by (nonlinear_arith)
            requires
                digits_val(frac4) >= 0,
                pow10((4 - frac4.len()) as nat) >= 1,
        ;
        assert(digits_val(ip) * 10000 > 1000000);
    }
}

/// The message attached to a rejected normalized-points value.
pub open spec fn score_error_text(s: Seq<char>) -> Seq<char> {
    "invalid normalized-points value: "@ + s
}

fn score_error(s: &str) -> (r: CrowdmarkError)
    ensures
        r matches CrowdmarkError::DecodeError(m) && m@ == score_error_text(s@),
{
    CrowdmarkError::DecodeError(crate::text::cat2("invalid normalized-points value: ", s))
}

/// Decodes a present normalized-points string into a score in parts
/// per million of the full mark.
pub fn parse_score(s: &str) -> (r: Result<u32, CrowdmarkError>)
    ensures
        match r {
            Ok(v) => spec_score_ppm(s@) == Some(v as int) && v <= FULL_SCORE_PPM,
            Err(e) => spec_score_ppm(s@) is None && (e matches CrowdmarkError::DecodeError(m)
                && m@ == score_error_text(s@)),
        },
{
    let cs = str_chars(s);
    let n = cs.len();

    // Find the first dot.
    let mut dot: usize = 0;
    while dot < n && cs[dot] != '.'
        invariant
            n == cs@.len(),
            cs@ == s@,
            0 <= dot <= n,
            spec_dot_pos(s@, 0) == spec_dot_pos(s@, dot as int),
        decreases n - dot,
    {
        dot = dot + 1;
    }
    proof {
        assert(spec_dot_pos(s@, dot as int) == dot as int);
    }

    // The integer part: at least one digit, digits throughout.
    if dot == 0 {
        return Err(score_error(s));
    }
    let mut j: usize = 0;
    let mut whole: u32 = 0;
    while j < dot
        invariant
            n == cs@.len(),
            cs@ == s@,
            0 < dot <= n,
            spec_dot_pos(s@, 0) == dot as int,
            0 <= j <= dot,
            all_digits(s@.take(j as int)),
            whole == digits_val(s@.take(j as int)),
            whole <= 100,
        decreases dot - j,
    {
        let c = cs[j];
        if c < '0' || c > '9' {
            proof {
                assert(s@.take(dot as int)[j as int] == c);
                assert(!all_digits(s@.take(dot as int)));
            }
            return Err(score_error(s));
        }
        let d: u32 = (c as u32) - 48;
        proof {
            assert(s@.take(j as int + 1).drop_last() =~= s@.take(j as int));
            assert(s@.take(j as int + 1).last() == c);
        }
        whole = whole * 10 + d;
        j = j + 1;
        if whole > 100 {
            proof {
                lemma_whole_gt100(s@, j as int);
            }
            return Err(score_error(s));
        }
    }
    proof {
        assert(s@.take(j as int) =~= s@.take(dot as int));
    }

    // The fractional part, when present: at least one digit, digits
    // throughout; only the first four parts-per-million digits count.
    let mut frac_ppm: u32 = 0;
    if dot < n {
        if dot + 1 == n {
            return Err(score_error(s));
        }
        let ghost frac = s@.skip(dot as int + 1);
        let mut k: usize = dot + 1;
        let mut seen: usize = 0;
        let mut acc: u32 = 0;
        while k < n
            invariant
                n == cs@.len(),
                cs@ == s@,
                0 < dot < n,
                dot + 1 < n,
                spec_dot_pos(s@, 0) == dot as int,
                frac == s@.skip(dot as int + 1),
                dot + 1 <= k <= n,
                seen == if k - dot - 1 <= 4 {
                    k - dot - 1
                } else {
                    4
                },
                all_digits(frac.take(k - dot - 1)),
                acc == digits_val(frac.take(seen as int)),
                acc < pow10(seen as nat),
            decreases n - k,
        {
            let c = cs[k];
            if c < '0' || c > '9' {
                proof {
                    assert(frac[k - dot - 1] == c);
                    assert(!all_digits(frac));
                }
                return Err(score_error(s));
            }
            proof {
                assert(frac.take(k - dot) =~= frac.take(k - dot - 1).push(c));
                assert(frac.take(k - dot).drop_last() =~= frac.take(k - dot - 1));
            }
            if seen < 4 {
                let d: u32 = (c as u32) - 48;
                proof {
                    assert(frac.take(seen as int + 1).drop_last() =~= frac.take(seen as int));
                    assert(frac.take(seen as int + 1).last() == frac[seen as int]);
                    assert(frac[seen as int] == c);
                    assert(pow10(0) == 1);
                    assert(pow10(1) == 10);
                    assert(pow10(2) == 100);
                    assert(pow10(3) == 1000);
                    assert(pow10(4) == 10000);
                    assert(pow10(seen as nat + 1) == 10 * pow10(seen as nat));
                    lemma_pow10_le(seen as nat, 3);
                }
                acc = acc * 10 + d;
                seen = seen + 1;
            }
            k = k + 1;
        }
        proof {
            assert(frac.take(n - dot - 1) =~= frac);
            assert(all_digits(frac));
        }
        let mut pad: usize = 4 - seen;
        let ghost frac4 = if frac.len() > 4 {
            frac.take(4)
        } else {
            frac
        };
        proof {
            assert(frac4 =~= frac.take(seen as int));
            assert(pow10(0) == 1);
            assert(frac4.len() == seen as int);
            assert(4 - (pad as int) - frac4.len() == 0);
            assert(digits_val(frac4) * pow10(0) == digits_val(frac4));
        }
        while pad > 0
            invariant
                pad <= 4,
                acc < pow10((4 - pad) as nat),
                acc == digits_val(frac4) * pow10((4 - pad - frac4.len()) as nat),
                frac4.len() + pad <= 4,
            decreases pad,
        {
            proof {
                assert(pow10(0) == 1);
                assert(pow10(1) == 10);
                assert(pow10(2) == 100);
                assert(pow10(3) == 1000);
                assert(pow10(4) == 10000);
                lemma_pow10_le((4 - pad) as nat, 3);
                assert(pow10((4 - pad) as nat + 1) == 10 * pow10((4 - pad) as nat));
                assert(pow10((4 - pad - frac4.len()) as nat + 1) == 10 * pow10(
                    (4 - pad - frac4.len()) as nat,
                ));
                assert(acc * 10 == digits_val(frac4) * (pow10((4 - pad - frac4.len()) as nat)
                    * 10)) by (nonlinear_arith)
                    requires
                        acc == digits_val(frac4) * pow10((4 - pad - frac4.len()) as nat),
                ;
            }
            acc = acc * 10;
            pad = pad - 1;
        }
        frac_ppm = acc;
        proof {
            assert(pow10(4) == 10000) by {
                assert(pow10(0) == 1);
                assert(pow10(1) == 10);
                assert(pow10(2) == 100);
                assert(pow10(3) == 1000);
            }
            assert(frac_ppm < 10000);
            assert(frac_ppm == digits_val(frac4) * pow10((4 - frac4.len()) as nat));
        }
    }

    let total: u32 = whole * 10000 + frac_ppm;
    proof {
        assert(score_shape(s@));
        assert(score_value_ppm(s@) == total as int);
    }
    if total > FULL_SCORE_PPM {
        return Err(score_error(s));
    }
    Ok(total)
}

/// Ten to any power is positive.
proof fn lemma_pow10_pos(n: nat)
    ensures
        pow10(n) >= 1,
    decreases n,
{
    if n > 0 {
        lemma_pow10_pos((n - 1) as nat);
    }
}

/// Ten to a smaller power is no larger.
proof fn lemma_pow10_le(a: nat, b: nat)
    requires
        a <= b,
    ensures
        pow10(a) <= pow10(b),
    decreases b,
{
    if a < b {
        lemma_pow10_le(a, (b - 1) as nat);
        lemma_pow10_pos((b - 1) as nat);
    }
}

} // verus!
