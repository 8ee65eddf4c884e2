//! Amount parsing. An amount is typed as a non-negative decimal number
//! and stored as whole cents. Parsing is deliberately permissive: a line
//! that is not a well-formed decimal counts as zero cents, it is never
//! rejected. Fractional digits past the second round the cent, upward
//! from a half.

use vstd::prelude::*;

verus! {

/// Whether `c` is a decimal digit.
pub open spec fn is_ascii_digit(c: char) -> bool {
    48 <= c as u32 && c as u32 <= 57
}

/// The value of a decimal digit.
pub open spec fn digit_val(c: char) -> int {
    c as u32 - 48
}

/// The number that a sequence of decimal digits denotes, most significant
/// first; the empty sequence denotes zero.
pub open spec fn digits_val(s: Seq<char>) -> int
    decreases s.len(),
{
    if s.len() == 0 {
        0
    } else {
        digits_val(s.drop_last()) * 10 + digit_val(s.last())
    }
}

/// Whether `s` is a decimal number whose point (or end, when it has no
/// point) stands at `p`: every other character is a digit, and there is
/// at least one digit.
pub open spec fn splits_at(s: Seq<char>, p: int) -> bool {
    &&& 0 <= p <= s.len()
    &&& (p == s.len() || s[p] == '.')
    &&& (forall|i: int| 0 <= i < s.len() && i != p ==> is_ascii_digit(#[trigger] s[i]))
    &&& s.len() > (if p == s.len() { 0int } else { 1int })
}

/// Whether `s` is a well-formed non-negative decimal number: digits with
/// at most one point among them, and at least one digit.
pub open spec fn valid_amount(s: Seq<char>) -> bool {
    exists|p: int| #[trigger] splits_at(s, p)
}

/// Where the point of a well-formed number stands (its length when it has
/// no point). Unique whenever `valid_amount` holds.
pub open spec fn split_point(s: Seq<char>) -> int {
    choose|p: int| #[trigger] splits_at(s, p)
}

/// The fractional digits of a well-formed number.
pub open spec fn frac_part(s: Seq<char>) -> Seq<char> {
    let p = split_point(s);
    if p == s.len() {
        Seq::empty()
    } else {
        s.skip(p + 1)
    }
}

/// The cents that the first two fractional digits contribute.
pub open spec fn frac_cents(f: Seq<char>) -> int {
    (if f.len() >= 1 {
        10 * digit_val(f[0])
    } else {
        0
    }) + (if f.len() >= 2 {
        digit_val(f[1])
    } else {
        0
    })
}

/// One more cent when the third fractional digit rounds the amount up.
pub open spec fn round_bit(f: Seq<char>) -> int {
    if f.len() >= 3 && digit_val(f[2]) >= 5 {
        1
    } else {
        0
    }
}

/// The cents that a line of input denotes: the value of a well-formed
/// decimal, rounded to the cent; zero for anything else.
pub open spec fn cents_of(s: Seq<char>) -> int {
    if valid_amount(s) {
        digits_val(s.take(split_point(s))) * 100 + frac_cents(frac_part(s)) + round_bit(
            frac_part(s),
        )
    } else {
        0
    }
}

/// `cents_of`, clamped to what a machine word holds.
pub open spec fn clamped_cents(s: Seq<char>) -> u64 {
    if cents_of(s) > u64::MAX {
        u64::MAX
    } else {
        cents_of(s) as u64
    }
}

/// A well-formed number has exactly one place its point can stand.
proof fn lemma_split_unique(s: Seq<char>, p1: int, p2: int)
    requires
        splits_at(s, p1),
        splits_at(s, p2),
    ensures
        p1 == p2,
{
    if p1 != p2 {
        if p1 < s.len() {
            assert(is_ascii_digit(s[p1]));
        } else {
            assert(p2 < s.len());
            assert(is_ascii_digit(s[p2]));
        }
    }
}

/// A digit sequence denotes a non-negative number.
proof fn lemma_digits_val_nonneg(s: Seq<char>)
    requires
        forall|i: int| 0 <= i < s.len() ==> is_ascii_digit(#[trigger] s[i]),
    ensures
        digits_val(s) >= 0,
    decreases s.len(),
{
    if s.len() > 0 {
        lemma_digits_val_nonneg(s.drop_last());
    }
}

/// Parse a line as an amount in cents. A well-formed non-negative decimal
/// gives its value rounded to the cent (clamped to the largest amount a
/// word holds); any other line gives zero.
pub fn parse_amount(s: &str) -> (r: u64)
    ensures
        r == clamped_cents(s@),
{
    let n = s.unicode_len();
    // Scan: find the point, check everything else is a digit.
    let mut dot: usize = n;
    let mut i: usize = 0;
    while i < n
        invariant
            i <= n,
            n == s@.len(),
            dot <= n,
            dot < n ==> dot < i && s@[dot as int] == '.',
            forall|j: int| 0 <= j < i && j != dot ==> is_ascii_digit(#[trigger] s@[j]),
        decreases n - i,
    {
        let c = s.get_char(i);
        if c == '.' {
            if dot < n {
                proof {
                    assert forall|p: int| !splits_at(s@, p) by {
                        if splits_at(s@, p) {
                            if p == dot {
                                assert(is_ascii_digit(s@[i as int]));
                            } else {
                                assert(is_ascii_digit(s@[dot as int]));
                            }
                        }
                    }
                }
                return 0;
            }
            dot = i;
        } else {
            let u = c as u32;
            if u < 48 || u > 57 {
                proof {
                    assert forall|p: int| !splits_at(s@, p) by {
                        if splits_at(s@, p) {
                            if p != i {
                                assert(is_ascii_digit(s@[i as int]));
                            }
                        }
                    }
                }
                return 0;
            }
        }
        i += 1;
    }
    // A number needs at least one digit: this rules out the empty line
    // and a lone point.
    if n == 0 || (dot < n && n == 1) {
        proof {
            assert forall|p: int| !splits_at(s@, p) by {
                if splits_at(s@, p) {
                    if n == 0 {
                    } else {
                        assert(dot == 0 && n == 1);
                        if p == 0 {
                            assert(s@.len() > 1);
                        } else {
                            assert(is_ascii_digit(s@[0]));
                        }
                    }
                }
            }
        }
        return 0;
    }
    proof {
        assert(splits_at(s@, dot as int));
        lemma_split_unique(s@, split_point(s@), dot as int);
    }
    // Accumulate the whole part, watching for anything past a word.
    let mut acc: u64 = 0;
    let mut big: bool = false;
    i = 0;
    while i < dot
        invariant
            i <= dot <= n,
            n == s@.len(),
            forall|j: int| 0 <= j < n && j != dot ==> is_ascii_digit(#[trigger] s@[j]),
            !big ==> acc == digits_val(s@.take(i as int)),
            big ==> digits_val(s@.take(i as int)) > u64::MAX,
        decreases dot - i,
    {
        let c = s.get_char(i);
        let d = (c as u32 - 48) as u64;
        proof {
            assert(s@.take(i + 1).drop_last() =~= s@.take(i as int));
            assert(s@.take(i + 1).last() == s@[i as int]);
            lemma_digits_val_nonneg(s@.take(i as int));
        }
        if big {
        } else {
            let t: u128 = acc as u128 * 10 + d as u128;
            if t > u64::MAX as u128 {
                big = true;
            } else {
                acc = t as u64;
            }
        }
        i += 1;
    }
    proof {
        assert(s@.take(dot as int) =~= s@.take(split_point(s@)));
    }
    // The first two fractional digits, and the rounding cent.
    let mut fr: u64 = 0;
    if dot < n {
        if dot + 1 < n {
            let c = s.get_char(dot + 1);
            fr = ((c as u32 - 48) as u64) * 10;
            if dot + 2 < n {
                let c = s.get_char(dot + 2);
                fr = fr + (c as u32 - 48) as u64;
                if dot + 3 < n {
                    let c = s.get_char(dot + 3);
                    if c as u32 >= 53 {
                        fr = fr + 1;
                    }
                }
            }
        }
    }
    proof {
        let f = frac_part(s@);
        if dot < n {
            assert(f =~= s@.skip(dot + 1));
        }
        assert(fr == frac_cents(f) + round_bit(f));
    }
    if big {
        proof {
            let v = digits_val(s@.take(split_point(s@)));
            let f = frac_part(s@);
            assert(v * 100 >= v + v) by (nonlinear_arith)
                requires
                    v > 0,
            ;
        }
        return u64::MAX;
    }
    let total: u128 = acc as u128 * 100 + fr as u128;
    if total > u64::MAX as u128 {
        u64::MAX
    } else {
        total as u64
    }
}

} // verus!
