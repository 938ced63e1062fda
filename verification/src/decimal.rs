//! The decimal-number grammar shared by monetary values and the crypto
//! volume coercion: an optional minus sign, one or more integer digits, and
//! an optional fractional part of one or more digits.
//!
//! The vendor reports prices and quantities as floating-point numbers; the
//! adapter converts them through their textual representation, so everything
//! here works on the decimal text itself.

use vstd::prelude::*;

verus! {

/// An ASCII decimal digit.
pub open spec fn spec_is_digit(c: char) -> bool {
    '0' <= c && c <= '9'
}

/// Numeric value of one digit character.
pub open spec fn spec_digit_val(c: char) -> nat {
    (c as int - 48) as nat
}

/// Every character of `s` is a digit.
pub open spec fn spec_all_digits(s: Seq<char>) -> bool {
    forall|i: int| 0 <= i < s.len() ==> spec_is_digit(#[trigger] s[i])
}

/// The number a digit string denotes, most significant digit first.
pub open spec fn spec_digits_val(s: Seq<char>) -> nat
    decreases s.len(),
{
    if s.len() == 0 {
        0
    } else {
        spec_digits_val(s.drop_last()) * 10 + spec_digit_val(s.last())
    }
}

/// Ten to the `n`.
pub open spec fn spec_pow10(n: nat) -> nat
    decreases n,
{
    if n == 0 {
        1
    } else {
        10 * spec_pow10((n - 1) as nat)
    }
}

/// Whether the text carries a leading minus sign.
pub open spec fn spec_dec_neg(s: Seq<char>) -> bool {
    s.len() > 0 && s[0] == '-'
}

/// The text without its sign.
pub open spec fn spec_dec_body(s: Seq<char>) -> Seq<char> {
    if spec_dec_neg(s) {
        s.skip(1)
    } else {
        s
    }
}

/// Index of the first `.` of `s`, or `s.len()` if there is none.
pub open spec fn spec_dot_pos(s: Seq<char>) -> int
    decreases s.len(),
{
    if s.len() == 0 {
        0
    } else if s[0] == '.' {
        0
    } else {
        1 + spec_dot_pos(s.skip(1))
    }
}

/// The integer digits of the (unsigned) body.
pub open spec fn spec_int_part(s: Seq<char>) -> Seq<char> {
    let b = spec_dec_body(s);
    b.take(spec_dot_pos(b))
}

/// The fractional digits of the (unsigned) body; empty if there is no `.`.
pub open spec fn spec_frac_part(s: Seq<char>) -> Seq<char> {
    let b = spec_dec_body(s);
    let d = spec_dot_pos(b);
    if d < b.len() {
        b.skip(d + 1)
    } else {
        Seq::<char>::empty()
    }
}

/// The grammar: `-? digit+ ( . digit+ )?`.
pub open spec fn spec_valid_decimal(s: Seq<char>) -> bool {
    let b = spec_dec_body(s);
    let d = spec_dot_pos(b);
    &&& d >= 1
    &&& spec_all_digits(b.take(d))
    &&& (d == b.len() || (d + 1 < b.len() && spec_all_digits(b.skip(d + 1))))
}

/// All digits of the text, integer and fractional, read as one number.
pub open spec fn spec_dec_mantissa(s: Seq<char>) -> nat {
    spec_digits_val(spec_int_part(s) + spec_frac_part(s))
}

/// How many fractional digits the text carries.
pub open spec fn spec_dec_scale(s: Seq<char>) -> nat {
    spec_frac_part(s).len()
}

/// The integer digits alone, read as a number.
pub open spec fn spec_dec_int_val(s: Seq<char>) -> nat {
    spec_digits_val(spec_int_part(s))
}

/// One when the fractional part rounds the value up to the next integer
/// (round half away from zero on a non-negative value), zero otherwise.
pub open spec fn spec_round_bit(s: Seq<char>) -> nat {
    if spec_frac_part(s).len() > 0 && spec_digit_val(spec_frac_part(s)[0]) >= 5 {
        1
    } else {
        0
    }
}

/// The crypto volume coercion: an unparseable quantity (the textual form of
/// a non-finite float) saturates to the maximum, a negative one floors to
/// zero, and a finite positive one rounds to the nearest whole count,
/// saturating at the maximum.
pub open spec fn spec_coerce_volume(s: Seq<char>) -> u64 {
    if !spec_valid_decimal(s) {
        u64::MAX
    } else if spec_dec_neg(s) {
        0
    } else if spec_dec_int_val(s) + spec_round_bit(s) > u64::MAX {
        u64::MAX
    } else {
        (spec_dec_int_val(s) + spec_round_bit(s)) as u64
    }
}

/// Concatenating digit strings multiplies the left value by ten to the
/// length of the right.
pub proof fn lemma_digits_val_concat(a: Seq<char>, b: Seq<char>)
    ensures
        spec_digits_val(a + b) == spec_digits_val(a) * spec_pow10(b.len()) + spec_digits_val(b),
    decreases b.len(),
{
    if b.len() == 0 {
        assert(a + b =~= a);
        assert(spec_pow10(b.len()) == 1);
        assert(spec_digits_val(b) == 0);
        assert(spec_digits_val(a) * 1 == spec_digits_val(a));
    } else {
        let ab = a + b;
        assert(ab.drop_last() =~= a + b.drop_last());
        lemma_digits_val_concat(a, b.drop_last());
        let p = spec_pow10((b.len() - 1) as nat);
        let va = spec_digits_val(a);
        let vb = spec_digits_val(b.drop_last());
        assert(ab.last() == b.last());
        assert(spec_digits_val(ab) == (va * p + vb) * 10 + spec_digit_val(b.last()));
        assert(spec_digits_val(b) == vb * 10 + spec_digit_val(b.last()));
        assert((va * p + vb) * 10 == va * (p * 10) + vb * 10) by (nonlinear_arith);
        assert(spec_pow10(b.len()) == 10 * p);
        assert(va * (p * 10) == va * spec_pow10(b.len()));
        assert(spec_digits_val(ab) == va * spec_pow10(b.len()) + (vb * 10 + spec_digit_val(
            b.last(),
        )));
        assert(spec_digits_val(ab) == va * spec_pow10(b.len()) + spec_digits_val(b));
    }
}

/// Appending one digit multiplies the value by ten and adds the digit.
pub proof fn lemma_digits_val_push(s: Seq<char>, c: char)
    ensures
        spec_digits_val(s.push(c)) == spec_digits_val(s) * 10 + spec_digit_val(c),
{
    assert(s.push(c).drop_last() =~= s);
    assert(s.push(c).last() == c);
}

/// Ten to anything is at least one.
pub proof fn lemma_pow10_pos(n: nat)
    ensures
        spec_pow10(n) >= 1,
    decreases n,
{
    if n > 0 {
        lemma_pow10_pos((n - 1) as nat);
    }
}

/// A digit string's value is below ten to its length.
pub proof fn lemma_digits_val_bound(s: Seq<char>)
    requires
        spec_all_digits(s),
    ensures
        spec_digits_val(s) < spec_pow10(s.len()),
    decreases s.len(),
{
    if s.len() == 0 {
    } else {
        assert forall|i: int| 0 <= i < s.drop_last().len() implies spec_is_digit(
            #[trigger] s.drop_last()[i],
        ) by {
            assert(s.drop_last()[i] == s[i]);
        }
        assert(spec_is_digit(s.last()));
        lemma_digits_val_bound(s.drop_last());
        let v = spec_digits_val(s.drop_last());
        let p = spec_pow10((s.len() - 1) as nat);
        assert(v * 10 + spec_digit_val(s.last()) < p * 10) by (nonlinear_arith)
            requires
                v < p,
                spec_digit_val(s.last()) <= 9,
        ;
        assert(spec_pow10(s.len()) == 10 * p);
    }
}

/// If no `.` occurs before `d` and either `d` is the end or holds a `.`,
/// then `d` is exactly where [`spec_dot_pos`] points.
pub proof fn lemma_dot_pos_agrees(s: Seq<char>, d: int)
    requires
        0 <= d <= s.len(),
        forall|k: int| 0 <= k < d ==> s[k] != '.',
        d < s.len() ==> s[d] == '.',
    ensures
        spec_dot_pos(s) == d,
    decreases s.len(),
{
    if s.len() == 0 {
    } else if s[0] == '.' {
        assert(d == 0);
    } else {
        assert(d >= 1);
        let t = s.skip(1);
        assert forall|k: int| 0 <= k < d - 1 implies t[k] != '.' by {
            assert(t[k] == s[k + 1]);
        }
        if d - 1 < t.len() {
            assert(t[d - 1] == s[d]);
        }
        lemma_dot_pos_agrees(t, d - 1);
    }
}

/// The first-dot index always lies within the string.
pub proof fn lemma_dot_pos_bounds(s: Seq<char>)
    ensures
        0 <= spec_dot_pos(s) <= s.len(),
    decreases s.len(),
{
    if s.len() > 0 && s[0] != '.' {
        lemma_dot_pos_bounds(s.skip(1));
    }
}

/// If no `.` occurs before `m`, the first-dot index is at least `m`.
pub proof fn lemma_dot_pos_min(s: Seq<char>, m: int)
    requires
        0 <= m <= s.len(),
        forall|k: int| 0 <= k < m ==> s[k] != '.',
    ensures
        spec_dot_pos(s) >= m,
    decreases s.len(),
{
    lemma_dot_pos_bounds(s);
    if m > 0 {
        assert(s[0] != '.');
        let t = s.skip(1);
        assert forall|k: int| 0 <= k < m - 1 implies t[k] != '.' by {
            assert(t[k] == s[k + 1]);
        }
        lemma_dot_pos_min(t, m - 1);
    }
}

/// Whether `c` is an ASCII decimal digit.
pub fn is_digit(c: char) -> (r: bool)
    ensures
        r == spec_is_digit(c),
{
    let u = c as u32;
    48 <= u && u <= 57
}

/// Numeric value of a digit character.
pub fn digit_val(c: char) -> (r: u32)
    requires
        spec_is_digit(c),
    ensures
        r == spec_digit_val(c),
        r <= 9,
{
    (c as u32) - 48
}

/// Parses the decimal grammar into sign, mantissa and scale.
///
/// `None` when the text is not of that shape, or when its digits exceed what
/// the mantissa can hold.
#[verifier::rlimit(50)]
pub fn parse_decimal(s: &str) -> (r: Option<(bool, u128, usize)>)
    ensures
        r is Some <==> (spec_valid_decimal(s@) && spec_dec_mantissa(s@) <= u128::MAX),
        r matches Some(p) ==> p.0 == spec_dec_neg(s@) && p.1 == spec_dec_mantissa(s@) && p.2
            == spec_dec_scale(s@),
{
    let n = s.unicode_len();
    let neg = n > 0 && s.get_char(0) == '-';
    let off: usize = if neg {
        1
    } else {
        0
    };
    let ghost body = spec_dec_body(s@);
    proof {
        assert(neg == spec_dec_neg(s@));
        assert(body =~= s@.skip(off as int));
    }
    let mut i = off;
    let mut acc: u128 = 0;
    let mut over = false;
    while i < n && is_digit(s.get_char(i))
        invariant
            n == s@.len(),
            off <= i <= n,
            off <= n,
            body == s@.skip(off as int),
            forall|k: int| off <= k < i ==> spec_is_digit(#[trigger] s@[k]),
            !over ==> acc == spec_digits_val(s@.subrange(off as int, i as int)),
            over ==> spec_digits_val(s@.subrange(off as int, i as int)) > u128::MAX,
        decreases n - i,
    {
        let d = digit_val(s.get_char(i));
        proof {
            let pref = s@.subrange(off as int, i as int);
            assert(s@.subrange(off as int, i + 1) =~= pref.push(s@[i as int]));
            lemma_digits_val_push(pref, s@[i as int]);
            assert(spec_digits_val(pref) * 10 >= spec_digits_val(pref));
        }
        if !over {
            match acc.checked_mul(10) {
                Some(x) => match x.checked_add(d as u128) {
                    Some(y) => {
                        acc = y;
                    },
                    None => {
                        over = true;
                    },
                },
                None => {
                    over = true;
                },
            }
        }
        i = i + 1;
    }
    if i == off {
        proof {
            if body.len() == 0 {
            } else if body[0] == '.' {
            } else {
                lemma_dot_pos_bounds(body.skip(1));
                lemma_dot_pos_bounds(body);
                assert(body.take(spec_dot_pos(body))[0] == body[0]);
                assert(body[0] == s@[off as int]);
            }
            assert(!spec_valid_decimal(s@));
        }
        return None;
    }
    if i == n {
        proof {
            lemma_dot_pos_agrees(body, body.len() as int);
            assert(spec_int_part(s@) =~= s@.subrange(off as int, n as int));
            assert(spec_frac_part(s@) =~= Seq::<char>::empty());
            assert(spec_int_part(s@) + spec_frac_part(s@) =~= s@.subrange(off as int, n as int));
            assert(spec_valid_decimal(s@));
            assert(spec_dec_scale(s@) == 0);
        }
        if over {
            None
        } else {
            Some((neg, acc, 0))
        }
    } else {
        let c = s.get_char(i);
        if c != '.' {
            proof {
                lemma_dot_pos_min(body, i - off + 1);
                lemma_dot_pos_bounds(body);
                let d = spec_dot_pos(body);
                assert(body.take(d)[i - off] == body[i - off]);
                assert(body[i - off] == s@[i as int]);
                assert(!spec_all_digits(body.take(d)));
                assert(!spec_valid_decimal(s@));
            }
            return None;
        }
        proof {
            assert(body[i - off] == s@[i as int]);
            lemma_dot_pos_agrees(body, i - off);
        }
        let fstart = i + 1;
        if fstart == n {
            proof {
                assert(!spec_valid_decimal(s@));
            }
            return None;
        }
        let mut j = fstart;
        while j < n && is_digit(s.get_char(j))
            invariant
                n == s@.len(),
                off < i < n,
                i + 1 == fstart,
                fstart <= j <= n,
                fstart < n,
                body == s@.skip(off as int),
                spec_dot_pos(body) == i - off,
                s@[i as int] == '.',
                forall|k: int| off <= k < i ==> spec_is_digit(#[trigger] s@[k]),
                forall|k: int| fstart <= k < j ==> spec_is_digit(#[trigger] s@[k]),
                !over ==> acc == spec_digits_val(
                    s@.subrange(off as int, i as int) + s@.subrange(fstart as int, j as int),
                ),
                over ==> spec_digits_val(
                    s@.subrange(off as int, i as int) + s@.subrange(fstart as int, j as int),
                ) > u128::MAX,
            decreases n - j,
        {
            let d = digit_val(s.get_char(j));
            proof {
                let digs = s@.subrange(off as int, i as int) + s@.subrange(fstart as int, j as int);
                assert(s@.subrange(fstart as int, j + 1) =~= s@.subrange(
                    fstart as int,
                    j as int,
                ).push(s@[j as int]));
                assert(s@.subrange(off as int, i as int) + s@.subrange(fstart as int, j + 1)
                    =~= digs.push(s@[j as int]));
                lemma_digits_val_push(digs, s@[j as int]);
                assert(spec_digits_val(digs) * 10 >= spec_digits_val(digs));
            }
            if !over {
                match acc.checked_mul(10) {
                    Some(x) => match x.checked_add(d as u128) {
                        Some(y) => {
                            acc = y;
                        },
                        None => {
                            over = true;
                        },
                    },
                    None => {
                        over = true;
                    },
                }
            }
            j = j + 1;
        }
        proof {
            assert(spec_int_part(s@) =~= s@.subrange(off as int, i as int));
            assert(spec_frac_part(s@) =~= s@.subrange(fstart as int, n as int));
        }
        if j < n {
            proof {
                assert(spec_frac_part(s@)[j - fstart] == s@[j as int]);
                assert(!spec_all_digits(spec_frac_part(s@)));
                assert(!spec_valid_decimal(s@));
            }
            return None;
        }
        proof {
            assert(s@.subrange(fstart as int, j as int) =~= spec_frac_part(s@));
            assert(spec_valid_decimal(s@));
            assert(spec_dec_scale(s@) == n - fstart);
        }
        if over {
            None
        } else {
            Some((neg, acc, n - fstart))
        }
    }
}

/// The crypto volume coercion on the textual form of the reported quantity:
/// unparseable text (a non-finite float prints as `NaN` or `inf`) saturates
/// to `u64::MAX`, a negative quantity floors to zero, and a finite positive
/// quantity rounds to the nearest whole count, saturating at `u64::MAX`.
#[verifier::rlimit(50)]
pub fn coerce_volume(s: &str) -> (r: u64)
    ensures
        r == spec_coerce_volume(s@),
{
    let n = s.unicode_len();
    let neg = n > 0 && s.get_char(0) == '-';
    let off: usize = if neg {
        1
    } else {
        0
    };
    let ghost body = spec_dec_body(s@);
    proof {
        assert(neg == spec_dec_neg(s@));
        assert(body =~= s@.skip(off as int));
    }
    let mut i = off;
    let mut acc: u64 = 0;
    let mut over = false;
    while i < n && is_digit(s.get_char(i))
        invariant
            n == s@.len(),
            off <= i <= n,
            off <= n,
            body == s@.skip(off as int),
            forall|k: int| off <= k < i ==> spec_is_digit(#[trigger] s@[k]),
            !over ==> acc == spec_digits_val(s@.subrange(off as int, i as int)),
            over ==> spec_digits_val(s@.subrange(off as int, i as int)) > u64::MAX,
        decreases n - i,
    {
        let d = digit_val(s.get_char(i));
        proof {
            let pref = s@.subrange(off as int, i as int);
            assert(s@.subrange(off as int, i + 1) =~= pref.push(s@[i as int]));
            lemma_digits_val_push(pref, s@[i as int]);
            assert(spec_digits_val(pref) * 10 >= spec_digits_val(pref));
        }
        if !over {
            match acc.checked_mul(10) {
                Some(x) => match x.checked_add(d as u64) {
                    Some(y) => {
                        acc = y;
                    },
                    None => {
                        over = true;
                    },
                },
                None => {
                    over = true;
                },
            }
        }
        i = i + 1;
    }
    if i == off {
        proof {
            if body.len() == 0 {
            } else if body[0] == '.' {
            } else {
                lemma_dot_pos_bounds(body.skip(1));
                lemma_dot_pos_bounds(body);
                assert(body.take(spec_dot_pos(body))[0] == body[0]);
                assert(body[0] == s@[off as int]);
            }
            assert(!spec_valid_decimal(s@));
        }
        return u64::MAX;
    }
    if i == n {
        proof {
            lemma_dot_pos_agrees(body, body.len() as int);
            assert(spec_int_part(s@) =~= s@.subrange(off as int, n as int));
            assert(spec_frac_part(s@) =~= Seq::<char>::empty());
            assert(spec_valid_decimal(s@));
            assert(spec_round_bit(s@) == 0);
        }
        if neg {
            0
        } else if over {
            u64::MAX
        } else {
            acc
        }
    } else {
        let c = s.get_char(i);
        if c != '.' {
            proof {
                lemma_dot_pos_min(body, i - off + 1);
                lemma_dot_pos_bounds(body);
                let d = spec_dot_pos(body);
                assert(body.take(d)[i - off] == body[i - off]);
                assert(body[i - off] == s@[i as int]);
                assert(!spec_all_digits(body.take(d)));
                assert(!spec_valid_decimal(s@));
            }
            return u64::MAX;
        }
        proof {
            assert(body[i - off] == s@[i as int]);
            lemma_dot_pos_agrees(body, i - off);
        }
        let fstart = i + 1;
        if fstart == n {
            proof {
                assert(!spec_valid_decimal(s@));
            }
            return u64::MAX;
        }
        let mut j = fstart;
        while j < n && is_digit(s.get_char(j))
            invariant
                n == s@.len(),
                off < i < n,
                i + 1 == fstart,
                fstart <= j <= n,
                fstart < n,
                body == s@.skip(off as int),
                spec_dot_pos(body) == i - off,
                s@[i as int] == '.',
                forall|k: int| fstart <= k < j ==> spec_is_digit(#[trigger] s@[k]),
            decreases n - j,
        {
            j = j + 1;
        }
        proof {
            assert(spec_int_part(s@) =~= s@.subrange(off as int, i as int));
            assert(spec_frac_part(s@) =~= s@.subrange(fstart as int, n as int));
        }
        if j < n {
            proof {
                assert(spec_frac_part(s@)[j - fstart] == s@[j as int]);
                assert(!spec_all_digits(spec_frac_part(s@)));
                assert(!spec_valid_decimal(s@));
            }
            return u64::MAX;
        }
        proof {
            assert(spec_valid_decimal(s@));
        }
        if neg {
            return 0;
        }
        let first = s.get_char(fstart);
        proof {
            assert(spec_frac_part(s@)[0] == s@[fstart as int]);
        }
        let up = digit_val(first) >= 5;
        if over {
            u64::MAX
        } else if up {
            if acc == u64::MAX {
                u64::MAX
            } else {
                acc + 1
            }
        } else {
            acc
        }
    }
}

} // verus!
