//! Exact decimal monetary values.
//!
//! Prices arrive from the vendor as floating-point numbers and are converted
//! through their textual representation, so no binary rounding artifact ever
//! reaches a stored amount.  A value keeps the digits exactly as written:
//! `mantissa` holds every digit and `scale` how many of them are fractional.

use vstd::prelude::*;

use crate::decimal::{
    lemma_digits_val_concat, lemma_digits_val_push, lemma_dot_pos_agrees, parse_decimal,
    spec_all_digits, spec_dec_mantissa, spec_dec_neg, spec_dec_scale, spec_digit_val,
    spec_digits_val, spec_is_digit, spec_valid_decimal,
};
use crate::error::BorsaError;

verus! {

/// An ISO currency tag.  The vendor does not report a currency per series;
/// this adapter tags every amount with the caller-chosen default.
#[derive(Debug, Clone, Copy, PartialEq, Eq, Structural)]
pub enum IsoCurrency {
    USD,
    EUR,
    GBP,
    JPY,
}

/// The currency an amount is denominated in.
#[derive(Debug, Clone, Copy, PartialEq, Eq, Structural)]
pub enum Currency {
    Iso(IsoCurrency),
}

/// An exact decimal amount of one currency.
///
/// The numeric value is `mantissa / 10^scale`, negated when `neg` holds.
/// The representation keeps the digits of the source text as written; two
/// amounts compare equal exactly when their texts had the same digits.
#[derive(Debug, Clone, Copy, PartialEq, Eq, Structural)]
pub struct Money {
    /// Whether the amount carries a minus sign.
    pub neg: bool,
    /// All digits of the amount, integer and fractional, as one number.
    pub mantissa: u128,
    /// How many trailing digits of `mantissa` are fractional.
    pub scale: usize,
    /// The currency tag.
    pub currency: Currency,
}

/// The digit character for one digit value.
pub open spec fn spec_digit_char(d: nat) -> char {
    (48 + d) as char
}

/// The decimal digit string of `n`, most significant first.
pub open spec fn spec_digits_of(n: nat) -> Seq<char>
    decreases n,
{
    if n < 10 {
        seq![spec_digit_char(n)]
    } else {
        spec_digits_of(n / 10).push(spec_digit_char(n % 10))
    }
}

/// A run of `k` zero characters.
pub open spec fn spec_zeros(k: nat) -> Seq<char> {
    Seq::new(k, |i: int| '0')
}

/// The canonical text of a decimal value: the digits of `m`, zero-padded so
/// that at least one digit stands before the point, with a `.` inserted
/// before the last `scale` digits, and a leading `-` when negative.
pub open spec fn spec_render_decimal(neg: bool, m: nat, scale: nat) -> Seq<char> {
    let digs = spec_digits_of(m);
    let padded = if digs.len() > scale {
        digs
    } else {
        spec_zeros((scale + 1 - digs.len()) as nat) + digs
    };
    let core = if scale == 0 {
        padded
    } else {
        padded.take(padded.len() - scale) + seq!['.'] + padded.skip(padded.len() - scale)
    };
    if neg {
        seq!['-'] + core
    } else {
        core
    }
}

/// The digit string of `n` consists of digits, is never empty, and reads
/// back as `n`.
pub proof fn lemma_digits_of_val(n: nat)
    ensures
        spec_digits_of(n).len() >= 1,
        spec_all_digits(spec_digits_of(n)),
        spec_digits_val(spec_digits_of(n)) == n,
    decreases n,
{
    if n < 10 {
        let s = spec_digits_of(n);
        assert(s =~= seq![spec_digit_char(n)]);
        assert(s.drop_last() =~= Seq::<char>::empty());
        assert(s.last() == spec_digit_char(n));
        assert(spec_digit_val(spec_digit_char(n)) == n);
        assert(spec_is_digit(spec_digit_char(n)));
        assert(spec_digits_val(Seq::<char>::empty()) == 0);
        assert(spec_digits_val(s) == 0 * 10 + n);
    } else {
        lemma_digits_of_val(n / 10);
        lemma_digits_val_push(spec_digits_of(n / 10), spec_digit_char(n % 10));
        assert(spec_digit_val(spec_digit_char(n % 10)) == n % 10);
        assert(spec_is_digit(spec_digit_char(n % 10)));
        assert(spec_digits_val(spec_digits_of(n)) == (n / 10) * 10 + n % 10);
        assert((n / 10) * 10 + n % 10 == n);
        let s = spec_digits_of(n);
        let t = spec_digits_of(n / 10);
        assert forall|i: int| 0 <= i < s.len() implies spec_is_digit(#[trigger] s[i]) by {
            if i < t.len() {
                assert(s[i] == t[i]);
            } else {
                assert(s[i] == spec_digit_char(n % 10));
            }
        }
    }
}

/// A run of zeros consists of digits and reads back as zero.
pub proof fn lemma_zeros_val(k: nat)
    ensures
        spec_all_digits(spec_zeros(k)),
        spec_digits_val(spec_zeros(k)) == 0,
    decreases k,
{
    if k > 0 {
        lemma_zeros_val((k - 1) as nat);
        assert(spec_zeros(k).drop_last() =~= spec_zeros((k - 1) as nat));
        assert(spec_zeros(k).last() == '0');
        assert(spec_digit_val('0') == 0);
    }
}

/// Rendering then re-reading a decimal value gives back exactly the sign,
/// mantissa and scale it was rendered from.
pub proof fn lemma_render_parses(neg: bool, m: nat, scale: nat)
    ensures
        spec_valid_decimal(spec_render_decimal(neg, m, scale)),
        spec_dec_neg(spec_render_decimal(neg, m, scale)) == neg,
        spec_dec_mantissa(spec_render_decimal(neg, m, scale)) == m,
        spec_dec_scale(spec_render_decimal(neg, m, scale)) == scale,
{
    let digs = spec_digits_of(m);
    lemma_digits_of_val(m);
    let padded = if digs.len() > scale {
        digs
    } else {
        spec_zeros((scale + 1 - digs.len()) as nat) + digs
    };
    if digs.len() <= scale {
        lemma_zeros_val((scale + 1 - digs.len()) as nat);
        lemma_digits_val_concat(spec_zeros((scale + 1 - digs.len()) as nat), digs);
    }
    assert(padded.len() >= scale + 1);
    assert(spec_all_digits(padded)) by {
        if digs.len() <= scale {
            let z = spec_zeros((scale + 1 - digs.len()) as nat);
            assert forall|i: int| 0 <= i < padded.len() implies spec_is_digit(
                #[trigger] padded[i],
            ) by {
                if i < z.len() {
                    assert(padded[i] == z[i]);
                } else {
                    assert(padded[i] == digs[i - z.len()]);
                }
            }
        }
    }
    assert(spec_digits_val(padded) == m);
    let whole = spec_render_decimal(neg, m, scale);
    let l = padded.len() as int;
    if scale == 0 {
        let core = padded;
        let body = if neg {
            (seq!['-'] + core).skip(1)
        } else {
            core
        };
        assert(body =~= padded);
        assert(crate::decimal::spec_dec_body(whole) =~= padded);
        lemma_dot_pos_agrees(padded, l);
        assert(crate::decimal::spec_int_part(whole) =~= padded);
        assert(crate::decimal::spec_frac_part(whole) =~= Seq::<char>::empty());
        assert(crate::decimal::spec_int_part(whole) + crate::decimal::spec_frac_part(whole)
            =~= padded);
        assert(spec_dec_neg(whole) == neg);
    } else {
        let core = padded.take(l - scale) + seq!['.'] + padded.skip(l - scale);
        assert(whole == if neg {
            seq!['-'] + core
        } else {
            core
        });
        assert(crate::decimal::spec_dec_body(whole) =~= core) by {
            if neg {
                assert((seq!['-'] + core).skip(1) =~= core);
                assert((seq!['-'] + core)[0] == '-');
            } else {
                assert(core[0] == padded[0]);
                assert(spec_is_digit(padded[0]));
            }
        }
        let d = l - scale;
        assert(1 <= d);
        assert forall|k: int| 0 <= k < d implies #[trigger] core[k] != '.' by {
            assert(core[k] == padded[k]);
            assert(spec_is_digit(padded[k]));
        }
        assert(core[d] == '.');
        lemma_dot_pos_agrees(core, d);
        assert(crate::decimal::spec_int_part(whole) =~= padded.take(d));
        assert(crate::decimal::spec_frac_part(whole) =~= padded.skip(d));
        assert(crate::decimal::spec_int_part(whole) + crate::decimal::spec_frac_part(whole)
            =~= padded);
        assert(spec_all_digits(padded.take(d)));
        assert(spec_all_digits(padded.skip(d))) by {
            assert(forall|i: int|
                0 <= i < padded.skip(d).len() ==> #[trigger] padded.skip(d)[i] == padded[i + d]);
        }
        assert(spec_dec_neg(whole) == neg) by {
            if !neg {
                assert(whole[0] == padded[0]);
                assert(spec_is_digit(padded[0]));
            }
        }
        assert(spec_dec_scale(whole) == scale);
    }
}

/// One digit as a string slice.
fn digit_str(d: u32) -> (r: &'static str)
    requires
        d <= 9,
    ensures
        r@ == seq![spec_digit_char(d as nat)],
{
    if d == 0 {
        proof {
            reveal_strlit("0");
            assert("0"@ =~= seq![spec_digit_char(0nat)]);
        }
        "0"
    } else if d == 1 {
        proof {
            reveal_strlit("1");
            assert("1"@ =~= seq![spec_digit_char(1nat)]);
        }
        "1"
    } else if d == 2 {
        proof {
            reveal_strlit("2");
            assert("2"@ =~= seq![spec_digit_char(2nat)]);
        }
        "2"
    } else if d == 3 {
        proof {
            reveal_strlit("3");
            assert("3"@ =~= seq![spec_digit_char(3nat)]);
        }
        "3"
    } else if d == 4 {
        proof {
            reveal_strlit("4");
            assert("4"@ =~= seq![spec_digit_char(4nat)]);
        }
        "4"
    } else if d == 5 {
        proof {
            reveal_strlit("5");
            assert("5"@ =~= seq![spec_digit_char(5nat)]);
        }
        "5"
    } else if d == 6 {
        proof {
            reveal_strlit("6");
            assert("6"@ =~= seq![spec_digit_char(6nat)]);
        }
        "6"
    } else if d == 7 {
        proof {
            reveal_strlit("7");
            assert("7"@ =~= seq![spec_digit_char(7nat)]);
        }
        "7"
    } else if d == 8 {
        proof {
            reveal_strlit("8");
            assert("8"@ =~= seq![spec_digit_char(8nat)]);
        }
        "8"
    } else {
        proof {
            reveal_strlit("9");
            assert("9"@ =~= seq![spec_digit_char(9nat)]);
        }
        "9"
    }
}

/// Appends the decimal digits of `n` to `out`.
fn append_digits(out: &mut String, n: u128)
    ensures
        final(out)@ == old(out)@ + spec_digits_of(n as nat),
    decreases n,
{
    if n < 10 {
        let s = digit_str(n as u32);
        out.append(s);
        proof {
            assert(out@ =~= old(out)@ + spec_digits_of(n as nat));
        }
    } else {
        let ghost before = out@;
        append_digits(out, n / 10);
        let s = digit_str((n % 10) as u32);
        out.append(s);
        proof {
            assert(spec_digits_of((n / 10) as nat) + seq![spec_digit_char((n % 10) as nat)]
                =~= spec_digits_of((n / 10) as nat).push(spec_digit_char((n % 10) as nat)));
            assert(out@ =~= before + spec_digits_of(n as nat));
        }
    }
}

impl Money {
    /// The amount is strictly positive.
    pub open spec fn spec_positive(self) -> bool {
        !self.neg && self.mantissa > 0
    }

    /// Whether the amount is strictly positive.
    pub fn is_positive(&self) -> (r: bool)
        ensures
            r == self.spec_positive(),
    {
        !self.neg && self.mantissa > 0
    }

    /// Parses a canonical decimal text (`-? digit+ (. digit+)?`) into an
    /// amount of the given currency.  Rejects any other shape, and digits
    /// beyond what the mantissa can hold.
    pub fn from_canonical_str(s: &str, currency: Currency) -> (r: Result<Money, BorsaError>)
        ensures
            spec_valid_decimal(s@) && spec_dec_mantissa(s@) <= u128::MAX ==> (r matches Ok(m)
                && m.neg == spec_dec_neg(s@) && m.mantissa == spec_dec_mantissa(s@) && m.scale
                == spec_dec_scale(s@) && m.currency == currency),
            !(spec_valid_decimal(s@) && spec_dec_mantissa(s@) <= u128::MAX) ==> (r matches Err(e)
                && e matches BorsaError::InvalidArg(msg) && msg@ == "invalid decimal amount: '"@
                + s@ + "'"@),
    {
        match parse_decimal(s) {
            Some((neg, mantissa, scale)) => Ok(
                Money { neg, mantissa, scale, currency },
            ),
            None => {
                let mut msg = String::new();
                msg.append("invalid decimal amount: '");
                msg.append(s);
                msg.append("'");
                Err(BorsaError::InvalidArg(msg))
            },
        }
    }

    /// The canonical text of this amount: exactly the digits it was parsed
    /// from (up to leading zeros), with the same scale.
    pub fn canonical_str(&self) -> (r: String)
        ensures
            r@ == spec_render_decimal(self.neg, self.mantissa as nat, self.scale as nat),
    {
        proof {
            lemma_digits_of_val(self.mantissa as nat);
        }
        let mut digits = String::new();
        append_digits(&mut digits, self.mantissa);
        let dl = digits.as_str().unicode_len();
        let mut out = String::new();
        if self.neg {
            out.append("-");
            proof {
                reveal_strlit("-");
                assert(out@ =~= seq!['-']);
            }
        }
        let ghost prefix = out@;
        if self.scale == 0 {
            out.append(digits.as_str());
            proof {
                assert(out@ =~= spec_render_decimal(
                    self.neg,
                    self.mantissa as nat,
                    self.scale as nat,
                ));
            }
        } else if dl > self.scale {
            let ip = digits.as_str().substring_char(0, dl - self.scale);
            out.append(ip);
            out.append(".");
            let fp = digits.as_str().substring_char(dl - self.scale, dl);
            out.append(fp);
            proof {
                reveal_strlit(".");
                assert("."@ =~= seq!['.']);
                assert(out@ =~= spec_render_decimal(
                    self.neg,
                    self.mantissa as nat,
                    self.scale as nat,
                ));
            }
        } else {
            out.append("0");
            out.append(".");
            proof {
                reveal_strlit("0");
                reveal_strlit(".");
                assert("0"@ =~= seq!['0']);
                assert("."@ =~= seq!['.']);
            }
            let ghost mid = out@;
            let pad = self.scale - dl;
            let mut k: usize = 0;
            while k < pad
                invariant
                    k <= pad,
                    out@ == mid + spec_zeros(k as nat),
                decreases pad - k,
            {
                out.append("0");
                proof {
                    reveal_strlit("0");
                    assert(out@ =~= mid + spec_zeros((k + 1) as nat));
                }
                k = k + 1;
            }
            out.append(digits.as_str());
            proof {
                let m = self.mantissa as nat;
                let scale = self.scale as nat;
                let digs = spec_digits_of(m);
                let z = spec_zeros((scale + 1 - digs.len()) as nat);
                let padded = z + digs;
                assert(padded.len() == scale + 1);
                assert(padded.take(padded.len() - scale as int) =~= seq!['0']) by {
                    assert(padded[0] == z[0]);
                }
                assert(padded.skip(padded.len() - scale as int) =~= spec_zeros(
                    (scale - digs.len()) as nat,
                ) + digs) by {
                    assert forall|i: int| 0 <= i < scale implies padded.skip(1)[i] == (spec_zeros(
                        (scale - digs.len()) as nat,
                    ) + digs)[i] by {
                        if i < scale - digs.len() {
                            assert(padded.skip(1)[i] == z[i + 1]);
                        } else {
                            assert(padded.skip(1)[i] == digs[i + 1 - z.len()]);
                        }
                    }
                }
                assert(out@ =~= spec_render_decimal(self.neg, m, scale));
            }
        }
        out
    }
}

/// The canonical text of an amount reads back as exactly that amount: for
/// every value, parsing `canonical_str` yields the same sign, mantissa and
/// scale, so a decimal amount survives a round trip through its text.
pub proof fn lemma_money_round_trip(m: Money)
    ensures
        spec_valid_decimal(spec_render_decimal(m.neg, m.mantissa as nat, m.scale as nat)),
        spec_dec_neg(spec_render_decimal(m.neg, m.mantissa as nat, m.scale as nat)) == m.neg,
        spec_dec_mantissa(spec_render_decimal(m.neg, m.mantissa as nat, m.scale as nat))
            == m.mantissa,
        spec_dec_scale(spec_render_decimal(m.neg, m.mantissa as nat, m.scale as nat)) == m.scale,
{
    lemma_render_parses(m.neg, m.mantissa as nat, m.scale as nat);
}

} // verus!
