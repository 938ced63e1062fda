//! Earnings normalization: fiscal periods parsed from the vendor's date
//! strings, and the raw annual/quarterly records mapped into the canonical
//! earnings shape.

use vstd::prelude::*;

use crate::decimal::{
    digit_val, is_digit, lemma_digits_val_bound, lemma_pow10_pos, spec_digit_val, spec_digits_val,
    spec_is_digit, spec_pow10,
};
use crate::domain::{Earnings, EarningsQuarter, EarningsQuarterEps, EarningsYear, Period};
use crate::money::Money;

verus! {

/// Every character of `s` in `[from, to)` is a digit.
pub open spec fn spec_digits_range(s: Seq<char>, from: int, to: int) -> bool {
    forall|k: int| from <= k < to ==> spec_is_digit(#[trigger] s[k])
}

/// The fiscal-period grammar: a calendar year `YYYY`, a quarter `YYYYQn`
/// with `n` in 1 through 4, or a calendar date `YYYY-MM-DD` with a month
/// in 1 through 12 and a day in 1 through 31.
pub open spec fn spec_parse_period(s: Seq<char>) -> Option<Period> {
    if s.len() == 4 && spec_digits_range(s, 0, 4) {
        Some(Period::Year { year: spec_digits_val(s.subrange(0, 4)) as i32 })
    } else if s.len() == 6 && spec_digits_range(s, 0, 4) && s[4] == 'Q' && spec_is_digit(s[5]) && 1
        <= spec_digit_val(s[5]) <= 4 {
        Some(
            Period::Quarter {
                year: spec_digits_val(s.subrange(0, 4)) as i32,
                quarter: spec_digit_val(s[5]) as u8,
            },
        )
    } else if s.len() == 10 && spec_digits_range(s, 0, 4) && s[4] == '-' && spec_digits_range(
        s,
        5,
        7,
    ) && s[7] == '-' && spec_digits_range(s, 8, 10) && 1 <= spec_digits_val(s.subrange(5, 7)) <= 12
        && 1 <= spec_digits_val(s.subrange(8, 10)) <= 31 {
        Some(
            Period::Date {
                year: spec_digits_val(s.subrange(0, 4)) as i32,
                month: spec_digits_val(s.subrange(5, 7)) as u8,
                day: spec_digits_val(s.subrange(8, 10)) as u8,
            },
        )
    } else {
        None
    }
}

/// The year read off the first four characters of a fiscal date, with an
/// optional leading minus; anything else counts as year zero.
pub open spec fn spec_year_prefix(s: Seq<char>) -> int {
    if s.len() >= 4 && spec_digits_range(s, 0, 4) {
        spec_digits_val(s.subrange(0, 4)) as int
    } else if s.len() >= 4 && s[0] == '-' && spec_digits_range(s, 1, 4) {
        -(spec_digits_val(s.subrange(1, 4)) as int)
    } else {
        0
    }
}

/// The value of up to four digit characters of `s`.
fn digits_value(s: &str, from: usize, to: usize) -> (r: u32)
    requires
        from <= to <= s@.len(),
        to - from <= 4,
        spec_digits_range(s@, from as int, to as int),
    ensures
        r == spec_digits_val(s@.subrange(from as int, to as int)),
        r <= 9999,
{
    proof {
        assert forall|k: int| 0 <= k < s@.subrange(from as int, to as int).len() implies
            spec_is_digit(#[trigger] s@.subrange(from as int, to as int)[k]) by {
            assert(s@.subrange(from as int, to as int)[k] == s@[from + k]);
        }
        lemma_digits_val_bound(s@.subrange(from as int, to as int));
        lemma_pow10_pos((to - from) as nat);
    }
    let mut acc: u32 = 0;
    let mut i = from;
    while i < to
        invariant
            from <= i <= to <= s@.len(),
            to - from <= 4,
            forall|k: int| from <= k < to ==> spec_is_digit(#[trigger] s@[k]),
            acc == spec_digits_val(s@.subrange(from as int, i as int)),
            acc < spec_pow10((i - from) as nat),
        decreases to - i,
    {
        let d = digit_val(s.get_char(i));
        proof {
            let pref = s@.subrange(from as int, i as int);
            assert(s@.subrange(from as int, i + 1) =~= pref.push(s@[i as int]));
            crate::decimal::lemma_digits_val_push(pref, s@[i as int]);
            assert(spec_pow10((i + 1 - from) as nat) == 10 * spec_pow10((i - from) as nat));
            assert(acc * 10 + spec_digit_val(s@[i as int]) < spec_pow10((i - from) as nat) * 10)
                by (nonlinear_arith)
                requires
                    acc < spec_pow10((i - from) as nat),
                    spec_digit_val(s@[i as int]) <= 9,
            ;
            assert(spec_pow10((i - from) as nat) <= spec_pow10(4nat)) by {
                lemma_pow10_mono((i - from) as nat, 4nat);
            }
            assert(spec_pow10(4nat) == 10000) by {
                reveal_with_fuel(spec_pow10, 5);
            }
        }
        acc = acc * 10 + d;
        i = i + 1;
    }
    proof {
        assert(spec_pow10((to - from) as nat) <= 10000) by {
            lemma_pow10_mono((to - from) as nat, 4nat);
            assert(spec_pow10(4nat) == 10000) by {
                reveal_with_fuel(spec_pow10, 5);
            }
        }
    }
    acc
}

/// Ten-to-the is monotone in the exponent.
proof fn lemma_pow10_mono(a: nat, b: nat)
    requires
        a <= b,
    ensures
        spec_pow10(a) <= spec_pow10(b),
    decreases b,
{
    if a < b {
        lemma_pow10_mono(a, (b - 1) as nat);
        lemma_pow10_pos((b - 1) as nat);
    }
}

/// Parses a fiscal period from the vendor's date text.
pub fn parse_period(s: &str) -> (r: Option<Period>)
    ensures
        r == spec_parse_period(s@),
{
    let n = s.unicode_len();
    if n == 4 {
        if all_digits_range(s, 0, 4) {
            let year = digits_value(s, 0, 4);
            Some(Period::Year { year: year as i32 })
        } else {
            None
        }
    } else if n == 6 {
        if all_digits_range(s, 0, 4) && s.get_char(4) == 'Q' && is_digit(s.get_char(5)) {
            let q = digit_val(s.get_char(5));
            if 1 <= q && q <= 4 {
                let year = digits_value(s, 0, 4);
                Some(Period::Quarter { year: year as i32, quarter: q as u8 })
            } else {
                None
            }
        } else {
            None
        }
    } else if n == 10 {
        if all_digits_range(s, 0, 4) && s.get_char(4) == '-' && all_digits_range(s, 5, 7)
            && s.get_char(7) == '-' && all_digits_range(s, 8, 10) {
            let year = digits_value(s, 0, 4);
            let month = digits_value(s, 5, 7);
            let day = digits_value(s, 8, 10);
            if 1 <= month && month <= 12 && 1 <= day && day <= 31 {
                Some(
                    Period::Date { year: year as i32, month: month as u8, day: day as u8 },
                )
            } else {
                None
            }
        } else {
            None
        }
    } else {
        None
    }
}

/// Whether every character of `s` in `[from, to)` is a digit.
fn all_digits_range(s: &str, from: usize, to: usize) -> (r: bool)
    requires
        from <= to <= s@.len(),
    ensures
        r == spec_digits_range(s@, from as int, to as int),
{
    let mut i = from;
    while i < to
        invariant
            from <= i <= to <= s@.len(),
            forall|k: int| from <= k < i ==> spec_is_digit(#[trigger] s@[k]),
        decreases to - i,
    {
        if !is_digit(s.get_char(i)) {
            return false;
        }
        i = i + 1;
    }
    true
}

/// The year read off the first four characters of a fiscal date; anything
/// unreadable counts as year zero.
pub fn year_prefix(s: &str) -> (r: i32)
    ensures
        r == spec_year_prefix(s@),
{
    let n = s.unicode_len();
    if n < 4 {
        return 0;
    }
    if all_digits_range(s, 0, 4) {
        let v = digits_value(s, 0, 4);
        v as i32
    } else if s.get_char(0) == '-' && all_digits_range(s, 1, 4) {
        let v = digits_value(s, 1, 4);
        0 - (v as i32)
    } else {
        0
    }
}

/// One raw annual earnings record, as the transport hands it over.
#[derive(Debug, Clone, PartialEq)]
pub struct RawAnnualEarning {
    /// The fiscal year end date text.
    pub fiscal_date_ending: String,
}

/// One raw quarterly earnings record.
#[derive(Debug, Clone, PartialEq)]
pub struct RawQuarterlyEarning {
    /// The fiscal quarter end date text.
    pub fiscal_date_ending: String,
    /// The report date text; may be empty.
    pub reported_date: String,
    /// Earnings per share actually reported, when present.
    pub reported_eps: Option<Money>,
    /// Earnings per share estimated beforehand.
    pub estimated_eps: Money,
}

/// The fiscal period of a quarterly EPS record: the report date when one
/// is present, the fiscal quarter end otherwise; unparseable text falls
/// back to year zero.
pub open spec fn spec_eps_period(q: RawQuarterlyEarning) -> Period {
    let src = if q.reported_date@.len() == 0 {
        q.fiscal_date_ending@
    } else {
        q.reported_date@
    };
    match spec_parse_period(src) {
        Some(p) => p,
        None => Period::Year { year: 0 },
    }
}

/// The fiscal period of a quarterly record, from its fiscal quarter end.
pub open spec fn spec_quarter_period(q: RawQuarterlyEarning) -> Period {
    match spec_parse_period(q.fiscal_date_ending@) {
        Some(p) => p,
        None => Period::Year { year: 0 },
    }
}

/// Maps the vendor's earnings payload into the canonical shape: one yearly
/// record per annual entry carrying the year read off its fiscal date, and
/// one quarterly and one EPS record per quarterly entry.  The vendor
/// reports neither revenue nor total earnings, so those stay absent.
pub fn map_earnings(annual: &Vec<RawAnnualEarning>, quarterly: &Vec<RawQuarterlyEarning>) -> (r:
    Earnings)
    ensures
        r.yearly@.len() == annual@.len(),
        forall|i: int|
            0 <= i < annual@.len() ==> #[trigger] r.yearly@[i] == (EarningsYear {
                year: spec_year_prefix(annual@[i].fiscal_date_ending@) as i32,
                revenue: None,
                earnings: None,
            }),
        r.quarterly@.len() == quarterly@.len(),
        forall|i: int|
            0 <= i < quarterly@.len() ==> #[trigger] r.quarterly@[i] == (EarningsQuarter {
                period: spec_quarter_period(quarterly@[i]),
                revenue: None,
                earnings: None,
            }),
        r.quarterly_eps@.len() == quarterly@.len(),
        forall|i: int|
            0 <= i < quarterly@.len() ==> #[trigger] r.quarterly_eps@[i] == (EarningsQuarterEps {
                period: spec_eps_period(quarterly@[i]),
                actual: quarterly@[i].reported_eps,
                estimate: Some(quarterly@[i].estimated_eps),
            }),
{
    let mut yearly: Vec<EarningsYear> = Vec::new();
    let mut i: usize = 0;
    let na = annual.len();
    while i < na
        invariant
            na == annual@.len(),
            i <= na,
            yearly@.len() == i,
            forall|k: int|
                0 <= k < i ==> #[trigger] yearly@[k] == (EarningsYear {
                    year: spec_year_prefix(annual@[k].fiscal_date_ending@) as i32,
                    revenue: None,
                    earnings: None,
                }),
        decreases na - i,
    {
        let year = year_prefix(annual[i].fiscal_date_ending.as_str());
        yearly.push(EarningsYear { year, revenue: None, earnings: None });
        i = i + 1;
    }
    let mut quarterly_out: Vec<EarningsQuarter> = Vec::new();
    let mut quarterly_eps: Vec<EarningsQuarterEps> = Vec::new();
    let nq = quarterly.len();
    let mut j: usize = 0;
    while j < nq
        invariant
            nq == quarterly@.len(),
            j <= nq,
            quarterly_out@.len() == j,
            quarterly_eps@.len() == j,
            forall|k: int|
                0 <= k < j ==> #[trigger] quarterly_out@[k] == (EarningsQuarter {
                    period: spec_quarter_period(quarterly@[k]),
                    revenue: None,
                    earnings: None,
                }),
            forall|k: int|
                0 <= k < j ==> #[trigger] quarterly_eps@[k] == (EarningsQuarterEps {
                    period: spec_eps_period(quarterly@[k]),
                    actual: quarterly@[k].reported_eps,
                    estimate: Some(quarterly@[k].estimated_eps),
                }),
        decreases nq - j,
    {
        let q = &quarterly[j];
        let eps_src = if q.reported_date.as_str().unicode_len() == 0 {
            q.fiscal_date_ending.as_str()
        } else {
            q.reported_date.as_str()
        };
        let eps_period = match parse_period(eps_src) {
            Some(p) => p,
            None => Period::Year { year: 0 },
        };
        let quarter_period = match parse_period(q.fiscal_date_ending.as_str()) {
            Some(p) => p,
            None => Period::Year { year: 0 },
        };
        quarterly_eps.push(
            EarningsQuarterEps {
                period: eps_period,
                actual: q.reported_eps,
                estimate: Some(q.estimated_eps),
            },
        );
        quarterly_out.push(
            EarningsQuarter { period: quarter_period, revenue: None, earnings: None },
        );
        j = j + 1;
    }
    Earnings { yearly, quarterly: quarterly_out, quarterly_eps }
}

} // verus!
