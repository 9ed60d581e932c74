//! The civil calendar's day count.
//!
//! `epoch_days_of` maps a Gregorian calendar date to the number of days
//! from 1970-01-01, by the standard era/year-of-era formula over the
//! 400-year cycle, with the year taken to start in March so that a
//! possible leap day falls at the year's end. The date crate computes
//! exactly this function, so the trusted wrappers state their results
//! through it, and the laws below — strict monotonicity over calendar
//! order, hence injectivity on valid dates — are what let decomposed
//! epoch seconds recover the calendar components they were built from.

use vstd::arithmetic::div_mod::{
    lemma_div_is_ordered, lemma_fundamental_div_mod, lemma_fundamental_div_mod_converse,
    lemma_mod_multiples_vanish,
};
use vstd::prelude::*;

verus! {

/// Gregorian leap year.
pub open spec fn is_leap_year(y: int) -> bool {
    y % 4 == 0 && (y % 100 != 0 || y % 400 == 0)
}

/// Days in a month of the Gregorian calendar.
pub open spec fn days_in_month(y: int, m: int) -> int {
    if m == 1 || m == 3 || m == 5 || m == 7 || m == 8 || m == 10 || m == 12 {
        31
    } else if m == 4 || m == 6 || m == 9 || m == 11 {
        30
    } else if is_leap_year(y) {
        29
    } else {
        28
    }
}

/// A calendar date the epoch-based clock can represent.
pub open spec fn valid_civil_date(y: int, m: int, d: int) -> bool {
    &&& 1970 <= y
    &&& 1 <= m <= 12
    &&& 1 <= d <= days_in_month(y, m)
}

/// Calendar order on dates.
pub open spec fn civil_before(y1: int, m1: int, d1: int, y2: int, m2: int, d2: int) -> bool {
    ||| y1 < y2
    ||| (y1 == y2 && m1 < m2)
    ||| (y1 == y2 && m1 == m2 && d1 < d2)
}

/// The shifted year the day-count formula works in: January and February
/// count as the tail of the preceding year.
pub open spec fn shifted_year(year: int, month: int) -> int {
    if month <= 2 {
        year - 1
    } else {
        year
    }
}

/// The shifted month index: 0 is March, 11 is February.
pub open spec fn shifted_month(month: int) -> int {
    if month > 2 {
        month - 3
    } else {
        month + 9
    }
}

/// Days from era day 0 to the start of shifted year `yp`: whole 400-year
/// eras of 146097 days, plus 365 per year of the era and one more for
/// each leap year passed.
pub open spec fn year_start_days(yp: int) -> int {
    let era = yp / 400;
    let yoe = yp - era * 400;
    era * 146097 + yoe * 365 + yoe / 4 - yoe / 100
}

/// Day of the shifted year on which shifted month `mp` begins.
pub open spec fn month_start_doy(mp: int) -> int {
    (153 * mp + 2) / 5
}

/// Day of the shifted year of the given calendar month and day.
pub open spec fn civil_doy(month: int, day: int) -> int {
    month_start_doy(shifted_month(month)) + day - 1
}

/// Days from the epoch (1970-01-01) to the given calendar date.
pub open spec fn epoch_days_of(year: int, month: int, day: int) -> int {
    year_start_days(shifted_year(year, month)) + civil_doy(month, day) - 719468
}

/// One shifted year advances the start-of-year count by 365 days, or 366
/// when the civil year that ends it (`yp + 1`, whose February it holds)
/// is a leap year.
proof fn lemma_year_start_step(yp: int)
    requires
        yp >= 0,
    ensures
        year_start_days(yp + 1) == year_start_days(yp) + (if is_leap_year(yp + 1) {
            366int
        } else {
            365int
        }),
{
    let era = yp / 400;
    let yoe = yp % 400;
    lemma_fundamental_div_mod(yp, 400);
    assert(yp == 400 * era + yoe);
    assert(0 <= yoe < 400);
    if yoe == 399 {
        assert(yp + 1 == (era + 1) * 400);
        lemma_fundamental_div_mod_converse(yp + 1, 400, era + 1, 0);
        lemma_fundamental_div_mod_converse(yp + 1, 4, (era + 1) * 100, 0);
        lemma_fundamental_div_mod_converse(yp + 1, 100, (era + 1) * 4, 0);
        assert(is_leap_year(yp + 1));
        assert(year_start_days(yp + 1) == (era + 1) * 146097);
        assert(year_start_days(yp) == era * 146097 + 399 * 365 + 399int / 4 - 399int / 100);
    } else {
        lemma_fundamental_div_mod_converse(yp + 1, 400, era, yoe + 1);
        assert(year_start_days(yp + 1) == era * 146097 + (yoe + 1) * 365 + (yoe + 1) / 4 - (yoe
            + 1) / 100);
        // The divisibility of yp + 1 matches that of yoe + 1.
        lemma_mod_multiples_vanish(100 * era, yoe + 1, 4);
        lemma_mod_multiples_vanish(4 * era, yoe + 1, 100);
        lemma_mod_multiples_vanish(era, yoe + 1, 400);
        assert(400 * era == 4 * (100 * era) && 400 * era == 100 * (4 * era)) by (nonlinear_arith);
        assert((yp + 1) % 4 == (yoe + 1) % 4);
        assert((yp + 1) % 100 == (yoe + 1) % 100);
        lemma_fundamental_div_mod_converse(yoe + 1, 400, 0, yoe + 1);
        assert((yp + 1) % 400 == yoe + 1);
        // Pin the two division steps.
        let q4 = yoe / 4;
        let r4 = yoe % 4;
        lemma_fundamental_div_mod(yoe, 4);
        if r4 == 3 {
            lemma_fundamental_div_mod_converse(yoe + 1, 4, q4 + 1, 0);
        } else {
            lemma_fundamental_div_mod_converse(yoe + 1, 4, q4, r4 + 1);
        }
        let q100 = yoe / 100;
        let r100 = yoe % 100;
        lemma_fundamental_div_mod(yoe, 100);
        if r100 == 99 {
            lemma_fundamental_div_mod_converse(yoe + 1, 100, q100 + 1, 0);
            // A multiple of 100 is a multiple of 4.
            lemma_fundamental_div_mod_converse(yoe + 1, 4, (q100 + 1) * 25, 0);
            assert((q100 + 1) * 100 == ((q100 + 1) * 25) * 4) by (nonlinear_arith);
        } else {
            lemma_fundamental_div_mod_converse(yoe + 1, 100, q100, r100 + 1);
        }
    }
}

/// The start-of-year count grows by at least 365 days per year.
proof fn lemma_year_start_mono(yp1: int, yp2: int)
    requires
        0 <= yp1 <= yp2,
    ensures
        year_start_days(yp1) + 365 * (yp2 - yp1) <= year_start_days(yp2),
    decreases yp2 - yp1,
{
    if yp1 < yp2 {
        lemma_year_start_step(yp2 - 1);
        lemma_year_start_mono(yp1, yp2 - 1);
    }
}

/// Bounds of the day-of-year of a valid date: it is non-negative, a date
/// outside February ends before the next month begins, and no date passes
/// the year's last day (364, or 365 with a leap day).
proof fn lemma_doy_bounds(y: int, m: int, d: int)
    requires
        valid_civil_date(y, m, d),
    ensures
        0 <= shifted_month(m) <= 11,
        0 <= civil_doy(m, d),
        m != 2 ==> civil_doy(m, d) < month_start_doy(shifted_month(m) + 1) && civil_doy(m, d)
            <= 336,
        civil_doy(m, d) <= 364 + (if is_leap_year(y) {
            1int
        } else {
            0int
        }),
{
    assert(month_start_doy(0) == 0);
    assert(month_start_doy(1) == 31);
    assert(month_start_doy(2) == 61);
    assert(month_start_doy(3) == 92);
    assert(month_start_doy(4) == 122);
    assert(month_start_doy(5) == 153);
    assert(month_start_doy(6) == 184);
    assert(month_start_doy(7) == 214);
    assert(month_start_doy(8) == 245);
    assert(month_start_doy(9) == 275);
    assert(month_start_doy(10) == 306);
    assert(month_start_doy(11) == 337);
}

/// The day count is strictly monotone over calendar order.
pub proof fn lemma_epoch_days_strict_mono(y1: int, m1: int, d1: int, y2: int, m2: int, d2: int)
    requires
        valid_civil_date(y1, m1, d1),
        valid_civil_date(y2, m2, d2),
        civil_before(y1, m1, d1, y2, m2, d2),
    ensures
        epoch_days_of(y1, m1, d1) < epoch_days_of(y2, m2, d2),
{
    let yp1 = shifted_year(y1, m1);
    let mp1 = shifted_month(m1);
    let yp2 = shifted_year(y2, m2);
    let mp2 = shifted_month(m2);
    lemma_doy_bounds(y1, m1, d1);
    lemma_doy_bounds(y2, m2, d2);
    assert(yp1 <= yp2);
    if yp1 == yp2 {
        // Same shifted year: the dates are ordered within it.
        if mp1 == mp2 {
            assert(m1 == m2 && d1 < d2);
        } else {
            assert(mp1 < mp2);
            assert(m1 != 2);
            lemma_div_is_ordered(153 * (mp1 + 1) + 2, 153 * mp2 + 2, 5);
            assert(civil_doy(m1, d1) < month_start_doy(mp1 + 1) <= month_start_doy(mp2)
                <= civil_doy(m2, d2));
        }
    } else {
        // Later shifted year: at least one whole year lies between, and
        // the first year's possible leap day is matched by its length.
        assert(yp1 >= 1969);
        lemma_year_start_step(yp1);
        lemma_year_start_mono(yp1 + 1, yp2);
        let leap1: int = if is_leap_year(yp1 + 1) {
            1
        } else {
            0
        };
        assert(year_start_days(yp2) >= year_start_days(yp1) + 365 + leap1);
        if m1 == 2 {
            assert(y1 == yp1 + 1);
            assert(civil_doy(m1, d1) <= 364 + leap1);
        } else {
            assert(civil_doy(m1, d1) <= 336);
        }
    }
}

/// The day count never decreases over calendar order.
pub proof fn lemma_epoch_days_le(y1: int, m1: int, d1: int, y2: int, m2: int, d2: int)
    requires
        valid_civil_date(y1, m1, d1),
        valid_civil_date(y2, m2, d2),
        civil_before(y1, m1, d1, y2, m2, d2) || (y1 == y2 && m1 == m2 && d1 == d2),
    ensures
        epoch_days_of(y1, m1, d1) <= epoch_days_of(y2, m2, d2),
{
    if civil_before(y1, m1, d1, y2, m2, d2) {
        lemma_epoch_days_strict_mono(y1, m1, d1, y2, m2, d2);
    }
}

/// On valid dates the day count is injective: equal day numbers name the
/// same calendar date.
pub proof fn lemma_epoch_days_injective(y1: int, m1: int, d1: int, y2: int, m2: int, d2: int)
    requires
        valid_civil_date(y1, m1, d1),
        valid_civil_date(y2, m2, d2),
        epoch_days_of(y1, m1, d1) == epoch_days_of(y2, m2, d2),
    ensures
        y1 == y2 && m1 == m2 && d1 == d2,
{
    if civil_before(y1, m1, d1, y2, m2, d2) {
        lemma_epoch_days_strict_mono(y1, m1, d1, y2, m2, d2);
    } else if civil_before(y2, m2, d2, y1, m1, d1) {
        lemma_epoch_days_strict_mono(y2, m2, d2, y1, m1, d1);
    }
}

/// Every valid date lies on or after the epoch.
pub proof fn lemma_epoch_days_nonneg(y: int, m: int, d: int)
    requires
        valid_civil_date(y, m, d),
    ensures
        epoch_days_of(y, m, d) >= 0,
{
    assert(epoch_days_of(1970, 1, 1) == 0);
    lemma_epoch_days_le(1970, 1, 1, y, m, d);
}

} // verus!
