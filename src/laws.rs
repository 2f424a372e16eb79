use vstd::prelude::*;
use vstd::arithmetic::div_mod::{lemma_fundamental_div_mod, lemma_fundamental_div_mod_converse};
use crate::calendar::{
    days_before_month, days_before_year, days_in_month, is_leap_year, valid_ymd, CalendarDate,
    Instant,
};

verus! {

proof fn lemma_div_step(y: int, d: int)
    requires
        d > 0,
    ensures
        y / d - (y - 1) / d == (if y % d == 0 { 1int } else { 0int }),
{
    let q = (y - 1) / d;
    let r = (y - 1) % d;
    lemma_fundamental_div_mod(y - 1, d);
    if r + 1 < d {
        lemma_fundamental_div_mod_converse(y, d, q, r + 1);
    } else {
        assert((q + 1) * d == d * q + d) by (nonlinear_arith);
        lemma_fundamental_div_mod_converse(y, d, q + 1, 0);
    }
}

proof fn lemma_year_length(y: int)
    ensures
        days_before_year(y + 1) - days_before_year(y) == (if is_leap_year(y) { 366int } else { 365int }),
{
    lemma_div_step(y, 4);
    lemma_div_step(y, 100);
    lemma_div_step(y, 400);
    lemma_fundamental_div_mod(y, 400);
    lemma_fundamental_div_mod(y, 100);
    if y % 400 == 0 {
        lemma_fundamental_div_mod_converse(y, 100, (y / 400) * 4, 0);
        lemma_fundamental_div_mod_converse(y, 4, (y / 400) * 100, 0);
    }
    if y % 100 == 0 {
        lemma_fundamental_div_mod_converse(y, 4, (y / 100) * 25, 0);
    }
}

proof fn lemma_years_ordered(a: int, b: int)
    requires
        a <= b,
    ensures
        days_before_year(a) + 365 * (b - a) <= days_before_year(b),
    decreases b - a,
{
    if a < b {
        lemma_years_ordered(a, b - 1);
        lemma_year_length(b - 1);
    }
}

/// Days from the first day of the year to the given day, counted from zero.
spec fn day_of_year(y: int, m: int, d: int) -> int {
    days_before_month(y, m) + d - 1
}

proof fn lemma_day_within_year(y: int, m: int, d: int)
    requires
        valid_ymd(y, m, d),
    ensures
        0 <= day_of_year(y, m, d),
        days_before_year(y) + day_of_year(y, m, d) < days_before_year(y + 1),
{
    lemma_year_length(y);
}

proof fn lemma_months_ordered(y: int, m1: int, d1: int, m2: int, d2: int)
    requires
        valid_ymd(y, m1, d1),
        valid_ymd(y, m2, d2),
        m1 < m2,
    ensures
        day_of_year(y, m1, d1) < day_of_year(y, m2, d2),
{
    assert(days_before_month(y, m1) + days_in_month(y, m1) <= days_before_month(y, m2));
}

/// Two valid days with the same count of days since the epoch are the same day.
pub proof fn lemma_days_injective(a: CalendarDate, b: CalendarDate)
    requires
        a.wf(),
        b.wf(),
        a.days() == b.days(),
    ensures
        a == b,
{
    let (ya, ma, da) = (a.year as int, a.month as int, a.day as int);
    let (yb, mb, db) = (b.year as int, b.month as int, b.day as int);
    lemma_day_within_year(ya, ma, da);
    lemma_day_within_year(yb, mb, db);
    if ya < yb {
        lemma_years_ordered(ya + 1, yb);
    } else if yb < ya {
        lemma_years_ordered(yb + 1, ya);
    }
    assert(ya == yb);
    if ma < mb {
        lemma_months_ordered(ya, ma, da, mb, db);
    } else if mb < ma {
        lemma_months_ordered(ya, mb, db, ma, da);
    }
}

/// Two well-formed instants at the same offset that denote the same second and nanosecond
/// of the UTC timeline have the same date and time of day: the fields of an instant are
/// fixed by the point in time and the offset it is read at.
pub proof fn lemma_instant_fields_determined(a: Instant, b: Instant)
    requires
        a.wf(),
        b.wf(),
        a.offset == b.offset,
        a.unix_seconds() == b.unix_seconds(),
        a.time.nanosecond == b.time.nanosecond,
    ensures
        a == b,
{
    let (da, db) = (a.date.days(), b.date.days());
    let (sa, sb) = (a.time.seconds_of_day(), b.time.seconds_of_day());
    assert(da == db && sa == sb) by (nonlinear_arith)
        requires
            da * 86400 + sa == db * 86400 + sb,
            0 <= sa < 86400,
            0 <= sb < 86400,
    ;
    lemma_days_injective(a.date, b.date);
    let (ha, mia, sea) = (a.time.hour as int, a.time.minute as int, a.time.second as int);
    let (hb, mib, seb) = (b.time.hour as int, b.time.minute as int, b.time.second as int);
    assert(ha == hb && mia == mib && sea == seb) by (nonlinear_arith)
        requires
            ha * 3600 + mia * 60 + sea == hb * 3600 + mib * 60 + seb,
            0 <= mia < 60,
            0 <= sea < 60,
            0 <= mib < 60,
            0 <= seb < 60,
            0 <= ha,
            0 <= hb,
    ;
}

/// The calendar day of an instant depends only on the point in time and the offset it is
/// read at: two well-formed instants that denote the same UTC second at the same offset
/// project to the same year, month and day.
pub proof fn lemma_date_stable(a: Instant, b: Instant)
    requires
        a.wf(),
        b.wf(),
        a.offset == b.offset,
        a.unix_seconds() == b.unix_seconds(),
    ensures
        a.date == b.date,
{
    let (da, db) = (a.date.days(), b.date.days());
    let (sa, sb) = (a.time.seconds_of_day(), b.time.seconds_of_day());
    assert(da == db) by (nonlinear_arith)
        requires
            da * 86400 + sa == db * 86400 + sb,
            0 <= sa < 86400,
            0 <= sb < 86400,
    ;
    lemma_days_injective(a.date, b.date);
}

} // verus!
