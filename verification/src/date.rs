//! Calendar dates, clock times and instants.
//!
//! Dates are plain year/month/day triples on the proleptic Gregorian
//! calendar; all arithmetic (day counts, month shifts, week numbers) is
//! done here on integers.  The only outside help is the wall clock.

use vstd::prelude::*;

verus! {

/// Year range accepted for dates, the range the `chrono` crate uses.
pub open spec fn year_in_range(y: int) -> bool {
    -262143 <= y <= 262142
}

pub open spec fn is_leap_year(y: int) -> bool {
    y % 4 == 0 && (y % 100 != 0 || y % 400 == 0)
}

pub open spec fn days_in_month(y: int, m: int) -> int {
    if m == 2 {
        if is_leap_year(y) {
            29
        } else {
            28
        }
    } else if m == 4 || m == 6 || m == 9 || m == 11 {
        30
    } else {
        31
    }
}

pub open spec fn valid_ymd(y: int, m: int, d: int) -> bool {
    year_in_range(y) && 1 <= m <= 12 && 1 <= d <= days_in_month(y, m)
}

/// Days since 1970-01-01 of a civil date, following the standard
/// era-of-400-years computation.  The year is shifted by 1,200,000
/// (a multiple of 400) so that every division below is on
/// non-negative numbers.
pub open spec fn days_from_civil(y: int, m: int, d: int) -> int {
    let ys = if m <= 2 {
        y - 1 + 1200000
    } else {
        y + 1200000
    };
    let era = ys / 400;
    let yoe = ys % 400;
    let mp = if m > 2 {
        m - 3
    } else {
        m + 9
    };
    let doy = (153 * mp + 2) / 5 + d - 1;
    let doe = yoe * 365 + yoe / 4 - yoe / 100 + doy;
    era * 146097 + doe - 719468 - 438291000
}

/// Day of the week, `0` for Monday through `6` for Sunday.
/// Day `0`, 1970-01-01, was a Thursday.
pub open spec fn weekday_from_days(days: int) -> int {
    (days + 3) % 7
}

/// A calendar date.
#[derive(Debug, Clone, Copy, PartialEq, Eq)]
pub struct DateVal {
    y: i32,
    m: u8,
    d: u8,
}

/// A clock time, whole seconds.
#[derive(Debug, Clone, Copy, PartialEq, Eq)]
pub struct TimeVal {
    h: u8,
    mi: u8,
    s: u8,
}

/// A UTC instant: date plus clock time.
#[derive(Debug, Clone, Copy, PartialEq, Eq)]
pub struct DatetimeVal {
    pub date: DateVal,
    pub time: TimeVal,
}

/// Exec leap-year test; the year is shifted by 400,000 (a multiple of
/// 400) so the remainders are taken of a non-negative number.
pub fn is_leap_year_x(y: i32) -> (r: bool)
    requires
        year_in_range(y as int),
    ensures
        r == is_leap_year(y as int),
{
    let ys: u32 = (y + 400000) as u32;
    proof {
        vstd::arithmetic::div_mod::lemma_mod_multiples_vanish(100000, y as int, 4);
        vstd::arithmetic::div_mod::lemma_mod_multiples_vanish(4000, y as int, 100);
        vstd::arithmetic::div_mod::lemma_mod_multiples_vanish(1000, y as int, 400);
    }
    ys % 4 == 0 && (ys % 100 != 0 || ys % 400 == 0)
}

/// Exec duplicate of `days_in_month`.
pub fn days_in_month_x(y: i32, m: u8) -> (r: u8)
    requires
        year_in_range(y as int),
        1 <= m <= 12,
    ensures
        r as int == days_in_month(y as int, m as int),
        28 <= r <= 31,
{
    if m == 2 {
        if is_leap_year_x(y) {
            29
        } else {
            28
        }
    } else if m == 4 || m == 6 || m == 9 || m == 11 {
        30
    } else {
        31
    }
}

impl DateVal {
    pub closed spec fn yi(&self) -> int {
        self.y as int
    }

    pub closed spec fn moni(&self) -> int {
        self.m as int
    }

    pub closed spec fn dayi(&self) -> int {
        self.d as int
    }

    pub open spec fn wf(&self) -> bool {
        valid_ymd(self.yi(), self.moni(), self.dayi())
    }

    /// Construct a date; `None` when the triple is not a calendar day.
    pub fn make(y: i64, m: i64, d: i64) -> (r: Option<DateVal>)
        ensures
            valid_ymd(y as int, m as int, d as int) ==> (r matches Some(q) && q.wf() && q.yi()
                == y && q.moni() == m && q.dayi() == d),
            !valid_ymd(y as int, m as int, d as int) ==> r is None,
    {
        if -262143 <= y && y <= 262142 && 1 <= m && m <= 12 && 1 <= d && d <= days_in_month_x(
            y as i32,
            m as u8,
        ) as i64 {
            Some(DateVal { y: y as i32, m: m as u8, d: d as u8 })
        } else {
            None
        }
    }

    /// Field accessors for callers outside the crate.
    pub fn ymd(&self) -> (r: (i32, u8, u8))
        ensures
            r.0 as int == self.yi(),
            r.1 as int == self.moni(),
            r.2 as int == self.dayi(),
    {
        (self.y, self.m, self.d)
    }

    /// Days since 1970-01-01.
    pub fn day_number(&self) -> (r: i64)
        requires
            self.wf(),
        ensures
            r as int == days_from_civil(self.yi(), self.moni(), self.dayi()),
            -100_000_000 < r < 100_000_000,
    {
        let ys: u64 = if self.m <= 2 {
            (self.y as i64 - 1 + 1200000) as u64
        } else {
            (self.y as i64 + 1200000) as u64
        };
        let era: u64 = ys / 400;
        let yoe: u64 = ys % 400;
        let mp: u64 = if self.m > 2 {
            self.m as u64 - 3
        } else {
            self.m as u64 + 9
        };
        let doy: u64 = (153 * mp + 2) / 5 + self.d as u64 - 1;
        let doe: u64 = yoe * 365 + yoe / 4 - yoe / 100 + doy;
        proof {
            vstd::arithmetic::div_mod::lemma_mod_division_less_than_divisor(ys as int, 400);
            vstd::arithmetic::div_mod::lemma_div_pos_is_pos(ys as int, 400);
            vstd::arithmetic::div_mod::lemma_div_nonincreasing(ys as int, 400);
        }
        (era * 146097 + doe) as i64 - 719468 - 438291000
    }

    /// Day of the week, `0` Monday through `6` Sunday.
    pub fn weekday(&self) -> (r: u8)
        requires
            self.wf(),
        ensures
            r as int == weekday_from_days(days_from_civil(self.yi(), self.moni(), self.dayi())),
            r < 7,
    {
        let days: i64 = self.day_number();
        // shift by a multiple of 7 to take the remainder of a
        // non-negative number
        let sh: u64 = (days + 3 + 700_000_000) as u64;
        proof {
            vstd::arithmetic::div_mod::lemma_mod_multiples_vanish(
                100_000_000,
                days as int + 3,
                7,
            );
            vstd::arithmetic::div_mod::lemma_mod_division_less_than_divisor(sh as int, 7);
        }
        (sh % 7) as u8
    }
}

impl TimeVal {
    pub closed spec fn hi(&self) -> int {
        self.h as int
    }

    pub closed spec fn mini(&self) -> int {
        self.mi as int
    }

    pub closed spec fn seci(&self) -> int {
        self.s as int
    }

    pub open spec fn wf(&self) -> bool {
        0 <= self.hi() < 24 && 0 <= self.mini() < 60 && 0 <= self.seci() < 60
    }

    /// Construct a time; `None` when a component is out of range.
    pub fn make(h: i64, mi: i64, s: i64) -> (r: Option<TimeVal>)
        ensures
            (0 <= h < 24 && 0 <= mi < 60 && 0 <= s < 60) ==> (r matches Some(q) && q.wf()
                && q.hi() == h && q.mini() == mi && q.seci() == s),
            !(0 <= h < 24 && 0 <= mi < 60 && 0 <= s < 60) ==> r is None,
    {
        if 0 <= h && h < 24 && 0 <= mi && mi < 60 && 0 <= s && s < 60 {
            Some(TimeVal { h: h as u8, mi: mi as u8, s: s as u8 })
        } else {
            None
        }
    }

    /// Field accessors for callers outside the crate.
    pub fn hms(&self) -> (r: (u8, u8, u8))
        ensures
            r.0 as int == self.hi(),
            r.1 as int == self.mini(),
            r.2 as int == self.seci(),
    {
        (self.h, self.mi, self.s)
    }

    /// Seconds since midnight, for comparisons.
    pub fn second_number(&self) -> (r: u32)
        requires
            self.wf(),
        ensures
            r as int == self.hi() * 3600 + self.mini() * 60 + self.seci(),
    {
        self.h as u32 * 3600 + self.mi as u32 * 60 + self.s as u32
    }
}

impl DatetimeVal {
    pub open spec fn wf(&self) -> bool {
        self.date.wf() && self.time.wf()
    }
}

/// Relies on `chrono::Utc::now` and the `Datelike`/`Timelike`
/// accessors: the current UTC instant, always a valid calendar date
/// and clock time (`month` 1 to 12, `day` valid for the month,
/// `hour` below 24, `minute` and `second` below 60).
#[verifier::external_body]
pub fn utc_now() -> (r: DatetimeVal)
    ensures
        r.wf(),
{
    let t = chrono::Utc::now().naive_utc();
    let dt = t.date();
    let tm = t.time();
    let y = chrono::Datelike::year(&dt);
    let m = chrono::Datelike::month(&dt) as u8;
    let d = chrono::Datelike::day(&dt) as u8;
    let h = chrono::Timelike::hour(&tm) as u8;
    let mi = chrono::Timelike::minute(&tm) as u8;
    let s = chrono::Timelike::second(&tm) as u8;
    DatetimeVal { date: DateVal { y, m, d }, time: TimeVal { h, mi, s } }
}

/// `days_from_civil` on raw fields, for intermediate dates that may
/// lie outside the chrono year range.
pub fn day_number_raw(y: i64, m: i64, d: i64) -> (r: i64)
    requires
        -600000 <= y <= 600000,
        1 <= m <= 12,
        1 <= d <= 31,
    ensures
        r as int == days_from_civil(y as int, m as int, d as int),
        -400_000_000 < r < 400_000_000,
{
    let ys: u64 = if m <= 2 {
        (y - 1 + 1200000) as u64
    } else {
        (y + 1200000) as u64
    };
    let era: u64 = ys / 400;
    let yoe: u64 = ys % 400;
    let mp: u64 = if m > 2 {
        (m - 3) as u64
    } else {
        (m + 9) as u64
    };
    let doy: u64 = (153 * mp + 2) / 5 + d as u64 - 1;
    let doe: u64 = yoe * 365 + yoe / 4 - yoe / 100 + doy;
    proof {
        vstd::arithmetic::div_mod::lemma_mod_division_less_than_divisor(ys as int, 400);
        vstd::arithmetic::div_mod::lemma_div_pos_is_pos(ys as int, 400);
        vstd::arithmetic::div_mod::lemma_div_nonincreasing(ys as int, 400);
    }
    (era * 146097 + doe) as i64 - 719468 - 438291000
}

/// The civil date of a day number: the inverse era computation.
/// Divisions are shifted to stay non-negative.
pub open spec fn civil_from_days_spec(z: int) -> (int, int, int) {
    let zz = z + 719468 + 438291000;
    let era = zz / 146097;
    let doe = zz % 146097;
    let yoe = (doe - doe / 1460 + doe / 36524 - doe / 146096) / 365;
    let doy = doe - (365 * yoe + yoe / 4 - yoe / 100);
    let mp = (5 * doy + 2) / 153;
    let d = doy - (153 * mp + 2) / 5 + 1;
    let m = if mp < 10 {
        mp + 3
    } else {
        mp - 9
    };
    let y = yoe + era * 400 - 1200000 + (if m <= 2 {
        1int
    } else {
        0int
    });
    (y, m, d)
}

/// Exec twin of `civil_from_days_spec`.
pub fn civil_from_days(z: i64) -> (r: (i64, i64, i64))
    requires
        -100_000_001 < z < 100_000_001,
    ensures
        (r.0 as int, r.1 as int, r.2 as int) == civil_from_days_spec(z as int),
        -600000 < r.0 < 600000,
{
    let zz: u64 = (z + 719468 + 438291000) as u64;
    let era: u64 = zz / 146097;
    let doe: u64 = zz % 146097;
    proof {
        vstd::arithmetic::div_mod::lemma_mod_division_less_than_divisor(zz as int, 146097);
        vstd::arithmetic::div_mod::lemma_div_pos_is_pos(zz as int, 146097);
        vstd::arithmetic::div_mod::lemma_div_nonincreasing(zz as int, 146097);
        vstd::arithmetic::div_mod::lemma_fundamental_div_mod(zz as int, 146097);
        assert(era <= 5743 && 2000 <= era) by (nonlinear_arith)
            requires
                era as int == zz as int / 146097,
                zz as int == 146097 * (zz as int / 146097) + (zz as int % 146097),
                0 <= zz as int % 146097 < 146097,
                339_000_000 <= zz as int <= 539_010_469,
        ;
        vstd::arithmetic::div_mod::lemma_div_pos_is_pos(doe as int, 1460);
        vstd::arithmetic::div_mod::lemma_div_pos_is_pos(doe as int, 36524);
        vstd::arithmetic::div_mod::lemma_div_pos_is_pos(doe as int, 146096);
        vstd::arithmetic::div_mod::lemma_div_nonincreasing(doe as int, 1460);
        vstd::arithmetic::div_mod::lemma_div_nonincreasing(doe as int, 36524);
        vstd::arithmetic::div_mod::lemma_div_nonincreasing(doe as int, 146096);
    }
    let adj: u64 = doe - doe / 1460 + doe / 36524 - doe / 146096;
    let yoe: u64 = adj / 365;
    let ghost yoe_g = adj as int / 365;
    proof {
        vstd::arithmetic::div_mod::lemma_div_pos_is_pos(adj as int, 365);
        vstd::arithmetic::div_mod::lemma_mod_division_less_than_divisor(adj as int, 365);
        vstd::arithmetic::div_mod::lemma_fundamental_div_mod(adj as int, 365);
        assert(yoe_g <= 800) by (nonlinear_arith)
            requires
                yoe_g == adj as int / 365,
                adj as int == 365 * (adj as int / 365) + (adj as int % 365),
                0 <= adj as int % 365 < 365,
                0 <= adj as int <= 292193,
        ;
        vstd::arithmetic::div_mod::lemma_mod_division_less_than_divisor(adj as int, 365);
        vstd::arithmetic::div_mod::lemma_div_pos_is_pos(yoe as int, 4);
        vstd::arithmetic::div_mod::lemma_div_pos_is_pos(yoe as int, 100);
        vstd::arithmetic::div_mod::lemma_div_nonincreasing(yoe as int, 4);
        vstd::arithmetic::div_mod::lemma_div_nonincreasing(yoe as int, 100);
    }
    let acc: u64 = 365 * yoe + yoe / 4 - yoe / 100;
    let doy: i64 = doe as i64 - acc as i64;
    if doy < 0 || doy > 400 {
        // outside the era arithmetic's possible range; keep the
        // mirror total by clamping through the same spec value
        proof {
            assert(civil_from_days_spec(z as int).0 == civil_from_days_spec(z as int).0);
        }
        let mp: i64 = sat_div_153(doy);
        let dd: i64 = doy - (153 * mp + 2) / 5 + 1;
        let m: i64 = if mp < 10 {
            mp + 3
        } else {
            mp - 9
        };
        let y: i64 = yoe as i64 + era as i64 * 400 - 1200000 + (if m <= 2 {
            1i64
        } else {
            0i64
        });
        (y, m, dd)
    } else {
        let mp: i64 = (5 * doy + 2) / 153;
        proof {
            vstd::arithmetic::div_mod::lemma_div_pos_is_pos(5 * doy as int + 2, 153);
            vstd::arithmetic::div_mod::lemma_fundamental_div_mod(5 * doy as int + 2, 153);
            vstd::arithmetic::div_mod::lemma_mod_division_less_than_divisor(
                5 * doy as int + 2,
                153,
            );
            assert(mp as int <= 13) by (nonlinear_arith)
                requires
                    mp as int == (5 * doy as int + 2) / 153,
                    5 * doy as int + 2 == 153 * ((5 * doy as int + 2) / 153) + ((5 * doy as int
                        + 2) % 153),
                    0 <= (5 * doy as int + 2) % 153 < 153,
                    0 <= 5 * doy as int + 2 <= 2002,
            ;
            vstd::arithmetic::div_mod::lemma_div_pos_is_pos(153 * mp as int + 2, 5);
            vstd::arithmetic::div_mod::lemma_div_nonincreasing(153 * mp as int + 2, 5);
        }
        let dd: i64 = doy - (153 * mp + 2) / 5 + 1;
        let m: i64 = if mp < 10 {
            mp + 3
        } else {
            mp - 9
        };
        let y: i64 = yoe as i64 + era as i64 * 400 - 1200000 + (if m <= 2 {
            1i64
        } else {
            0i64
        });
        (y, m, dd)
    }
}

/// Non-negative division by 153 on possibly negative input, used
/// only on the dead clamping path above.
fn sat_div_153(x: i64) -> (r: i64)
    requires
        -1000 <= x <= 100_000_000,
    ensures
        r as int == (5 * x as int + 2) / 153,
{
    let shifted: u64 = (5 * x + 2 + 153000) as u64;
    proof {
        vstd::arithmetic::div_mod::lemma_hoist_over_denominator(5 * x as int + 2, 1000, 153);
        vstd::arithmetic::div_mod::lemma_div_pos_is_pos(shifted as int, 153);
    }
    (shifted / 153) as i64 - 1000
}

/// The ISO 8601 week number of a civil date: the week of its
/// Thursday, counted from the Thursday-bearing first week of that
/// year.
pub open spec fn iso_week_spec(y: int, m: int, d: int) -> int {
    let dn = days_from_civil(y, m, d);
    let wd = weekday_from_days(dn);
    let th = dn + 3 - wd;
    let ty = civil_from_days_spec(th).0;
    let diff = th - days_from_civil(ty, 1, 1);
    if diff < 0 {
        1
    } else {
        diff / 7 + 1
    }
}

/// Exec twin of `iso_week_spec`.
pub fn iso_week(dt: &DateVal) -> (r: i64)
    requires
        dt.wf(),
    ensures
        r as int == iso_week_spec(dt.yi(), dt.moni(), dt.dayi()),
{
    let dn = dt.day_number();
    let wd = dt.weekday();
    let th: i64 = dn + 3 - wd as i64;
    let (ty, _tm, _td) = civil_from_days(th);
    let jan1 = day_number_raw(ty, 1, 1);
    let diff: i64 = th - jan1;
    if diff < 0 {
        1
    } else {
        let q: u64 = (diff as u64) / 7;
        proof {
            vstd::arithmetic::div_mod::lemma_div_pos_is_pos(diff as int, 7);
            vstd::arithmetic::div_mod::lemma_div_nonincreasing(diff as int, 7);
        }
        q as i64 + 1
    }
}

/// Month shift with end-of-month clamping: the result of moving
/// `delta` whole months from `y-m-d`, its day clamped to the last
/// valid day of the target month.
pub open spec fn shift_months_spec(y: int, m: int, d: int, delta: int) -> (int, int, int) {
    let total = y * 12 + (m - 1) + delta;
    let ny = total / 12;
    let nm = total % 12 + 1;
    let nd = if d <= days_in_month(ny, nm) {
        d
    } else {
        days_in_month(ny, nm)
    };
    (ny, nm, nd)
}

/// Shift a date by whole months, clamping the day to the target
/// month's length; `None` when the target year leaves the range.
pub fn shift_months(date: &DateVal, delta: i64) -> (r: Option<DateVal>)
    requires
        date.wf(),
        -10_000_000 <= delta <= 10_000_000,
    ensures
        ({
            let s = shift_months_spec(date.yi(), date.moni(), date.dayi(), delta as int);
            match r {
                Some(q) => q.wf() && year_in_range(s.0) && q.yi() == s.0 && q.moni() == s.1
                    && q.dayi() == s.2,
                None => !year_in_range(s.0),
            }
        }),
{
    let (y, m, d) = date.ymd();
    let total: i64 = y as i64 * 12 + (m as i64 - 1) + delta;
    // shift by a large multiple of 12 so the division is non-negative
    let shifted: u64 = (total + 2_400_000 * 12) as u64;
    proof {
        vstd::arithmetic::div_mod::lemma_hoist_over_denominator(total as int, 2_400_000, 12);
        vstd::arithmetic::div_mod::lemma_mod_multiples_vanish(2_400_000, total as int, 12);
        vstd::arithmetic::div_mod::lemma_mod_division_less_than_divisor(shifted as int, 12);
        vstd::arithmetic::div_mod::lemma_div_pos_is_pos(shifted as int, 12);
        vstd::arithmetic::div_mod::lemma_div_nonincreasing(shifted as int, 12);
    }
    let ny: i64 = (shifted / 12) as i64 - 2_400_000;
    let nm: i64 = (shifted % 12) as i64 + 1;
    if ny < -262143 || ny > 262142 {
        None
    } else {
        let dim: u8 = days_in_month_x(ny as i32, nm as u8);
        let nd: i64 = if (d as i64) <= dim as i64 {
            d as i64
        } else {
            dim as i64
        };
        Some(DateVal { y: ny as i32, m: nm as u8, d: nd as u8 })
    }
}

} // verus!
