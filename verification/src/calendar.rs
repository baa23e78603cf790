//! The Gregorian calendar, counted in days since the start of 1970.

use vstd::prelude::*;

use crate::text::{all_digits, digit_char, digits_value};

verus! {

/// Whether a year has a 29th of February.
pub open spec fn leap_year(year: int) -> bool {
    year % 4 == 0 && (year % 100 != 0 || year % 400 == 0)
}

/// How many days a month has.
pub open spec fn days_in_month(year: int, month: int) -> int {
    if month == 2 {
        if leap_year(year) {
            29
        } else {
            28
        }
    } else if month == 4 || month == 6 || month == 9 || month == 11 {
        30
    } else {
        31
    }
}

/// How many leap years there are from year 1 up to a year, that one left out.
pub open spec fn leap_years_before(year: int) -> int {
    (year - 1) / 4 - (year - 1) / 100 + (year - 1) / 400
}

/// The first day of a year.
pub open spec fn year_start(year: int) -> int {
    365 * (year - 1970) + leap_years_before(year) - leap_years_before(1970)
}

/// The first day of a month, from 1 for January to 12 for December.
pub open spec fn month_start(year: int, month: int) -> int
    decreases month,
{
    if month <= 1 {
        year_start(year)
    } else {
        month_start(year, month - 1) + days_in_month(year, month - 1)
    }
}

/// Whether a day lies in a month.
pub open spec fn in_month(day: int, year: int, month: int) -> bool {
    &&& 1 <= month <= 12
    &&& month_start(year, month) <= day < month_start(year, month) + days_in_month(year, month)
}

/// The year and the month that a day lies in.
pub open spec fn year_and_month(day: int) -> (int, int) {
    choose|at: (int, int)| #[trigger] in_month(day, at.0, at.1)
}

/// A year and a month as text: the year in four digits, with a minus sign if it
/// is negative, a dash, and the month in two digits.
pub open spec fn month_text(year: int, month: int) -> Seq<char> {
    let y = if year < 0 {
        -year
    } else {
        year
    };
    let sign = if year < 0 {
        seq!['-']
    } else {
        Seq::empty()
    };
    sign + seq![
        digit_char((y / 1000) as nat),
        digit_char((y / 100 % 10) as nat),
        digit_char((y / 10 % 10) as nat),
        digit_char((y % 10) as nat),
        '-',
        digit_char((month / 10) as nat),
        digit_char((month % 10) as nat),
    ]
}

proof fn next_year_start(year: int)
    ensures
        year_start(year + 1) == year_start(year) + 365 + if leap_year(year) {
            1int
        } else {
            0
        },
{
}

proof fn december_ends_the_year(year: int)
    ensures
        month_start(year, 12) + days_in_month(year, 12) == year_start(year + 1),
{
    reveal_with_fuel(month_start, 13);
    next_year_start(year);
}

proof fn later_month_starts_later(year: int, earlier: int, later: int)
    requires
        1 <= earlier < later,
    ensures
        month_start(year, earlier) + days_in_month(year, earlier) <= month_start(year, later),
    decreases later,
{
    if earlier < later - 1 {
        later_month_starts_later(year, earlier, later - 1);
    }
}

proof fn later_year_starts_later(earlier: int, later: int)
    requires
        earlier <= later,
    ensures
        year_start(earlier) <= year_start(later),
    decreases later - earlier,
{
    if earlier < later {
        later_year_starts_later(earlier, later - 1);
        next_year_start(later - 1);
    }
}

proof fn month_lies_in_its_year(day: int, year: int, month: int)
    requires
        in_month(day, year, month),
    ensures
        year_start(year) <= day < year_start(year + 1),
{
    if month > 1 {
        later_month_starts_later(year, 1, month);
    }
    if month < 12 {
        later_month_starts_later(year, month, 12);
    }
    december_ends_the_year(year);
}

proof fn months_do_not_overlap(day: int, a: (int, int), b: (int, int))
    requires
        in_month(day, a.0, a.1),
        in_month(day, b.0, b.1),
    ensures
        a == b,
{
    month_lies_in_its_year(day, a.0, a.1);
    month_lies_in_its_year(day, b.0, b.1);
    if a.0 < b.0 {
        later_year_starts_later(a.0 + 1, b.0);
    } else if b.0 < a.0 {
        later_year_starts_later(b.0 + 1, a.0);
    } else if a.1 < b.1 {
        later_month_starts_later(a.0, a.1, b.1);
    } else if b.1 < a.1 {
        later_month_starts_later(a.0, b.1, a.1);
    }
}

proof fn some_month_holds(day: int)
    ensures
        exists|at: (int, int)| #[trigger] in_month(day, at.0, at.1),
    decreases if day < 0 { -day } else { day },
{
    if day == 0 {
        assert(in_month(0, 1970, 1));
        let at = (1970int, 1int);
        assert(in_month(day, at.0, at.1));
    } else if day > 0 {
        some_month_holds(day - 1);
        let (year, month) = choose|at: (int, int)| #[trigger] in_month(day - 1, at.0, at.1);
        let at = if in_month(day, year, month) {
            (year, month)
        } else if month < 12 {
            (year, month + 1)
        } else {
            december_ends_the_year(year);
            (year + 1, 1)
        };
        assert(in_month(day, at.0, at.1));
    } else {
        some_month_holds(day + 1);
        let (year, month) = choose|at: (int, int)| #[trigger] in_month(day + 1, at.0, at.1);
        let at = if in_month(day, year, month) {
            (year, month)
        } else if month > 1 {
            (year, month - 1)
        } else {
            december_ends_the_year(year - 1);
            (year - 1, 12)
        };
        assert(in_month(day, at.0, at.1));
    }
}

/// Every day lies in its month, and in no other.
pub proof fn every_day_has_one_month(day: int, year: int, month: int)
    ensures
        in_month(day, year_and_month(day).0, year_and_month(day).1),
        in_month(day, year, month) <==> year_and_month(day) == (year, month),
{
    some_month_holds(day);
    if in_month(day, year, month) {
        months_do_not_overlap(day, (year, month), year_and_month(day));
    }
}

/// A later day lies in the same month or in a later one.
pub proof fn months_follow_the_days(earlier: int, later: int)
    requires
        earlier <= later,
    ensures
        ({
            let (a, b) = (year_and_month(earlier), year_and_month(later));
            a.0 < b.0 || a.0 == b.0 && a.1 <= b.1
        }),
{
    let (a, b) = (year_and_month(earlier), year_and_month(later));
    every_day_has_one_month(earlier, a.0, a.1);
    every_day_has_one_month(later, b.0, b.1);
    month_lies_in_its_year(earlier, a.0, a.1);
    month_lies_in_its_year(later, b.0, b.1);
    if b.0 < a.0 {
        later_year_starts_later(b.0 + 1, a.0);
    } else if b.0 == a.0 && b.1 < a.1 {
        later_month_starts_later(a.0, b.1, a.1);
    }
}

/// A year is 365 days long, or 366 if it is a leap year: every fourth is, but
/// not every hundredth, and yet every four hundredth. The count starts with
/// 1970.
pub proof fn years_have_their_length(year: int)
    ensures
        year_start(1970) == 0,
        year_start(year + 1) - year_start(year) == if year % 400 == 0 || year % 4 == 0 && year % 100
            != 0 {
            366int
        } else {
            365
        },
{
    next_year_start(year);
    assert(leap_year(year) <==> year % 400 == 0 || year % 4 == 0 && year % 100 != 0) by {
        assert(year % 400 == 0 ==> year % 4 == 0);
    }
}

/// The months of a year follow each other from January, each with its days, and
/// make up the year.
pub proof fn months_make_up_the_year(year: int)
    ensures
        ({
            let february = year_start(year + 1) - year_start(year) - 337;
            &&& month_start(year, 1) == year_start(year)
            &&& month_start(year, 2) == year_start(year) + 31
            &&& month_start(year, 3) == year_start(year) + 31 + february
            &&& month_start(year, 4) == month_start(year, 3) + 31
            &&& month_start(year, 5) == month_start(year, 4) + 30
            &&& month_start(year, 6) == month_start(year, 5) + 31
            &&& month_start(year, 7) == month_start(year, 6) + 30
            &&& month_start(year, 8) == month_start(year, 7) + 31
            &&& month_start(year, 9) == month_start(year, 8) + 31
            &&& month_start(year, 10) == month_start(year, 9) + 30
            &&& month_start(year, 11) == month_start(year, 10) + 31
            &&& month_start(year, 12) == month_start(year, 11) + 30
            &&& month_start(year, 12) + 31 == year_start(year + 1)
        }),
{
    reveal_with_fuel(month_start, 13);
    next_year_start(year);
}

/// A month is written as the digits of its year, at least four, a dash, and the
/// two digits of the month.
pub proof fn months_are_written_out(year: int, month: int)
    requires
        1 <= month <= 12,
        0 <= year <= 9999,
    ensures
        month_text(year, month).len() == 7,
        month_text(year, month)[4] == '-',
        digits_value(month_text(year, month).take(4)) == year,
        digits_value(month_text(year, month).skip(5)) == month,
        all_digits(month_text(year, month).take(4)),
        all_digits(month_text(year, month).skip(5)),
        year > 0 ==> month_text(-year, month) == seq!['-'] + month_text(year, month),
{
    let text = month_text(year, month);
    let front = text.take(4);
    let back = text.skip(5);
    reveal_with_fuel(digits_value, 5);
    assert(front.drop_last() =~= text.take(3));
    assert(text.take(3).drop_last() =~= text.take(2));
    assert(text.take(2).drop_last() =~= text.take(1));
    assert(text.take(1).drop_last() =~= Seq::<char>::empty());
    assert(back.drop_last() =~= seq![text[5]]);
    assert(seq![text[5]].drop_last() =~= Seq::<char>::empty());
    assert(month_text(-year, month) =~= if year > 0 {
        seq!['-'] + month_text(year, month)
    } else {
        month_text(year, month)
    });
}

} // verus!
