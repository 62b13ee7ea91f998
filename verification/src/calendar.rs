//! The canonical timestamp text read as a date and time of the proleptic
//! Gregorian calendar in UTC, and why such texts sort in time order.
use vstd::prelude::*;

use crate::table::{lex_lt, lemma_lex_irreflexive};

verus! {

/// Whether `c` is one of the digits `0` to `9`.
pub open spec fn is_decimal_digit(c: char) -> bool {
    48 <= c as int <= 57
}

/// The value of a digit character.
pub open spec fn digit_value(c: char) -> int {
    c as int - 48
}

/// The positions of `YYYY-MM-DDTHH:MM:SS.mmmZ` that hold digits.
pub open spec fn is_digit_position(i: int) -> bool {
    0 <= i < 24 && i != 4 && i != 7 && i != 10 && i != 13 && i != 16 && i != 19 && i != 23
}

/// `s` has the shape `YYYY-MM-DDTHH:MM:SS.mmmZ`: a digit in each digit
/// position and the separators in between.
pub open spec fn has_canonical_layout(s: Seq<char>) -> bool {
    &&& s.len() == 24
    &&& forall|i: int| is_digit_position(i) ==> is_decimal_digit(#[trigger] s[i])
    &&& s[4] == '-' && s[7] == '-' && s[10] == 'T'
    &&& s[13] == ':' && s[16] == ':' && s[19] == '.' && s[23] == 'Z'
}

/// The digit at position `i` of `s`.
pub open spec fn digit_at(s: Seq<char>, i: int) -> int {
    digit_value(s[i])
}

/// The year a canonical text names.
pub open spec fn year_of(s: Seq<char>) -> int {
    1000 * digit_at(s, 0) + 100 * digit_at(s, 1) + 10 * digit_at(s, 2) + digit_at(s, 3)
}

/// The month a canonical text names.
pub open spec fn month_of(s: Seq<char>) -> int {
    10 * digit_at(s, 5) + digit_at(s, 6)
}

/// The day of the month a canonical text names.
pub open spec fn day_of(s: Seq<char>) -> int {
    10 * digit_at(s, 8) + digit_at(s, 9)
}

/// The hour a canonical text names.
pub open spec fn hour_of(s: Seq<char>) -> int {
    10 * digit_at(s, 11) + digit_at(s, 12)
}

/// The minute a canonical text names.
pub open spec fn minute_of(s: Seq<char>) -> int {
    10 * digit_at(s, 14) + digit_at(s, 15)
}

/// The second a canonical text names.
pub open spec fn second_of(s: Seq<char>) -> int {
    10 * digit_at(s, 17) + digit_at(s, 18)
}

/// The millisecond a canonical text names.
pub open spec fn milli_of(s: Seq<char>) -> int {
    100 * digit_at(s, 20) + 10 * digit_at(s, 21) + digit_at(s, 22)
}

/// Leap years of the Gregorian calendar.
pub open spec fn is_leap_year(y: int) -> bool {
    y % 4 == 0 && (y % 100 != 0 || y % 400 == 0)
}

/// The number of days in year `y`.
pub open spec fn year_length(y: int) -> int {
    if is_leap_year(y) {
        366
    } else {
        365
    }
}

/// The number of days in month `m` of year `y`.
pub open spec fn days_in_month(y: int, m: int) -> int {
    if m == 2 {
        if is_leap_year(y) {
            29
        } else {
            28
        }
    } else if m == 4 || m == 6 || m == 9 || m == 11 {
        30
    } else {
        31
    }
}

/// The number of days in the months of year `y` before month `m`.
pub open spec fn days_before_month(y: int, m: int) -> int {
    let leap: int = if is_leap_year(y) {
        1
    } else {
        0
    };
    if m <= 1 {
        0
    } else if m == 2 {
        31
    } else if m == 3 {
        59 + leap
    } else if m == 4 {
        90 + leap
    } else if m == 5 {
        120 + leap
    } else if m == 6 {
        151 + leap
    } else if m == 7 {
        181 + leap
    } else if m == 8 {
        212 + leap
    } else if m == 9 {
        243 + leap
    } else if m == 10 {
        273 + leap
    } else if m == 11 {
        304 + leap
    } else {
        334 + leap
    }
}

/// The number of days from 1 January of year 0 to 1 January of year `y`
/// (`y` not negative): 365 for each year and one more for each leap year
/// before `y`.
pub open spec fn days_before_year(y: int) -> int {
    365 * y + (y + 3) / 4 - (y + 99) / 100 + (y + 399) / 400
}

/// The days from 1 January of year 0 to 1 January 1970.
pub open spec fn epoch_day() -> int {
    719_528
}

/// The day a canonical text names, counted from 1 January 1970.
pub open spec fn day_number(s: Seq<char>) -> int {
    days_before_year(year_of(s)) + days_before_month(year_of(s), month_of(s)) + day_of(s) - 1
        - epoch_day()
}

/// The instant a canonical text names, in milliseconds since the Unix
/// epoch.
pub open spec fn canonical_instant(s: Seq<char>) -> int {
    (((day_number(s) * 24 + hour_of(s)) * 60 + minute_of(s)) * 60 + second_of(s)) * 1000 + milli_of(s)
}

/// A canonical text that names a real date and time: the layout, a month
/// of the year, a day of that month, and a time of day without a leap
/// second.
pub open spec fn is_canonical(s: Seq<char>) -> bool {
    &&& has_canonical_layout(s)
    &&& 1 <= month_of(s) <= 12
    &&& 1 <= day_of(s) <= days_in_month(year_of(s), month_of(s))
    &&& hour_of(s) <= 23
    &&& minute_of(s) <= 59
    &&& second_of(s) <= 59
}

/// The instants whose UTC year has four digits, 0000 to 9999, in
/// milliseconds since the Unix epoch.
pub open spec fn in_four_digit_years(millis: int) -> bool {
    -62_167_219_200_000 <= millis <= 253_402_300_799_999
}

/// The digits of a canonical text read as one number, most significant
/// first.
spec fn digit_key(s: Seq<char>) -> int {
    year_of(s) * 10_000_000_000_000 + month_of(s) * 100_000_000_000 + day_of(s) * 1_000_000_000
        + hour_of(s) * 10_000_000 + minute_of(s) * 100_000 + second_of(s) * 1000 + milli_of(s)
}

/// The first position from `i` on where `a` and `b` differ, or their
/// length.
spec fn first_difference(a: Seq<char>, b: Seq<char>, i: int) -> int
    decreases a.len() - i,
{
    if i >= a.len() {
        a.len() as int
    } else if a[i] != b[i] {
        i
    } else {
        first_difference(a, b, i + 1)
    }
}

proof fn lemma_first_difference(a: Seq<char>, b: Seq<char>, i: int)
    requires
        a.len() == b.len(),
        0 <= i <= a.len(),
        forall|j: int| 0 <= j < i ==> a[j] == b[j],
    ensures
        i <= first_difference(a, b, i) <= a.len(),
        forall|j: int| 0 <= j < first_difference(a, b, i) ==> a[j] == b[j],
        first_difference(a, b, i) < a.len() ==> a[first_difference(a, b, i)] != b[first_difference(
            a,
            b,
            i,
        )],
    decreases a.len() - i,
{
    if i < a.len() && a[i] == b[i] {
        lemma_first_difference(a, b, i + 1);
    }
}

/// Where two texts of one length first differ at `k`, the first sorts
/// before the second exactly when its character there is the smaller.
proof fn lemma_lex_at_first_difference(a: Seq<char>, b: Seq<char>, k: int)
    requires
        a.len() == b.len(),
        0 <= k < a.len(),
        forall|j: int| 0 <= j < k ==> a[j] == b[j],
        a[k] != b[k],
    ensures
        lex_lt(a, b) == (a[k] < b[k]),
    decreases k,
{
    if k > 0 {
        assert(a[0] == b[0]);
        let a1 = a.drop_first();
        let b1 = b.drop_first();
        assert forall|j: int| 0 <= j < k - 1 implies a1[j] == b1[j] by {
            assert(a1[j] == a[j + 1] && b1[j] == b[j + 1]);
        }
        lemma_lex_at_first_difference(a1, b1, k - 1);
    }
}

/// Two texts in the canonical layout sort as the numbers their digits
/// spell.
proof fn lemma_layout_order(a: Seq<char>, b: Seq<char>)
    requires
        has_canonical_layout(a),
        has_canonical_layout(b),
    ensures
        lex_lt(a, b) <==> digit_key(a) < digit_key(b),
        a == b <==> digit_key(a) == digit_key(b),
{
    lemma_first_difference(a, b, 0);
    let k = first_difference(a, b, 0);
    if k == 24 {
        assert(a =~= b);
        lemma_lex_irreflexive(a);
    } else {
        lemma_lex_at_first_difference(a, b, k);
        assert(is_digit_position(k));
        assert(is_decimal_digit(a[k]) && is_decimal_digit(b[k]));
        lemma_key_at_first_difference(a, b, k);
    }
}

proof fn lemma_key_at_first_difference(a: Seq<char>, b: Seq<char>, k: int)
    requires
        has_canonical_layout(a),
        has_canonical_layout(b),
        is_digit_position(k),
        forall|j: int| 0 <= j < k ==> a[j] == b[j],
        a[k] != b[k],
    ensures
        (digit_key(a) < digit_key(b)) == (a[k] < b[k]),
        digit_key(a) != digit_key(b),
{
    assert forall|i: int| is_digit_position(i) implies 0 <= digit_at(a, i) <= 9 && 0 <= digit_at(b, i) <= 9 by {
        assert(is_decimal_digit(a[i]) && is_decimal_digit(b[i]));
    }
    assert(0 <= digit_at(a, 0) <= 9 && 0 <= digit_at(b, 0) <= 9);
    assert(0 <= digit_at(a, 1) <= 9 && 0 <= digit_at(b, 1) <= 9);
    assert(0 <= digit_at(a, 2) <= 9 && 0 <= digit_at(b, 2) <= 9);
    assert(0 <= digit_at(a, 3) <= 9 && 0 <= digit_at(b, 3) <= 9);
    assert(0 <= digit_at(a, 5) <= 9 && 0 <= digit_at(b, 5) <= 9);
    assert(0 <= digit_at(a, 6) <= 9 && 0 <= digit_at(b, 6) <= 9);
    assert(0 <= digit_at(a, 8) <= 9 && 0 <= digit_at(b, 8) <= 9);
    assert(0 <= digit_at(a, 9) <= 9 && 0 <= digit_at(b, 9) <= 9);
    assert(0 <= digit_at(a, 11) <= 9 && 0 <= digit_at(b, 11) <= 9);
    assert(0 <= digit_at(a, 12) <= 9 && 0 <= digit_at(b, 12) <= 9);
    assert(0 <= digit_at(a, 14) <= 9 && 0 <= digit_at(b, 14) <= 9);
    assert(0 <= digit_at(a, 15) <= 9 && 0 <= digit_at(b, 15) <= 9);
    assert(0 <= digit_at(a, 17) <= 9 && 0 <= digit_at(b, 17) <= 9);
    assert(0 <= digit_at(a, 18) <= 9 && 0 <= digit_at(b, 18) <= 9);
    assert(0 <= digit_at(a, 20) <= 9 && 0 <= digit_at(b, 20) <= 9);
    assert(0 <= digit_at(a, 21) <= 9 && 0 <= digit_at(b, 21) <= 9);
    assert(0 <= digit_at(a, 22) <= 9 && 0 <= digit_at(b, 22) <= 9);
    assert((a[k] < b[k]) == (digit_at(a, k) < digit_at(b, k)));
    if k > 0 {
        assert(a[0] == b[0]);
    }
    if k > 1 {
        assert(a[1] == b[1]);
    }
    if k > 2 {
        assert(a[2] == b[2]);
    }
    if k > 3 {
        assert(a[3] == b[3]);
    }
    if k > 5 {
        assert(a[5] == b[5]);
    }
    if k > 6 {
        assert(a[6] == b[6]);
    }
    if k > 8 {
        assert(a[8] == b[8]);
    }
    if k > 9 {
        assert(a[9] == b[9]);
    }
    if k > 11 {
        assert(a[11] == b[11]);
    }
    if k > 12 {
        assert(a[12] == b[12]);
    }
    if k > 14 {
        assert(a[14] == b[14]);
    }
    if k > 15 {
        assert(a[15] == b[15]);
    }
    if k > 17 {
        assert(a[17] == b[17]);
    }
    if k > 18 {
        assert(a[18] == b[18]);
    }
    if k > 20 {
        assert(a[20] == b[20]);
    }
    if k > 21 {
        assert(a[21] == b[21]);
    }
}

/// The fields of a canonical text lie in their ranges.
proof fn lemma_field_bounds(s: Seq<char>)
    requires
        is_canonical(s),
    ensures
        0 <= year_of(s) <= 9999,
        0 <= hour_of(s) && 0 <= minute_of(s) && 0 <= second_of(s),
        0 <= milli_of(s) <= 999,
        day_of(s) <= 31,
{
    assert forall|i: int| is_digit_position(i) implies 0 <= digit_at(s, i) <= 9 by {
        assert(is_decimal_digit(s[i]));
    }
    assert(0 <= digit_at(s, 0) <= 9 && 0 <= digit_at(s, 1) <= 9);
    assert(0 <= digit_at(s, 2) <= 9 && 0 <= digit_at(s, 3) <= 9);
    assert(0 <= digit_at(s, 11) <= 9 && 0 <= digit_at(s, 12) <= 9);
    assert(0 <= digit_at(s, 14) <= 9 && 0 <= digit_at(s, 15) <= 9);
    assert(0 <= digit_at(s, 17) <= 9 && 0 <= digit_at(s, 18) <= 9);
    assert(0 <= digit_at(s, 20) <= 9 && 0 <= digit_at(s, 21) <= 9 && 0 <= digit_at(s, 22) <= 9);
}

/// Each year adds its length to the day count.
proof fn lemma_days_before_next_year(y: int)
    requires
        0 <= y,
    ensures
        days_before_year(y + 1) == days_before_year(y) + year_length(y),
{
}

/// A later year starts after the whole of an earlier one.
proof fn lemma_days_before_later_year(y1: int, y2: int)
    requires
        0 <= y1 < y2,
    ensures
        days_before_year(y1) + year_length(y1) <= days_before_year(y2),
    decreases y2 - y1,
{
    lemma_days_before_next_year(y1);
    if y1 + 1 < y2 {
        lemma_days_before_later_year(y1 + 1, y2);
        lemma_days_before_next_year(y1 + 1);
    }
}

/// A day of a month comes before every later month of its year.
proof fn lemma_day_in_year(y: int, m1: int, d1: int, m2: int)
    requires
        1 <= m1 <= 12,
        1 <= d1 <= days_in_month(y, m1),
        m1 < m2 <= 12,
    ensures
        days_before_month(y, m1) + d1 - 1 < days_before_month(y, m2),
{
}

/// A day of a month lies within its year.
proof fn lemma_day_within_year(y: int, m: int, d: int)
    requires
        1 <= m <= 12,
        1 <= d <= days_in_month(y, m),
    ensures
        0 <= days_before_month(y, m) + d - 1 < year_length(y),
{
}

/// Dates of canonical texts count up in calendar order.
proof fn lemma_day_order(a: Seq<char>, b: Seq<char>)
    requires
        is_canonical(a),
        is_canonical(b),
        year_of(a) < year_of(b) || (year_of(a) == year_of(b) && (month_of(a) < month_of(b) || (
        month_of(a) == month_of(b) && day_of(a) < day_of(b)))),
    ensures
        day_number(a) < day_number(b),
{
    lemma_field_bounds(a);
    lemma_field_bounds(b);
    if year_of(a) < year_of(b) {
        lemma_days_before_later_year(year_of(a), year_of(b));
        lemma_day_within_year(year_of(a), month_of(a), day_of(a));
        lemma_day_within_year(year_of(b), month_of(b), day_of(b));
    } else if month_of(a) < month_of(b) {
        lemma_day_in_year(year_of(a), month_of(a), day_of(a), month_of(b));
    }
}

/// A number made of a high part and a low part below `base` compares as
/// the pair (high, low).
proof fn lemma_two_part_order(h1: int, l1: int, h2: int, l2: int, base: int)
    requires
        0 <= l1 < base,
        0 <= l2 < base,
    ensures
        h1 * base + l1 < h2 * base + l2 <==> (h1 < h2 || (h1 == h2 && l1 < l2)),
        h1 * base + l1 == h2 * base + l2 <==> (h1 == h2 && l1 == l2),
{
    if h1 < h2 {
        assert(h1 * base + base <= h2 * base) by (nonlinear_arith)
            requires
                h1 < h2,
                0 < base,
        ;
    } else if h2 < h1 {
        assert(h2 * base + base <= h1 * base) by (nonlinear_arith)
            requires
                h2 < h1,
                0 < base,
        ;
    }
}

/// The time of day of a canonical text, in milliseconds since midnight.
spec fn time_of_day(s: Seq<char>) -> int {
    ((hour_of(s) * 60 + minute_of(s)) * 60 + second_of(s)) * 1000 + milli_of(s)
}

/// The time digits of a canonical text read as one number.
spec fn time_key(s: Seq<char>) -> int {
    hour_of(s) * 10_000_000 + minute_of(s) * 100_000 + second_of(s) * 1000 + milli_of(s)
}

/// The date digits of a canonical text read as one number.
spec fn date_key(s: Seq<char>) -> int {
    year_of(s) * 10_000 + month_of(s) * 100 + day_of(s)
}

/// Times of day compare as their digits do.
proof fn lemma_time_order(a: Seq<char>, b: Seq<char>)
    requires
        is_canonical(a),
        is_canonical(b),
    ensures
        0 <= time_of_day(a) < 86_400_000,
        0 <= time_key(a) < 1_000_000_000,
        time_key(a) < time_key(b) <==> time_of_day(a) < time_of_day(b),
        time_key(a) == time_key(b) <==> time_of_day(a) == time_of_day(b),
{
    lemma_field_bounds(a);
    lemma_field_bounds(b);
    let (ha, ma, sa, xa) = (hour_of(a), minute_of(a), second_of(a), milli_of(a));
    let (hb, mb, sb, xb) = (hour_of(b), minute_of(b), second_of(b), milli_of(b));
    lemma_two_part_order(sa, xa, sb, xb, 1000);
    lemma_two_part_order(ma, sa * 1000 + xa, mb, sb * 1000 + xb, 60_000);
    lemma_two_part_order(ha, (ma * 60 + sa) * 1000 + xa, hb, (mb * 60 + sb) * 1000 + xb, 3_600_000);
    lemma_two_part_order(ma, sa * 1000 + xa, mb, sb * 1000 + xb, 100_000);
    lemma_two_part_order(ha, ma * 100_000 + sa * 1000 + xa, hb, mb * 100_000 + sb * 1000 + xb, 10_000_000);
}

/// Dates compare as their digits do.
proof fn lemma_date_order(a: Seq<char>, b: Seq<char>)
    requires
        is_canonical(a),
        is_canonical(b),
    ensures
        date_key(a) < date_key(b) <==> day_number(a) < day_number(b),
        date_key(a) == date_key(b) <==> day_number(a) == day_number(b),
{
    lemma_field_bounds(a);
    lemma_field_bounds(b);
    let (ya, ma, da) = (year_of(a), month_of(a), day_of(a));
    let (yb, mb, db) = (year_of(b), month_of(b), day_of(b));
    lemma_two_part_order(ma, da, mb, db, 100);
    lemma_two_part_order(ya, ma * 100 + da, yb, mb * 100 + db, 10_000);
    if ya < yb || (ya == yb && (ma < mb || (ma == mb && da < db))) {
        lemma_day_order(a, b);
    } else if yb < ya || (ya == yb && (mb < ma || (ma == mb && db < da))) {
        lemma_day_order(b, a);
    }
}

/// Canonical texts compare as the instants they name: the digits spell a
/// larger number exactly when the instant is later.
proof fn lemma_instant_order(a: Seq<char>, b: Seq<char>)
    requires
        is_canonical(a),
        is_canonical(b),
    ensures
        digit_key(a) < digit_key(b) <==> canonical_instant(a) < canonical_instant(b),
        digit_key(a) == digit_key(b) <==> canonical_instant(a) == canonical_instant(b),
{
    lemma_time_order(a, b);
    lemma_time_order(b, a);
    lemma_date_order(a, b);
    assert(digit_key(a) == date_key(a) * 1_000_000_000 + time_key(a));
    assert(digit_key(b) == date_key(b) * 1_000_000_000 + time_key(b));
    assert(canonical_instant(a) == day_number(a) * 86_400_000 + time_of_day(a));
    assert(canonical_instant(b) == day_number(b) * 86_400_000 + time_of_day(b));
    lemma_two_part_order(date_key(a), time_key(a), date_key(b), time_key(b), 1_000_000_000);
    lemma_two_part_order(day_number(a), time_of_day(a), day_number(b), time_of_day(b), 86_400_000);
}

/// Canonical timestamp texts sort in time order: one sorts before another
/// (by `lex_lt`, the order of `str`) exactly when the instant it names is
/// earlier, and two are equal exactly when they name the same instant.
pub proof fn law_canonical_texts_sort_by_time(a: Seq<char>, b: Seq<char>)
    requires
        is_canonical(a),
        is_canonical(b),
    ensures
        lex_lt(a, b) <==> canonical_instant(a) < canonical_instant(b),
        a == b <==> canonical_instant(a) == canonical_instant(b),
{
    lemma_layout_order(a, b);
    lemma_instant_order(a, b);
}

} // verus!
