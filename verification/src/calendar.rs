//! How a point in time is written in UTC by RFC 3339, with the Gregorian calendar for all years.

use vstd::prelude::*;

use crate::text::{digit_char, digits};

verus! {

/// The years with a 29th of February.
pub open spec fn leap(year: int) -> bool {
    year % 4 == 0 && (year % 100 != 0 || year % 400 == 0)
}

/// How many days a month has.
pub open spec fn days_in_month(year: int, month: int) -> int {
    if month == 2 {
        if leap(year) {
            29
        } else {
            28
        }
    } else if month == 4 || month == 6 || month == 9 || month == 11 {
        30
    } else {
        31
    }
}

/// How many days of the year lie before a month.
pub open spec fn days_before_month(year: int, month: int) -> int
    decreases month,
{
    if month <= 1 {
        0
    } else {
        days_before_month(year, month - 1) + days_in_month(year, month - 1)
    }
}

/// How many days lie between the start of the year 1 and that of `year`; negative before it.
pub open spec fn days_before_year(year: int) -> int {
    365 * (year - 1) + (year - 1) / 4 - (year - 1) / 100 + (year - 1) / 400
}

/// A text with zeros in front, so that it has at least `width` characters.
pub open spec fn padded(text: Seq<char>, width: nat) -> Seq<char>
    decreases width - text.len(),
{
    if text.len() >= width {
        text
    } else {
        padded(seq!['0'] + text, width)
    }
}

/// A year: four digits from 0 to 9999; else a sign and at least four digits.
pub open spec fn year_text(year: int) -> Seq<char> {
    if year < 0 {
        seq!['-'] + padded(digits((-year) as nat), 4)
    } else if year <= 9999 {
        padded(digits(year as nat), 4)
    } else {
        seq!['+'] + padded(digits(year as nat), 4)
    }
}

/// The first of the two digits of a number below a hundred.
pub open spec fn tens(n: int) -> char {
    digit_char((n / 10) as nat)
}

/// The second of the two digits of a number below a hundred.
pub open spec fn ones(n: int) -> char {
    digit_char((n % 10) as nat)
}

/// A point in time, by the calendar and the clock.
pub struct DateTimeView {
    pub year: int,
    pub month: int,
    pub day: int,
    pub hour: int,
    pub minute: int,
    pub second: int,
}

impl DateTimeView {
    /// The calendar has the day and the clock has the time.
    pub open spec fn valid(self) -> bool {
        &&& 1 <= self.month <= 12
        &&& 1 <= self.day <= days_in_month(self.year, self.month)
        &&& 0 <= self.hour < 24
        &&& 0 <= self.minute < 60
        &&& 0 <= self.second < 60
    }

    /// How many days lie between the start of the year 1 and the day.
    pub open spec fn days(self) -> int {
        days_before_year(self.year) + days_before_month(self.year, self.month) + self.day - 1
    }

    /// How many seconds lie between the start of 1970 and the point in time.
    pub open spec fn seconds(self) -> int {
        86_400 * (self.days() - days_before_year(1970)) + 3600 * self.hour + 60 * self.minute
            + self.second
    }

    /// What follows the year: `-MM-DDThh:mm:ss` and the offset of UTC.
    pub open spec fn text_behind_year(self) -> Seq<char> {
        seq![
            '-', tens(self.month), ones(self.month),
            '-', tens(self.day), ones(self.day),
            'T', tens(self.hour), ones(self.hour),
            ':', tens(self.minute), ones(self.minute),
            ':', tens(self.second), ones(self.second),
            '+', '0', '0', ':', '0', '0',
        ]
    }

    /// How the point in time is written, in UTC and without a fraction.
    pub open spec fn text(self) -> Seq<char> {
        year_text(self.year) + self.text_behind_year()
    }
}

/// Whether a text is that of the point in time `seconds` after the start of 1970.
pub open spec fn tells(text: Seq<char>, seconds: int) -> bool {
    exists|time: DateTimeView| #[trigger]
        time.valid() && time.seconds() == seconds && time.text() == text
}

/// The text of the point in time `seconds` after the start of 1970.
pub open spec fn utc_text_of(seconds: int) -> Seq<char> {
    choose|text: Seq<char>| tells(text, seconds)
}

/// How many days a year has.
pub open spec fn days_in_year(year: int) -> int {
    if leap(year) {
        366
    } else {
        365
    }
}

proof fn lemma_years(early: int, late: int)
    requires
        early < late,
    ensures
        days_before_year(early + 1) == days_before_year(early) + days_in_year(early),
        days_before_year(late) >= days_before_year(early) + days_in_year(early),
{
}

proof fn lemma_months(year: int, month: int)
    requires
        1 <= month <= 12,
    ensures
        0 <= days_before_month(year, month),
        days_before_month(year, month) + days_in_month(year, month) <= days_in_year(year),
        forall|late: int|
            month < late <= 12 ==> #[trigger] days_before_month(year, late) >= days_before_month(
                year,
                month,
            ) + days_in_month(year, month),
{
    reveal_with_fuel(days_before_month, 13);
}

/// Points in time that are equally many seconds from the start of 1970 are the same.
proof fn lemma_same_time(a: DateTimeView, b: DateTimeView)
    requires
        a.valid(),
        b.valid(),
        a.seconds() == b.seconds(),
    ensures
        a == b,
{
    assert(a.days() == b.days());
    lemma_months(a.year, a.month);
    lemma_months(b.year, b.month);
    if a.year < b.year {
        lemma_years(a.year, b.year);
    }
    if b.year < a.year {
        lemma_years(b.year, a.year);
    }
    assert(a.year == b.year);
    assert(a.month == b.month);
}

/// A point in time is written in one way only.
pub proof fn a_time_is_written_in_one_way(a: Seq<char>, b: Seq<char>, seconds: int)
    requires
        tells(a, seconds),
        tells(b, seconds),
    ensures
        a == b,
{
    let time_a = choose|time: DateTimeView| #[trigger]
        time.valid() && time.seconds() == seconds && time.text() == a;
    let time_b = choose|time: DateTimeView| #[trigger]
        time.valid() && time.seconds() == seconds && time.text() == b;
    lemma_same_time(time_a, time_b);
}

/// The number that decimal digits write.
spec fn number(text: Seq<char>) -> int
    decreases text.len(),
{
    if text.len() == 0 {
        0
    } else {
        10 * number(text.drop_last()) + (text.last() as int - '0' as int)
    }
}

spec fn all_digits(text: Seq<char>) -> bool {
    forall|i: int| 0 <= i < text.len() ==> '0' <= #[trigger] text[i] <= '9'
}

proof fn lemma_digits(n: nat)
    ensures
        number(digits(n)) == n,
        all_digits(digits(n)),
        digits(n).len() >= 1,
    decreases n,
{
    if n < 10 {
        reveal_with_fuel(number, 2);
        assert(seq![digit_char(n)].drop_last() =~= Seq::empty());
    } else {
        lemma_digits(n / 10);
        assert(digits(n).drop_last() =~= digits(n / 10));
    }
}

proof fn lemma_leading_zero(text: Seq<char>)
    ensures
        number(seq!['0'] + text) == number(text),
    decreases text.len(),
{
    let longer = seq!['0'] + text;
    if text.len() == 0 {
        reveal_with_fuel(number, 2);
        assert(longer.drop_last() =~= Seq::empty());
    } else {
        assert(longer.drop_last() =~= seq!['0'] + text.drop_last());
        lemma_leading_zero(text.drop_last());
    }
}

proof fn lemma_padded(text: Seq<char>, width: nat)
    requires
        all_digits(text),
    ensures
        number(padded(text, width)) == number(text),
        all_digits(padded(text, width)),
        padded(text, width).len() == (if text.len() >= width {
            text.len()
        } else {
            width
        }),
    decreases width - text.len(),
{
    if text.len() < width {
        lemma_leading_zero(text);
        lemma_padded(seq!['0'] + text, width);
    }
}

/// Numbers below a hundred with the same two digits are the same.
proof fn lemma_two_digits(a: int, b: int)
    requires
        0 <= a < 100,
        0 <= b < 100,
        tens(a) == tens(b),
        ones(a) == ones(b),
    ensures
        a == b,
{
    assert(a / 10 == b / 10);
    assert(a % 10 == b % 10);
}

proof fn lemma_year_text(a: int, b: int)
    requires
        year_text(a) == year_text(b),
    ensures
        a == b,
{
    let (size_a, size_b) = (if a < 0 { (-a) as nat } else { a as nat }, if b < 0 {
        (-b) as nat
    } else {
        b as nat
    });
    let (pad_a, pad_b) = (padded(digits(size_a), 4), padded(digits(size_b), 4));
    lemma_digits(size_a);
    lemma_digits(size_b);
    lemma_padded(digits(size_a), 4);
    lemma_padded(digits(size_b), 4);
    assert((seq!['-'] + pad_a).skip(1) =~= pad_a);
    assert((seq!['+'] + pad_a).skip(1) =~= pad_a);
    assert((seq!['-'] + pad_b).skip(1) =~= pad_b);
    assert((seq!['+'] + pad_b).skip(1) =~= pad_b);
    assert('0' <= pad_a[0] <= '9');
    assert('0' <= pad_b[0] <= '9');
    assert(year_text(a)[0] == year_text(b)[0]);
    assert(year_text(a).skip(1) == year_text(b).skip(1));
    assert(a < 0 <==> year_text(a)[0] == '-');
    assert(b < 0 <==> year_text(b)[0] == '-');
    assert(pad_a == pad_b);
    assert(size_a == size_b);
}

/// What follows the year tells the rest of the point in time.
proof fn lemma_behind_year(a: DateTimeView, b: DateTimeView)
    requires
        a.valid(),
        b.valid(),
        a.text_behind_year() == b.text_behind_year(),
    ensures
        a == (DateTimeView { year: a.year, ..b }),
{
    let (text_a, text_b) = (a.text_behind_year(), b.text_behind_year());
    assert(text_a[1] == text_b[1] && text_a[2] == text_b[2]);
    assert(text_a[4] == text_b[4] && text_a[5] == text_b[5]);
    assert(text_a[7] == text_b[7] && text_a[8] == text_b[8]);
    assert(text_a[10] == text_b[10] && text_a[11] == text_b[11]);
    assert(text_a[13] == text_b[13] && text_a[14] == text_b[14]);
    lemma_two_digits(a.month, b.month);
    lemma_two_digits(a.day, b.day);
    lemma_two_digits(a.hour, b.hour);
    lemma_two_digits(a.minute, b.minute);
    lemma_two_digits(a.second, b.second);
}

proof fn lemma_parts(year: Seq<char>, rest: Seq<char>)
    requires
        rest.len() == 21,
    ensures
        (year + rest).take((year + rest).len() - 21) == year,
        (year + rest).skip((year + rest).len() - 21) == rest,
        (year + rest).skip((year + rest).len() - 6) == rest.skip(15),
{
    assert((year + rest).take((year + rest).len() - 21) =~= year);
    assert((year + rest).skip((year + rest).len() - 21) =~= rest);
    assert((year + rest).skip((year + rest).len() - 6) =~= rest.skip(15));
}

/// A text has at least four characters for the year, and ends with the offset of UTC.
proof fn lemma_form(time: DateTimeView)
    ensures
        time.text().len() >= 25,
        "+00:00"@.is_suffix_of(time.text()),
{
    let size = if time.year < 0 {
        (-time.year) as nat
    } else {
        time.year as nat
    };
    lemma_digits(size);
    lemma_padded(digits(size), 4);
    lemma_parts(year_text(time.year), time.text_behind_year());
    reveal_strlit("+00:00");
    assert(time.text_behind_year().skip(15) =~= "+00:00"@);
}

/// Points in time with the same text are the same.
proof fn lemma_same_text(a: DateTimeView, b: DateTimeView)
    requires
        a.valid(),
        b.valid(),
        a.text() == b.text(),
    ensures
        a == b,
{
    lemma_parts(year_text(a.year), a.text_behind_year());
    lemma_parts(year_text(b.year), b.text_behind_year());
    lemma_year_text(a.year, b.year);
    lemma_behind_year(a, b);
}

/// Read back, a text gives one point in time only, and it ends with the offset of UTC.
pub proof fn a_text_tells_one_time(text: Seq<char>, a: int, b: int)
    requires
        tells(text, a),
        tells(text, b),
    ensures
        a == b,
        "+00:00"@.is_suffix_of(text),
        text.len() >= 25,
{
    let time_a = choose|time: DateTimeView| #[trigger]
        time.valid() && time.seconds() == a && time.text() == text;
    let time_b = choose|time: DateTimeView| #[trigger]
        time.valid() && time.seconds() == b && time.text() == text;
    lemma_same_text(time_a, time_b);
    lemma_form(time_a);
}

proof fn lemma_year_of_day(day: int) -> (year: int)
    ensures
        days_before_year(year) <= day < days_before_year(year + 1),
    decreases if day < 0 { -day } else { day },
{
    if day == 0 {
        1
    } else if day > 0 {
        let year = lemma_year_of_day(day - 1);
        lemma_years(year + 1, year + 2);
        if day < days_before_year(year + 1) {
            year
        } else {
            year + 1
        }
    } else {
        let year = lemma_year_of_day(day + 1);
        lemma_years(year - 1, year);
        if day >= days_before_year(year) {
            year
        } else {
            year - 1
        }
    }
}

proof fn lemma_month_of_day(year: int, day: int) -> (month: int)
    requires
        0 <= day < days_in_year(year),
    ensures
        1 <= month <= 12,
        days_before_month(year, month) <= day < days_before_month(year, month) + days_in_month(
            year,
            month,
        ),
{
    reveal_with_fuel(days_before_month, 13);
    if day < days_before_month(year, 2) {
        1
    } else if day < days_before_month(year, 3) {
        2
    } else if day < days_before_month(year, 4) {
        3
    } else if day < days_before_month(year, 5) {
        4
    } else if day < days_before_month(year, 6) {
        5
    } else if day < days_before_month(year, 7) {
        6
    } else if day < days_before_month(year, 8) {
        7
    } else if day < days_before_month(year, 9) {
        8
    } else if day < days_before_month(year, 10) {
        9
    } else if day < days_before_month(year, 11) {
        10
    } else if day < days_before_month(year, 12) {
        11
    } else {
        12
    }
}

/// Every second has a text.
pub proof fn every_second_has_a_text(seconds: int)
    ensures
        tells(utc_text_of(seconds), seconds),
{
    let day = seconds / 86_400 + days_before_year(1970);
    let clock = seconds % 86_400;
    let year = lemma_year_of_day(day);
    lemma_years(year, year + 1);
    let in_year = day - days_before_year(year);
    let month = lemma_month_of_day(year, in_year);
    let time = DateTimeView {
        year,
        month,
        day: in_year - days_before_month(year, month) + 1,
        hour: clock / 3600,
        minute: clock % 3600 / 60,
        second: clock % 60,
    };
    assert(time.valid() && time.seconds() == seconds && time.text() == time.text());
    assert(tells(time.text(), seconds));
}

} // verus!
