//! What holds of the calendar and of how it is written.

use vstd::prelude::*;

use crate::calendar::{
    days_before_month, days_before_year, days_in_month, leap, padded, tells, year_text,
    DateTimeView,
};
use crate::format_laws::{a_numeral_tells_its_number, number};
use crate::text::{decimal, digit_char, digits};

verus! {

/// A leap year comes every four years, but not in the full hundreds that no four hundred divides. It
/// is the one whose February has twenty-nine days.
pub proof fn months_have_their_days(year: int)
    ensures
        leap(year) <==> year % 400 == 0 || year % 4 == 0 && year % 100 != 0,
        days_in_month(year, 2) == 28 + if leap(year) {
            1int
        } else {
            0
        },
        forall|month: int|
            month == 4 || month == 6 || month == 9 || month == 11 ==> #[trigger] days_in_month(
                year,
                month,
            ) == 30,
        forall|month: int|
            month == 1 || month == 3 || month == 5 || month == 7 || month == 8 || month == 10
                || month == 12 ==> #[trigger] days_in_month(year, month) == 31,
{
}

/// The seconds begin with 1970, and each point in time is one second before the one that follows by
/// the clock and the calendar.
pub proof fn each_second_follows_on_the_one_before(time: DateTimeView)
    requires
        time.valid(),
    ensures
        (DateTimeView { year: 1970, month: 1, day: 1, hour: 0, minute: 0, second: 0 }).seconds()
            == 0,
        ({
            let DateTimeView { year, month, day, hour, minute, second } = time;
            let next = if second < 59 {
                DateTimeView { second: second + 1, ..time }
            } else if minute < 59 {
                DateTimeView { minute: minute + 1, second: 0, ..time }
            } else if hour < 23 {
                DateTimeView { hour: hour + 1, minute: 0, second: 0, ..time }
            } else if day < days_in_month(year, month) {
                DateTimeView { day: day + 1, hour: 0, minute: 0, second: 0, ..time }
            } else if month < 12 {
                DateTimeView { year, month: month + 1, day: 1, hour: 0, minute: 0, second: 0 }
            } else {
                DateTimeView { year: year + 1, month: 1, day: 1, hour: 0, minute: 0, second: 0 }
            };
            &&& next.valid()
            &&& next.seconds() == time.seconds() + 1
        }),
{
    if time.month == 12 {
        reveal_with_fuel(days_before_month, 13);
        assert(days_before_month(time.year, 12) + 31 == 365 + if leap(time.year) {
            1int
        } else {
            0
        });
    }
    assert(days_before_year(time.year + 1) == days_before_year(time.year) + 365 + if leap(
        time.year,
    ) {
        1int
    } else {
        0
    });
}

proof fn lemma_two(n: int, text: Seq<char>)
    requires
        0 <= n < 100,
        text == seq![digit_char((n / 10) as nat), digit_char((n % 10) as nat)],
    ensures
        number(text) == n,
{
    reveal_with_fuel(number, 3);
    assert(text.drop_last() =~= seq![digit_char((n / 10) as nat)]);
    assert(text.drop_last().drop_last() =~= Seq::empty());
}

proof fn lemma_leading_zero(text: Seq<char>)
    ensures
        number(seq!['0'] + text) == number(text),
    decreases text.len(),
{
    let longer = seq!['0'] + text;
    if text.len() == 0 {
        reveal_with_fuel(number, 2);
        assert(longer.drop_last() =~= Seq::empty());
    } else {
        assert(longer.drop_last() =~= seq!['0'] + text.drop_last());
        lemma_leading_zero(text.drop_last());
    }
}

proof fn lemma_padded(text: Seq<char>, width: nat)
    ensures
        number(padded(text, width)) == number(text),
        padded(text, width).len() == (if text.len() >= width {
            text.len()
        } else {
            width
        }),
        text.len() >= width ==> padded(text, width) == text,
    decreases width - text.len(),
{
    if text.len() < width {
        lemma_leading_zero(text);
        lemma_padded(seq!['0'] + text, width);
    }
}

/// A year is written in at least four digits, with zeros in front where it is smaller; a year before
/// 0 has a minus sign and one after 9999 a plus sign, and no other has a sign.
pub proof fn a_year_is_written_in_four_digits(year: int)
    ensures
        0 <= year <= 9999 ==> year_text(year).len() >= 4 && number(year_text(year)) == year,
        year < 0 ==> year_text(year)[0] == '-' && year_text(year).len() >= 5 && number(
            year_text(year).skip(1),
        ) == -year,
        year > 9999 ==> year_text(year)[0] == '+' && year_text(year).len() >= 5 && number(
            year_text(year).skip(1),
        ) == year,
        year_text(year).len() > 5 ==> year_text(year).skip(1) == decimal(if year < 0 {
            -year
        } else {
            year
        }),
{
    let size = if year < 0 {
        -year
    } else {
        year
    };
    let digits_of = padded(digits(size as nat), 4);
    a_numeral_tells_its_number(size);
    lemma_padded(digits(size as nat), 4);
    assert((seq!['-'] + digits_of).skip(1) =~= digits_of);
    assert((seq!['+'] + digits_of).skip(1) =~= digits_of);
    if 0 <= year <= 9999 {
        lemma_few_digits(year as nat);
    }
}

proof fn lemma_few_digits(n: nat)
    requires
        n <= 9999,
    ensures
        digits(n).len() <= 4,
{
    reveal_with_fuel(digits, 5);
}

/// Behind the year stand the month, the day, the hour, the minute and the second, each in two digits
/// and in this order, and the offset of UTC.
pub proof fn a_text_holds_what_the_clock_shows(time: DateTimeView)
    requires
        time.valid(),
    ensures
        time.text() == year_text(time.year) + time.text_behind_year(),
        ({
            let text = time.text_behind_year();
            &&& text.len() == 21
            &&& text[0] == '-' && number(text.subrange(1, 3)) == time.month
            &&& text[3] == '-' && number(text.subrange(4, 6)) == time.day
            &&& text[6] == 'T' && number(text.subrange(7, 9)) == time.hour
            &&& text[9] == ':' && number(text.subrange(10, 12)) == time.minute
            &&& text[12] == ':' && number(text.subrange(13, 15)) == time.second
            &&& text.skip(15) == "+00:00"@
        }),
        tells(time.text(), time.seconds()),
{
    let text = time.text_behind_year();
    reveal_strlit("+00:00");
    assert(text.subrange(1, 3) =~= seq![text[1], text[2]]);
    assert(text.subrange(4, 6) =~= seq![text[4], text[5]]);
    assert(text.subrange(7, 9) =~= seq![text[7], text[8]]);
    assert(text.subrange(10, 12) =~= seq![text[10], text[11]]);
    assert(text.subrange(13, 15) =~= seq![text[13], text[14]]);
    lemma_two(time.month, text.subrange(1, 3));
    lemma_two(time.day, text.subrange(4, 6));
    lemma_two(time.hour, text.subrange(7, 9));
    lemma_two(time.minute, text.subrange(10, 12));
    lemma_two(time.second, text.subrange(13, 15));
    assert(text.skip(15) =~= "+00:00"@);
    assert(time.valid() && time.seconds() == time.seconds() && time.text() == time.text());
}

/// A text that tells a second is that of a point in time by the clock and the calendar, and no other
/// text is.
pub proof fn what_tells_a_second_is_the_text_of_its_time(text: Seq<char>, seconds: int)
    ensures
        tells(text, seconds) <==> exists|time: DateTimeView|
            {
                &&& #[trigger] time.valid()
                &&& time.seconds() == seconds
                &&& text == year_text(time.year) + time.text_behind_year()
            },
{
    if tells(text, seconds) {
        let time = choose|time: DateTimeView| #[trigger]
            time.valid() && time.seconds() == seconds && time.text() == text;
        assert(time.valid());
        assert(text == year_text(time.year) + time.text_behind_year());
    }
}

} // verus!
