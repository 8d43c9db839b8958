//! Forecasts on paper: one line for each minute of the trading day, and the table
//! that compares the forecasts of two models.

use vstd::prelude::*;

use crate::text::{align_right, decimal_text};

verus! {

/// The minutes of a full trading day, which a forecast covers.
pub const FORECAST_HORIZON: usize = 390;

/// The minutes over which two models' forecasts are compared.
pub const COMPARED_MINUTES: usize = 10;

/// The minute of the day at which trading opens, 09:30.
pub const OPENING_MINUTE: u64 = 570;

/// The time of day that is `minute` minutes after midnight, as `HH:MM`.
pub open spec fn clock(minute: nat) -> Seq<char> {
    crate::text::right_aligned(crate::text::decimal(minute / 60), 2, '0') + ":"@
        + crate::text::right_aligned(crate::text::decimal(minute % 60), 2, '0')
}

/// The line of a forecast for the minute of number `index`, the first being 0.
pub open spec fn minute_line(index: nat, price: Seq<char>) -> Seq<char> {
    clock(OPENING_MINUTE as nat + index) + " - Minute "@ + crate::text::decimal(index + 1) + ": $"@
        + price
}

fn two_digits(number: u64) -> (text: String)
    ensures
        text@ == crate::text::right_aligned(crate::text::decimal(number as nat), 2, '0'),
{
    proof {
        reveal_strlit("0");
    }
    align_right(decimal_text(number).as_str(), 2, "0")
}

/// The lines of a forecast, minute by minute from the opening on; `prices` are
/// the forecast prices as they are to appear.
pub fn forecast_lines(prices: &Vec<String>) -> (lines: Vec<String>)
    ensures
        lines@.len() == prices@.len(),
        forall|i: int|
            0 <= i < lines@.len() ==> (#[trigger] lines@[i])@ == minute_line(i as nat, prices@[i]@),
        forall|i: int|
            0 <= i < lines@.len() ==> (#[trigger] lines@[i])@ == clock((570 + i) as nat)
                + " - Minute "@ + crate::text::decimal((i + 1) as nat) + ": $"@ + prices@[i]@,
{
    let mut lines: Vec<String> = Vec::new();
    let mut hour: u64 = 9;
    let mut minute: u64 = 30;
    let mut i: usize = 0;
    while i < prices.len()
        invariant
            i <= prices@.len(),
            minute < 60,
            hour * 60 + minute == OPENING_MINUTE + i,
            lines@.len() == i,
            forall|j: int|
                0 <= j < i ==> (#[trigger] lines@[j])@ == minute_line(j as nat, prices@[j]@),
        decreases prices@.len() - i,
    {
        let mut line = two_digits(hour);
        line.append(":");
        line.append(two_digits(minute).as_str());
        line.append(" - Minute ");
        line.append(decimal_text(i as u64 + 1).as_str());
        line.append(": $");
        line.append(prices[i].as_str());
        assert((OPENING_MINUTE as nat + i as nat) / 60 == hour);
        assert((OPENING_MINUTE as nat + i as nat) % 60 == minute);
        assert(line@ =~= minute_line(i as nat, prices@[i as int]@));
        lines.push(line);
        minute = minute + 1;
        if minute == 60 {
            minute = 0;
            hour = hour + 1;
        }
        i = i + 1;
    }
    lines
}

/// A row of the table that compares the forecasts of two models.
pub open spec fn comparison_row(index: nat, gru: Seq<char>, lstm: Seq<char>) -> Seq<char> {
    crate::text::right_aligned(crate::text::decimal(index + 1), 6, ' ') + " | $"@
        + crate::text::right_aligned(gru, 13, ' ') + " | $"@ + crate::text::right_aligned(
        lstm,
        14,
        ' ',
    )
}

/// The rows of the table that compares the two models' forecast prices, as they
/// are to appear, minute by minute.
pub fn comparison_rows(gru: &Vec<String>, lstm: &Vec<String>) -> (rows: Vec<String>)
    requires
        gru@.len() <= lstm@.len(),
    ensures
        rows@.len() == gru@.len(),
        forall|i: int|
            0 <= i < rows@.len() ==> (#[trigger] rows@[i])@ == comparison_row(
                i as nat,
                gru@[i]@,
                lstm@[i]@,
            ),
        forall|i: int|
            0 <= i < rows@.len() ==> (#[trigger] rows@[i])@ == crate::text::right_aligned(
                crate::text::decimal((i + 1) as nat),
                6,
                ' ',
            ) + " | $"@ + crate::text::right_aligned(gru@[i]@, 13, ' ') + " | $"@
                + crate::text::right_aligned(lstm@[i]@, 14, ' '),
{
    let mut rows: Vec<String> = Vec::new();
    let mut i: usize = 0;
    proof {
        reveal_strlit(" ");
    }
    while i < gru.len()
        invariant
            i <= gru@.len() <= lstm@.len(),
            rows@.len() == i,
            " "@ == seq![' '],
            forall|j: int|
                0 <= j < i ==> (#[trigger] rows@[j])@ == comparison_row(
                    j as nat,
                    gru@[j]@,
                    lstm@[j]@,
                ),
        decreases gru@.len() - i,
    {
        let mut row = align_right(decimal_text(i as u64 + 1).as_str(), 6, " ");
        row.append(" | $");
        row.append(align_right(gru[i].as_str(), 13, " ").as_str());
        row.append(" | $");
        row.append(align_right(lstm[i].as_str(), 14, " ").as_str());
        assert(row@ =~= comparison_row(i as nat, gru@[i as int]@, lstm@[i as int]@));
        rows.push(row);
        i = i + 1;
    }
    rows
}

/// The minutes of a full trading day run from 09:30 to 15:59.
pub proof fn trading_day_ends_at_four(index: nat)
    requires
        index < FORECAST_HORIZON,
    ensures
        9 <= (OPENING_MINUTE as nat + index) / 60 < 16,
        index == 0 ==> (OPENING_MINUTE as nat + index) % 60 == 30,
        index == FORECAST_HORIZON - 1 ==> (OPENING_MINUTE as nat + index) / 60 == 15 && (
        OPENING_MINUTE as nat + index) % 60 == 59,
{
}

/// Each minute of a day has a time of its own, five characters long.
pub proof fn clock_is_injective(first: nat, second: nat)
    requires
        first < 6000,
        second < 6000,
        clock(first) == clock(second),
    ensures
        first == second,
{
    clock_shape(first);
    clock_shape(second);
    let a = clock(first);
    let b = clock(second);
    assert(a.subrange(0, 2) == b.subrange(0, 2));
    assert(a.subrange(3, 5) == b.subrange(3, 5));
}

proof fn clock_shape(minute: nat)
    requires
        minute < 6000,
    ensures
        clock(minute).len() == 5,
        crate::text::decimal_value(clock(minute).subrange(0, 2)) == minute / 60,
        crate::text::decimal_value(clock(minute).subrange(3, 5)) == minute % 60,
{
    reveal_strlit(":");
    reveal_with_fuel(crate::text::decimal, 2);
    let hours = crate::text::right_aligned(crate::text::decimal(minute / 60), 2, '0');
    let minutes = crate::text::right_aligned(crate::text::decimal(minute % 60), 2, '0');
    assert(hours.len() == 2 && minutes.len() == 2);
    assert(clock(minute).subrange(0, 2) =~= hours);
    assert(clock(minute).subrange(3, 5) =~= minutes);
    crate::text::decimal_denotes(minute / 60);
    crate::text::leading_zeros_are_void(crate::text::decimal(minute / 60), 2);
    crate::text::decimal_denotes(minute % 60);
    crate::text::leading_zeros_are_void(crate::text::decimal(minute % 60), 2);
}

/// How a time of day reads: the hour, a colon and the minute, each in digits, the
/// minute and an hour below 100 in two of them.
pub proof fn clock_reads(minute: nat)
    ensures
        ({
            let time = clock(minute);
            let hours = time.take(time.len() - 3);
            let minutes = time.skip(time.len() - 2);
            &&& time.len() >= 5
            &&& minute < 6000 <==> time.len() == 5
            &&& time[time.len() - 3] == ':'
            &&& forall|i: int|
                0 <= i < time.len() && i != time.len() - 3 ==> '0' <= #[trigger] time[i] <= '9'
            &&& minute >= 6000 ==> time[0] != '0'
            &&& crate::text::decimal_value(hours) == minute / 60
            &&& crate::text::decimal_value(minutes) == minute % 60
        }),
{
    reveal_strlit(":");
    let time = clock(minute);
    let hour_text = crate::text::decimal(minute / 60);
    let minute_text = crate::text::decimal(minute % 60);
    let hours = crate::text::right_aligned(hour_text, 2, '0');
    let minutes = crate::text::right_aligned(minute_text, 2, '0');
    crate::text::decimal_is_plain(minute / 60);
    crate::text::decimal_is_plain(minute % 60);
    crate::text::decimal_denotes(minute / 60);
    crate::text::decimal_denotes(minute % 60);
    crate::text::leading_zeros_are_void(hour_text, 2);
    crate::text::leading_zeros_are_void(minute_text, 2);
    crate::text::alignment_keeps_the_text(hour_text, 2, '0');
    crate::text::alignment_keeps_the_text(minute_text, 2, '0');
    assert(minute < 6000 <==> minute / 60 < 100);
    assert(time.take(time.len() - 3) =~= hours);
    assert(time.skip(time.len() - 2) =~= minutes);
    assert forall|i: int| 0 <= i < hours.len() implies '0' <= #[trigger] hours[i] <= '9' by {
        let start = hours.len() - hour_text.len();
        if i >= start {
            assert(hours.skip(start)[i - start] == hours[i]);
        }
    }
    assert forall|i: int| 0 <= i < minutes.len() implies '0' <= #[trigger] minutes[i] <= '9' by {
        let start = minutes.len() - minute_text.len();
        if i >= start {
            assert(minutes.skip(start)[i - start] == minutes[i]);
        }
    }
    assert forall|i: int| 0 <= i < time.len() && i != time.len() - 3 implies '0'
        <= #[trigger] time[i] <= '9' by {
        if i < hours.len() {
            assert(time[i] == hours[i]);
        } else {
            assert(time[i] == minutes[i - hours.len() - 1]);
        }
    }
    if minute >= 6000 {
        assert(hours =~= hour_text);
        assert(time[0] == hours[0]);
    }
}

/// How a line of a forecast reads, whatever the price: the time that is `index`
/// minutes after 09:30, the number of the minute, counted from 1, and at the end
/// the whole price.
pub proof fn forecast_line_reads(index: nat, price: Seq<char>)
    ensures
        ({
            let line = minute_line(index, price);
            let width = clock(570 + index).len() as int;
            let end = line.len() - price.len();
            let number = line.subrange(width + 10, end - 3);
            &&& 0 < width < end - 13
            &&& line.take(width) == clock(570 + index)
            &&& line.subrange(width, width + 10) == " - Minute "@
            &&& crate::text::decimal_value(number) == index + 1
            &&& number[0] != '0'
            &&& forall|i: int| 0 <= i < number.len() ==> '0' <= #[trigger] number[i] <= '9'
            &&& line.subrange(end - 3, end) == ": $"@
            &&& line.skip(end) == price
            &&& index < 5430 ==> width == 5 && line[2] == ':' && crate::text::decimal_value(
                line.subrange(0, 2),
            ) == (570 + index) / 60 && crate::text::decimal_value(line.subrange(3, 5)) == (570
                + index) % 60
        }),
{
    reveal_strlit(" - Minute ");
    reveal_strlit(": $");
    let line = minute_line(index, price);
    let time = clock(570 + index);
    let width = time.len() as int;
    let end = line.len() - price.len();
    let written = crate::text::decimal(index + 1);
    clock_reads(570 + index);
    crate::text::decimal_is_plain(index + 1);
    crate::text::decimal_denotes(index + 1);
    assert(line.take(width) =~= time);
    assert(line.subrange(width, width + 10) =~= " - Minute "@);
    assert(line.subrange(width + 10, end - 3) =~= written);
    assert(line.subrange(end - 3, end) =~= ": $"@);
    assert(line.skip(end) =~= price);
    if index < 5430 {
        assert(line.subrange(0, 2) =~= time.take(2));
        assert(line.subrange(3, 5) =~= time.skip(3));
        assert(line[2] == time[2]);
    }
}

/// The price has no influence on what stands before it in a line of a forecast.
pub proof fn time_does_not_depend_on_the_price(index: nat, one: Seq<char>, other: Seq<char>)
    ensures
        minute_line(index, one).take(minute_line(index, one).len() - one.len()) == minute_line(
            index,
            other,
        ).take(minute_line(index, other).len() - other.len()),
        minute_line(index, one) == minute_line(index, other) <==> one == other,
{
    let first = minute_line(index, one);
    let second = minute_line(index, other);
    forecast_line_reads(index, one);
    forecast_line_reads(index, other);
    assert(first.take(first.len() - one.len()) =~= second.take(second.len() - other.len()));
}

/// From one line of a forecast to the next a minute goes by, on the clock and in
/// the count.
pub proof fn time_goes_by_minutes(index: nat, price: Seq<char>, next: Seq<char>)
    requires
        index < 5429,
    ensures
        ({
            let line = minute_line(index, price);
            let later = minute_line(index + 1, next);
            let hour = crate::text::decimal_value(line.subrange(0, 2));
            let minute = crate::text::decimal_value(line.subrange(3, 5));
            let later_hour = crate::text::decimal_value(later.subrange(0, 2));
            let later_minute = crate::text::decimal_value(later.subrange(3, 5));
            &&& 0 <= minute < 60
            &&& 60 * later_hour + later_minute == 60 * hour + minute + 1
            &&& index == 0 ==> hour == 9 && minute == 30
        }),
{
    forecast_line_reads(index, price);
    forecast_line_reads(index + 1, next);
}

/// How a row of a comparison reads: the number of the minute, counted from 1, ends
/// at the sixth character, the price of the GRU model at the 23rd and that of the
/// LSTM model at the 41st, with blanks before each.
pub proof fn comparison_row_reads(index: nat, gru: Seq<char>, lstm: Seq<char>)
    requires
        crate::text::decimal(index + 1).len() <= 6,
        gru.len() <= 13,
        lstm.len() <= 14,
    ensures
        ({
            let row = comparison_row(index, gru, lstm);
            let digits = crate::text::decimal(index + 1).len() as int;
            let number = row.subrange(6 - digits, 6);
            &&& row.len() == 41
            &&& crate::text::decimal_value(number) == index + 1
            &&& number[0] != '0'
            &&& row.subrange(6, 10) == " | $"@
            &&& row.subrange(23 - gru.len(), 23) == gru
            &&& row.subrange(23, 27) == " | $"@
            &&& row.subrange(41 - lstm.len(), 41) == lstm
            &&& forall|i: int|
                0 <= i < 6 - digits || 10 <= i < 23 - gru.len() || 27 <= i < 41 - lstm.len()
                    ==> #[trigger] row[i] == ' '
        }),
{
    reveal_strlit(" | $");
    let row = comparison_row(index, gru, lstm);
    let written = crate::text::decimal(index + 1);
    let digits = written.len() as int;
    crate::text::decimal_is_plain(index + 1);
    crate::text::decimal_denotes(index + 1);
    assert(row.subrange(6 - digits, 6) =~= written);
    assert(row.subrange(6, 10) =~= " | $"@);
    assert(row.subrange(23 - gru.len(), 23) =~= gru);
    assert(row.subrange(23, 27) =~= " | $"@);
    assert(row.subrange(41 - lstm.len(), 41) =~= lstm);
}

/// The forecast of a trading day begins at 09:30 and ends with the minute before
/// 16:00; the comparison covers the first ten minutes of it.
pub proof fn day_has_its_minutes()
    ensures
        OPENING_MINUTE == 9 * 60 + 30,
        OPENING_MINUTE + FORECAST_HORIZON == 16 * 60,
        COMPARED_MINUTES == 10,
{
}

} // verus!
