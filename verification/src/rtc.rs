//! Real-time clock values: decoding the CMOS registers and formatting the
//! time for display.
use vstd::prelude::*;
use crate::display::shell_buffer::{append_capped, decimal, stored, FixedText};

verus! {

#[derive(Clone, Copy, Debug, PartialEq, Eq, Structural)]
pub struct RtcTime {
    pub year: u16,
    pub month: u8,
    pub day: u8,
    pub hour: u8,
    pub minute: u8,
    pub second: u8,
}

/// The value of a two-digit binary-coded decimal byte.
pub open spec fn spec_bcd_to_binary(value: u8) -> u8 {
    (value % 16 + (value / 16) * 10) as u8
}

pub fn bcd_to_binary(value: u8) -> (r: u8)
    ensures
        r == spec_bcd_to_binary(value),
{
    value % 16 + (value / 16) * 10
}

/// The hour register in 24-hour form: bit 7 marks the afternoon on a
/// 12-hour clock, where 12 is noon or midnight.
pub open spec fn spec_hour24(hour: u8, twelve_hour: bool) -> u8 {
    if !twelve_hour {
        hour
    } else {
        let pm = hour >= 128;
        let h = (hour % 128) as u8;
        if pm && h < 12 {
            (h + 12) as u8
        } else if !pm && h == 12 {
            0
        } else {
            h
        }
    }
}

/// The clock read from the CMOS registers second, minute, hour, day,
/// month, year and status B: bit 2 of status B selects binary over BCD
/// values, bit 1 the 24-hour clock.
pub open spec fn spec_decode(second: u8, minute: u8, hour: u8, day: u8, month: u8, year: u8, status_b: u8) -> RtcTime {
    let bcd = (status_b / 4) % 2 == 0;
    let twelve_hour = (status_b / 2) % 2 == 0;
    let s = if bcd { spec_bcd_to_binary(second) } else { second };
    let mi = if bcd { spec_bcd_to_binary(minute) } else { minute };
    let h = if bcd {
        (spec_bcd_to_binary((hour % 128) as u8) + if hour >= 128 { 128int } else { 0int }) as u8
    } else {
        hour
    };
    let d = if bcd { spec_bcd_to_binary(day) } else { day };
    let mo = if bcd { spec_bcd_to_binary(month) } else { month };
    let y = if bcd { spec_bcd_to_binary(year) } else { year };
    RtcTime { year: (2000 + y) as u16, month: mo, day: d, hour: spec_hour24(h, twelve_hour), minute: mi, second: s }
}

pub fn decode(second: u8, minute: u8, hour: u8, day: u8, month: u8, year: u8, status_b: u8) -> (t: RtcTime)
    ensures
        t == spec_decode(second, minute, hour, day, month, year, status_b),
{
    let mut second = second;
    let mut minute = minute;
    let mut hour = hour;
    let mut day = day;
    let mut month = month;
    let mut year = year;
    if (status_b / 4) % 2 == 0 {
        second = bcd_to_binary(second);
        minute = bcd_to_binary(minute);
        let high: u8 = if hour >= 128 {
            128
        } else {
            0
        };
        hour = bcd_to_binary(hour % 128) + high;
        day = bcd_to_binary(day);
        month = bcd_to_binary(month);
        year = bcd_to_binary(year);
    }
    if (status_b / 2) % 2 == 0 {
        let pm = hour >= 128;
        hour = hour % 128;
        if pm && hour < 12 {
            hour = hour + 12;
        }
        if !pm && hour == 12 {
            hour = 0;
        }
    }
    RtcTime { year: 2000 + year as u16, month, day, hour, minute, second }
}

/// Two decimal digits of `value`; values from 100 on give a first digit
/// past `9`.
pub open spec fn two_digits(value: u8) -> Seq<u8> {
    seq![(48 + value / 10) as u8, (48 + value % 10) as u8]
}

fn push_two(text: &mut FixedText, value: u8)
    requires
        old(text).wf(),
    ensures
        final(text).wf(),
        final(text)@ == append_capped(old(text)@, stored(two_digits(value))),
{
    let digits = [48 + value / 10, 48 + value % 10];
    assert(digits@ =~= two_digits(value));
    text.push_bytes(digits.as_slice());
}

pub open spec fn spec_format_clock(t: RtcTime) -> Seq<u8> {
    two_digits(t.hour) + seq![58u8] + two_digits(t.minute) + seq![58u8] + two_digits(t.second)
}

pub open spec fn spec_format_date_time(t: RtcTime) -> Seq<u8> {
    seq![114u8, 116, 99, 32] + decimal(t.year as nat) + seq![45u8] + two_digits(t.month) + seq![45u8]
        + two_digits(t.day) + seq![32u8] + spec_format_clock(t)
}

proof fn lemma_two_digits_ascii(value: u8)
    ensures
        stored(two_digits(value)) == two_digits(value),
{
    assert(stored(two_digits(value)) =~= two_digits(value));
}

impl RtcTime {
    /// `hh:mm:ss`.
    pub fn format_clock(self) -> (text: FixedText)
        ensures
            text.wf(),
            text@ == spec_format_clock(self),
    {
        let mut text = FixedText::empty();
        proof {
            lemma_two_digits_ascii(self.hour);
            lemma_two_digits_ascii(self.minute);
            lemma_two_digits_ascii(self.second);
            assert(stored(seq![58u8]) =~= seq![58u8]);
        }
        push_two(&mut text, self.hour);
        text.push_bytes([58u8].as_slice());
        push_two(&mut text, self.minute);
        text.push_bytes([58u8].as_slice());
        push_two(&mut text, self.second);
        assert(text@ =~= spec_format_clock(self));
        text
    }

    /// `rtc yyyy-mm-dd hh:mm:ss`.
    pub fn format_date_time(self) -> (text: FixedText)
        ensures
            text.wf(),
            text@ == spec_format_date_time(self),
    {
        proof {
            lemma_two_digits_ascii(self.hour);
            lemma_two_digits_ascii(self.minute);
            lemma_two_digits_ascii(self.second);
            lemma_two_digits_ascii(self.month);
            lemma_two_digits_ascii(self.day);
            crate::display::shell_buffer::lemma_decimal_short(self.year as nat);
            assert(stored(seq![58u8]) =~= seq![58u8]);
            assert(stored(seq![45u8]) =~= seq![45u8]);
            assert(stored(seq![32u8]) =~= seq![32u8]);
            assert(stored(seq![114u8, 116, 99, 32]) =~= seq![114u8, 116, 99, 32]);
        }
        let mut text = FixedText::empty();
        text.push_bytes([114u8, 116, 99, 32].as_slice());
        text.push_u64(self.year as u64);
        text.push_bytes([45u8].as_slice());
        push_two(&mut text, self.month);
        text.push_bytes([45u8].as_slice());
        push_two(&mut text, self.day);
        text.push_bytes([32u8].as_slice());
        push_two(&mut text, self.hour);
        text.push_bytes([58u8].as_slice());
        push_two(&mut text, self.minute);
        text.push_bytes([58u8].as_slice());
        push_two(&mut text, self.second);
        assert(text@ =~= spec_format_date_time(self));
        text
    }
}

} // verus!
