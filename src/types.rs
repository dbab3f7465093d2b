use vstd::prelude::*;

verus! {

/// Relies on chrono's `Utc::now` and `Timelike::hour` / `Timelike::minute`:
/// the hour of the current UTC time, 0 to 23, and its minute, 0 to 59.
#[verifier::external_body]
fn utc_hour_minute() -> (r: (u32, u32))
    ensures
        r.0 < 24,
        r.1 < 60,
{
    let now = chrono::Utc::now();
    (chrono::Timelike::hour(&now), chrono::Timelike::minute(&now))
}

pub open spec fn digit_char(d: int) -> char {
    (('0' as int) + d) as char
}

/// `n` in two decimal digits.
pub open spec fn two_digits(n: int) -> Seq<char> {
    seq![digit_char(n / 10), digit_char(n % 10)]
}

/// The clock shown before each line: `[HH:MM]`, the colon in bold blue.
pub open spec fn timestamp_of(hour: int, minute: int) -> Seq<char> {
    seq!['['] + two_digits(hour) + seq![
        '\u{1b}',
        '[',
        '3',
        '4',
        ';',
        '1',
        'm',
        ':',
        '\u{1b}',
        '[',
        '0',
        'm',
    ] + two_digits(minute) + seq![']']
}

fn digit_text(d: u32) -> (r: &'static str)
    requires
        d < 10,
    ensures
        r@ == seq![digit_char(d as int)],
{
    proof {
        reveal_strlit("0");
        reveal_strlit("1");
        reveal_strlit("2");
        reveal_strlit("3");
        reveal_strlit("4");
        reveal_strlit("5");
        reveal_strlit("6");
        reveal_strlit("7");
        reveal_strlit("8");
        reveal_strlit("9");
    }
    let r = match d {
        0 => "0",
        1 => "1",
        2 => "2",
        3 => "3",
        4 => "4",
        5 => "5",
        6 => "6",
        7 => "7",
        8 => "8",
        _ => "9",
    };
    assert(r@ =~= seq![digit_char(d as int)]);
    r
}

/// Writes a clock time of `hour` and `minute`.
pub fn timestamp_text(hour: u32, minute: u32) -> (r: String)
    requires
        hour < 100,
        minute < 100,
    ensures
        r@ == timestamp_of(hour as int, minute as int),
{
    let mut r = String::from_str("[");
    r.append(digit_text(hour / 10));
    r.append(digit_text(hour % 10));
    r.append("\u{1b}[34;1m:\u{1b}[0m");
    r.append(digit_text(minute / 10));
    r.append(digit_text(minute % 10));
    r.append("]");
    proof {
        reveal_strlit("[");
        reveal_strlit("\u{1b}[34;1m:\u{1b}[0m");
        reveal_strlit("]");
    }
    assert(r@ =~= timestamp_of(hour as int, minute as int));
    r
}

/// The current UTC time of day as shown before each line.
pub fn get_timestamp() -> (r: String)
    ensures
        exists|h: int, m: int| 0 <= h < 24 && 0 <= m < 60 && r@ == timestamp_of(h, m),
{
    let (hour, minute) = utc_hour_minute();
    timestamp_text(hour, minute)
}

} // verus!
