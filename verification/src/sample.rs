//! Sample records: what each of them holds by its number, and what is
//! left to chance.

use crate::data_models::BusinessData;
use crate::entropy::is_random_id;
use vstd::prelude::*;

verus! {

/// The category of the sample record numbered `i`.
pub open spec fn sample_category(i: int) -> Seq<char> {
    if i % 4 == 0 {
        "Sales"@
    } else if i % 4 == 1 {
        "User Engagement"@
    } else if i % 4 == 2 {
        "Technical"@
    } else {
        "Customer Support"@
    }
}

/// The region of the sample record numbered `i`.
pub open spec fn sample_region(i: int) -> Seq<char> {
    if i % 4 == 0 {
        "North America"@
    } else if i % 4 == 1 {
        "Europe"@
    } else if i % 4 == 2 {
        "Asia"@
    } else {
        "Latin America"@
    }
}

/// The department of the sample record numbered `i`.
pub open spec fn sample_department(i: int) -> Seq<char> {
    if i % 4 == 0 {
        "Marketing"@
    } else if i % 4 == 1 {
        "Development"@
    } else if i % 4 == 2 {
        "Operations"@
    } else {
        "Support"@
    }
}

/// The metric of the sample record numbered `i`: one of the three metrics
/// of its category, taken in turn.
pub open spec fn sample_metric(i: int) -> Seq<char> {
    if i % 4 == 0 {
        if i % 3 == 0 {
            "Revenue"@
        } else if i % 3 == 1 {
            "Units Sold"@
        } else {
            "Conversion Rate"@
        }
    } else if i % 4 == 1 {
        if i % 3 == 0 {
            "Daily Active Users"@
        } else if i % 3 == 1 {
            "Session Length"@
        } else {
            "Retention Rate"@
        }
    } else if i % 4 == 2 {
        if i % 3 == 0 {
            "Uptime"@
        } else if i % 3 == 1 {
            "Response Time"@
        } else {
            "Error Rate"@
        }
    } else {
        if i % 3 == 0 {
            "Ticket Volume"@
        } else if i % 3 == 1 {
            "Resolution Time"@
        } else {
            "Satisfaction Score"@
        }
    }
}

/// The least amount that the sample record numbered `i` may hold.
pub open spec fn sample_low(i: int) -> int {
    if i % 4 == 0 {
        if i % 3 == 0 {
            10_000_000_000
        } else if i % 3 == 1 {
            100_000_000
        } else {
            10_000
        }
    } else if i % 4 == 1 {
        if i % 3 == 0 {
            1_000_000_000
        } else if i % 3 == 1 {
            5_000_000
        } else {
            100_000
        }
    } else if i % 4 == 2 {
        if i % 3 == 0 {
            950_000
        } else if i % 3 == 1 {
            50_000_000
        } else {
            1_000
        }
    } else {
        if i % 3 == 0 {
            10_000_000
        } else if i % 3 == 1 {
            1_000_000
        } else {
            3_000_000
        }
    }
}

/// The bound that the amount of the sample record numbered `i` stays below.
pub open spec fn sample_high(i: int) -> int {
    if i % 4 == 0 {
        if i % 3 == 0 {
            100_000_000_000
        } else if i % 3 == 1 {
            5_000_000_000
        } else {
            500_000
        }
    } else if i % 4 == 1 {
        if i % 3 == 0 {
            50_000_000_000
        } else if i % 3 == 1 {
            60_000_000
        } else {
            900_000
        }
    } else if i % 4 == 2 {
        if i % 3 == 0 {
            1_000_000
        } else if i % 3 == 1 {
            500_000_000
        } else {
            100_000
        }
    } else {
        if i % 3 == 0 {
            500_000_000
        } else if i % 3 == 1 {
            48_000_000
        } else {
            5_000_000
        }
    }
}

/// A decimal digit as text.
pub open spec fn digit_text(d: int) -> Seq<char> {
    if d == 0 {
        "0"@
    } else if d == 1 {
        "1"@
    } else if d == 2 {
        "2"@
    } else if d == 3 {
        "3"@
    } else if d == 4 {
        "4"@
    } else if d == 5 {
        "5"@
    } else if d == 6 {
        "6"@
    } else if d == 7 {
        "7"@
    } else if d == 8 {
        "8"@
    } else {
        "9"@
    }
}

/// A number below 256 in decimal, with a leading zero where it has one
/// digit only.
pub open spec fn two_digits(n: int) -> Seq<char> {
    if n < 100 {
        digit_text(n / 10) + digit_text(n % 10)
    } else {
        digit_text(n / 100) + digit_text((n / 10) % 10) + digit_text(n % 10)
    }
}

/// A day of the year 2024 as text: the year, the month and the day, with a
/// hyphen between them.
pub open spec fn date_text(month: int, day: int) -> Seq<char> {
    "2024-"@ + two_digits(month) + "-"@ + two_digits(day)
}

/// What holds of the sample record numbered `i`, whatever was drawn.
pub open spec fn is_sample_record(r: BusinessData, i: int) -> bool {
    &&& is_random_id(r.id@)
    &&& exists|month: int, day: int|
        1 <= month <= 12 && 1 <= day <= 28 && r.timestamp@ == #[trigger] date_text(month, day)
    &&& r.category@ == sample_category(i)
    &&& r.metric_name@ == sample_metric(i)
    &&& sample_low(i) <= r.value < sample_high(i)
    &&& r.region@ == sample_region(i)
    &&& r.department@ == sample_department(i)
}

fn digit_name(d: u8) -> (text: &'static str)
    requires
        d < 10,
    ensures
        text@ == digit_text(d as int),
{
    if d == 0 {
        "0"
    } else if d == 1 {
        "1"
    } else if d == 2 {
        "2"
    } else if d == 3 {
        "3"
    } else if d == 4 {
        "4"
    } else if d == 5 {
        "5"
    } else if d == 6 {
        "6"
    } else if d == 7 {
        "7"
    } else if d == 8 {
        "8"
    } else {
        "9"
    }
}

fn push_two_digits(text: &mut String, n: u8)
    ensures
        final(text)@ == old(text)@ + two_digits(n as int),
{
    if n >= 100 {
        text.append(digit_name(n / 100));
        text.append(digit_name((n / 10) % 10));
    } else {
        text.append(digit_name(n / 10));
    }
    text.append(digit_name(n % 10));
    assert(text@ =~= old(text)@ + two_digits(n as int));
}

fn category_name(k: usize) -> (name: &'static str)
    requires
        k < 4,
    ensures
        name@ == sample_category(k as int),
{
    if k == 0 {
        "Sales"
    } else if k == 1 {
        "User Engagement"
    } else if k == 2 {
        "Technical"
    } else {
        "Customer Support"
    }
}

fn region_name(k: usize) -> (name: &'static str)
    requires
        k < 4,
    ensures
        name@ == sample_region(k as int),
{
    if k == 0 {
        "North America"
    } else if k == 1 {
        "Europe"
    } else if k == 2 {
        "Asia"
    } else {
        "Latin America"
    }
}

fn department_name(k: usize) -> (name: &'static str)
    requires
        k < 4,
    ensures
        name@ == sample_department(k as int),
{
    if k == 0 {
        "Marketing"
    } else if k == 1 {
        "Development"
    } else if k == 2 {
        "Operations"
    } else {
        "Support"
    }
}

fn metric_name(i: usize) -> (name: &'static str)
    ensures
        name@ == sample_metric(i as int),
{
    let c = i % 4;
    let m = i % 3;
    if c == 0 {
        if m == 0 {
            "Revenue"
        } else if m == 1 {
            "Units Sold"
        } else {
            "Conversion Rate"
        }
    } else if c == 1 {
        if m == 0 {
            "Daily Active Users"
        } else if m == 1 {
            "Session Length"
        } else {
            "Retention Rate"
        }
    } else if c == 2 {
        if m == 0 {
            "Uptime"
        } else if m == 1 {
            "Response Time"
        } else {
            "Error Rate"
        }
    } else {
        if m == 0 {
            "Ticket Volume"
        } else if m == 1 {
            "Resolution Time"
        } else {
            "Satisfaction Score"
        }
    }
}

/// The range from which the amount of the sample record numbered `i` is
/// drawn: its least amount, and the bound it stays below.
pub fn sample_range(i: usize) -> (range: (i64, i64))
    ensures
        range.0 == sample_low(i as int),
        range.1 == sample_high(i as int),
        range.0 < range.1,
{
    let c = i % 4;
    let m = i % 3;
    if c == 0 {
        if m == 0 {
            (10_000_000_000, 100_000_000_000)
        } else if m == 1 {
            (100_000_000, 5_000_000_000)
        } else {
            (10_000, 500_000)
        }
    } else if c == 1 {
        if m == 0 {
            (1_000_000_000, 50_000_000_000)
        } else if m == 1 {
            (5_000_000, 60_000_000)
        } else {
            (100_000, 900_000)
        }
    } else if c == 2 {
        if m == 0 {
            (950_000, 1_000_000)
        } else if m == 1 {
            (50_000_000, 500_000_000)
        } else {
            (1_000, 100_000)
        }
    } else {
        if m == 0 {
            (10_000_000, 500_000_000)
        } else if m == 1 {
            (1_000_000, 48_000_000)
        } else {
            (3_000_000, 5_000_000)
        }
    }
}

/// The sample record numbered `i`, given what chance decides: its
/// identifier, its amount, and the month and day of its date.
pub fn sample_record(i: usize, id: String, value: i64, month: u8, day: u8) -> (r: BusinessData)
    ensures
        r.id == id,
        r.timestamp@ == date_text(month as int, day as int),
        r.category@ == sample_category(i as int),
        r.metric_name@ == sample_metric(i as int),
        r.value == value,
        r.region@ == sample_region(i as int),
        r.department@ == sample_department(i as int),
{
    let mut timestamp = String::from_str("2024-");
    push_two_digits(&mut timestamp, month);
    timestamp.append("-");
    push_two_digits(&mut timestamp, day);
    BusinessData {
        id,
        timestamp,
        category: String::from_str(category_name(i % 4)),
        metric_name: String::from_str(metric_name(i)),
        value,
        region: String::from_str(region_name(i % 4)),
        department: String::from_str(department_name(i % 4)),
    }
}

} // verus!
