use vstd::prelude::*;

verus! {

/// The decimal digit character for `d`.
pub open spec fn dec_digit(d: int) -> char {
    if d == 0 {
        '0'
    } else if d == 1 {
        '1'
    } else if d == 2 {
        '2'
    } else if d == 3 {
        '3'
    } else if d == 4 {
        '4'
    } else if d == 5 {
        '5'
    } else if d == 6 {
        '6'
    } else if d == 7 {
        '7'
    } else if d == 8 {
        '8'
    } else {
        '9'
    }
}

/// The decimal representation of `n`, most significant digit first, no
/// leading zeros (a single `'0'` for zero).
pub open spec fn dec_str(n: nat) -> Seq<char>
    decreases n,
{
    if n < 10 {
        seq![dec_digit(n as int)]
    } else {
        dec_str(n / 10) + seq![dec_digit((n % 10) as int)]
    }
}

/// The one-character string for a single decimal digit.
fn digit_str(d: u64) -> (r: &'static str)
    requires
        d < 10,
    ensures
        r@ =~= seq![dec_digit(d as int)],
{
    proof {
        reveal_strlit("0");
        reveal_strlit("1");
        reveal_strlit("2");
        reveal_strlit("3");
        reveal_strlit("4");
        reveal_strlit("5");
        reveal_strlit("6");
        reveal_strlit("7");
        reveal_strlit("8");
        reveal_strlit("9");
    }
    match d {
        0 => "0",
        1 => "1",
        2 => "2",
        3 => "3",
        4 => "4",
        5 => "5",
        6 => "6",
        7 => "7",
        8 => "8",
        _ => "9",
    }
}

/// Writes `n` in decimal.
pub fn u64_to_dec(n: u64) -> (r: String)
    ensures
        r@ == dec_str(n as nat),
    decreases n,
{
    if n < 10 {
        String::from_str(digit_str(n))
    } else {
        let mut s = u64_to_dec(n / 10);
        s.append(digit_str(n % 10));
        proof {
            assert(s@ =~= dec_str(n as nat));
        }
        s
    }
}

pub const SECONDS_IN_MINUTE: u64 = 60;

pub const SECONDS_IN_HOUR: u64 = 3600;

pub const SECONDS_IN_DAY: u64 = 86400;

pub const SECONDS_IN_WEEK: u64 = 604800;

/// The ISO-8601-style rendering of a duration of `secs` seconds: `"P"` for
/// zero; otherwise whole weeks and days, a `"T"` separator only when a date
/// part was written and time remains, then whole hours, minutes and leftover
/// seconds, each written only when at least one unit remains. A duration
/// under a minute with no date part reads e.g. `"P45S"` with no `"T"`.
pub open spec fn iso8601(secs: nat) -> Seq<char> {
    if secs == 0 {
        "P"@
    } else {
        let weeks = secs / (SECONDS_IN_WEEK as nat);
        let rem_days = secs % (SECONDS_IN_WEEK as nat);
        let days = rem_days / (SECONDS_IN_DAY as nat);
        let rem_time = rem_days % (SECONDS_IN_DAY as nat);
        let hours = rem_time / (SECONDS_IN_HOUR as nat);
        let rem_min = rem_time % (SECONDS_IN_HOUR as nat);
        let minutes = rem_min / (SECONDS_IN_MINUTE as nat);
        let rem_sec = rem_min % (SECONDS_IN_MINUTE as nat);
        "P"@ + (if weeks >= 1 {
            dec_str(weeks) + "W"@
        } else {
            Seq::<char>::empty()
        }) + (if days >= 1 {
            dec_str(days) + "D"@
        } else {
            Seq::<char>::empty()
        }) + (if (weeks >= 1 || days >= 1) && rem_time > 0 {
            "T"@
        } else {
            Seq::<char>::empty()
        }) + (if hours >= 1 {
            dec_str(hours) + "H"@
        } else {
            Seq::<char>::empty()
        }) + (if minutes >= 1 {
            dec_str(minutes) + "M"@
        } else {
            Seq::<char>::empty()
        }) + (if rem_sec > 0 {
            dec_str(rem_sec) + "S"@
        } else {
            Seq::<char>::empty()
        })
    }
}

/// Renders `secs` seconds as an ISO-8601-style duration, exactly as
/// `iso8601` describes.
#[verifier::rlimit(40)]
pub fn duration_iso8601(secs: u64) -> (r: String)
    ensures
        r@ == iso8601(secs as nat),
{
    if secs == 0 {
        return String::from_str("P");
    }
    let ghost total = secs as nat;
    let ghost spec_weeks = total / (SECONDS_IN_WEEK as nat);
    let ghost rem_days = total % (SECONDS_IN_WEEK as nat);
    let ghost spec_days = rem_days / (SECONDS_IN_DAY as nat);
    let ghost rem_time = rem_days % (SECONDS_IN_DAY as nat);
    let ghost spec_hours = rem_time / (SECONDS_IN_HOUR as nat);
    let ghost rem_min = rem_time % (SECONDS_IN_HOUR as nat);
    let ghost spec_minutes = rem_min / (SECONDS_IN_MINUTE as nat);
    let ghost rem_sec = rem_min % (SECONDS_IN_MINUTE as nat);
    let ghost part_w: Seq<char> = if spec_weeks >= 1 {
        dec_str(spec_weeks) + "W"@
    } else {
        Seq::<char>::empty()
    };
    let ghost part_d: Seq<char> = if spec_days >= 1 {
        dec_str(spec_days) + "D"@
    } else {
        Seq::<char>::empty()
    };
    let ghost part_t: Seq<char> = if (spec_weeks >= 1 || spec_days >= 1) && rem_time > 0 {
        "T"@
    } else {
        Seq::<char>::empty()
    };
    let ghost part_h: Seq<char> = if spec_hours >= 1 {
        dec_str(spec_hours) + "H"@
    } else {
        Seq::<char>::empty()
    };
    let ghost part_m: Seq<char> = if spec_minutes >= 1 {
        dec_str(spec_minutes) + "M"@
    } else {
        Seq::<char>::empty()
    };
    let ghost part_s: Seq<char> = if rem_sec > 0 {
        dec_str(rem_sec) + "S"@
    } else {
        Seq::<char>::empty()
    };

    let mut out = String::from_str("P");
    let mut seconds: u64 = secs;
    let mut date_part = false;
    if seconds >= SECONDS_IN_WEEK {
        let weeks = seconds / SECONDS_IN_WEEK;
        out.append(u64_to_dec(weeks).as_str());
        out.append("W");
        seconds = seconds - weeks * SECONDS_IN_WEEK;
        date_part = true;
    }
    assert(seconds == rem_days);
    assert(date_part == (spec_weeks >= 1));
    assert(out@ =~= "P"@ + part_w);
    if seconds >= SECONDS_IN_DAY {
        let days = seconds / SECONDS_IN_DAY;
        out.append(u64_to_dec(days).as_str());
        out.append("D");
        seconds = seconds - days * SECONDS_IN_DAY;
        date_part = true;
    }
    assert(seconds == rem_time);
    assert(date_part == (spec_weeks >= 1 || spec_days >= 1));
    assert(out@ =~= "P"@ + part_w + part_d);
    if date_part && seconds > 0 {
        out.append("T");
    }
    assert(out@ =~= "P"@ + part_w + part_d + part_t);
    if seconds >= SECONDS_IN_HOUR {
        let hours = seconds / SECONDS_IN_HOUR;
        out.append(u64_to_dec(hours).as_str());
        out.append("H");
        seconds = seconds - hours * SECONDS_IN_HOUR;
    }
    assert(seconds == rem_min);
    assert(out@ =~= "P"@ + part_w + part_d + part_t + part_h);
    if seconds >= SECONDS_IN_MINUTE {
        let minutes = seconds / SECONDS_IN_MINUTE;
        out.append(u64_to_dec(minutes).as_str());
        out.append("M");
        seconds = seconds - minutes * SECONDS_IN_MINUTE;
    }
    assert(seconds == rem_sec);
    assert(out@ =~= "P"@ + part_w + part_d + part_t + part_h + part_m);
    if seconds > 0 {
        out.append(u64_to_dec(seconds).as_str());
        out.append("S");
    }
    assert(out@ =~= "P"@ + part_w + part_d + part_t + part_h + part_m + part_s);
    assert(out@ == iso8601(total));
    out
}

/// What `humantime` renders a duration of a given number of seconds as.
pub uninterp spec fn human_duration_of(secs: nat) -> Seq<char>;

/// Relies on humantime::format_duration: the compact human-readable text
/// depends on the duration alone.
#[verifier::external_body]
pub(crate) fn duration_human(secs: u64) -> (r: String)
    ensures
        r@ == human_duration_of(secs as nat),
{
    humantime::format_duration(std::time::Duration::from_secs(secs)).to_string()
}

} // verus!
