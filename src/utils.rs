//! Text helpers of the chat front end: dates and durations.
use vstd::prelude::*;
use crate::text::{i64_text, signed_decimal};

verus! {

/// The text `DD.MM.YYYY HH:MM` (UTC) of the instant `ts` seconds after the
/// Unix epoch; `None` where the instant is out of the calendar's range.
pub uninterp spec fn date_text(ts: int) -> Option<Seq<char>>;

/// Relies on chrono's `DateTime::from_timestamp` and `format` with
/// `%d.%m.%Y %H:%M`: the rendering depends on `ts` alone.
#[verifier::external_body]
fn chrono_date_text(ts: i64) -> (r: Option<String>)
    ensures
        r matches Some(s) ==> date_text(ts as int) == Some(s@),
        r is None ==> date_text(ts as int) is None,
{
    chrono::DateTime::from_timestamp(ts, 0).map(|d| d.format("%d.%m.%Y %H:%M").to_string())
}

/// Renders the instant `ts` (seconds since the Unix epoch) as
/// `DD.MM.YYYY HH:MM` in UTC; `None` where chrono's calendar ends.
pub fn format_date(ts: i64) -> (r: Option<String>)
    ensures
        r matches Some(s) ==> date_text(ts as int) == Some(s@),
        r is None ==> date_text(ts as int) is None,
{
    chrono_date_text(ts)
}

/// Division rounding toward zero.
pub open spec fn div_trunc(x: int, y: int) -> int {
    if x >= 0 { x / y } else { -((-x) / y) }
}

/// The remainder of `div_trunc`; it takes the sign of `x`.
pub open spec fn rem_trunc(x: int, y: int) -> int {
    x - y * div_trunc(x, y)
}

/// `Nd Nh Nm`: whole days, then the hours and minutes left over.
pub open spec fn duration_text(secs: int) -> Seq<char> {
    signed_decimal(div_trunc(secs, 86400)) + "d "@ + signed_decimal(rem_trunc(div_trunc(secs, 3600), 24)) + "h "@
        + signed_decimal(rem_trunc(div_trunc(secs, 60), 60)) + "m"@
}

/// Renders a span of `secs` seconds as `Nd Nh Nm`; the parts of a negative
/// span are negative.
pub fn format_duration(secs: i64) -> (r: String)
    ensures
        r@ == duration_text(secs as int),
{
    let neg = secs < 0;
    let a: u64 = if neg { (0i128 - secs as i128) as u64 } else { secs as u64 };
    let days = (a / 86400) as i64;
    let hours = ((a / 3600) % 24) as i64;
    let minutes = ((a / 60) % 60) as i64;
    let (d, h, m) = if neg { (-days, -hours, -minutes) } else { (days, hours, minutes) };
    proof {
        let x = secs as int;
        if neg {
            assert(div_trunc(x, 86400) == -((a as int) / 86400));
            assert(div_trunc(x, 3600) == -((a as int) / 3600));
            assert(rem_trunc(div_trunc(x, 3600), 24) == -(((a as int) / 3600) % 24)) by (nonlinear_arith)
                requires
                    div_trunc(x, 3600) == -((a as int) / 3600),
                    (a as int) / 3600 >= 0,
            {
            }
            assert(rem_trunc(div_trunc(x, 60), 60) == -(((a as int) / 60) % 60)) by (nonlinear_arith)
                requires
                    div_trunc(x, 60) == -((a as int) / 60),
                    (a as int) / 60 >= 0,
            {
            }
        }
    }
    let mut s = i64_text(d);
    s.append("d ");
    s.append(i64_text(h).as_str());
    s.append("h ");
    s.append(i64_text(m).as_str());
    s.append("m");
    s
}

} // verus!
