use crate::text::{decimal, push_decimal};
use vstd::prelude::*;
use vstd::string::StringExecFns;

verus! {

/// A span of whole seconds as it is shown: seconds alone under a minute,
/// minutes and seconds under an hour, else hours, minutes and seconds.
pub open spec fn duration_text(total: nat) -> Seq<char> {
    let h = total / 3600;
    let m = (total % 3600) / 60;
    let s = total % 60;
    if h > 0 {
        decimal(h) + "h "@ + decimal(m) + "m "@ + decimal(s) + "s"@
    } else if m > 0 {
        decimal(m) + "m "@ + decimal(s) + "s"@
    } else {
        decimal(s) + "s"@
    }
}

/// Appends a span of `total` whole seconds to `out`, as it is shown.
pub fn push_duration(out: &mut String, total: u64)
    ensures
        final(out)@ == old(out)@ + duration_text(total as nat),
{
    let h = total / 3600;
    let m = (total % 3600) / 60;
    let s = total % 60;
    if h > 0 {
        push_decimal(out, h);
        out.append("h ");
        push_decimal(out, m);
        out.append("m ");
        push_decimal(out, s);
        out.append("s");
        assert(out@ =~= old(out)@ + duration_text(total as nat));
    } else if m > 0 {
        push_decimal(out, m);
        out.append("m ");
        push_decimal(out, s);
        out.append("s");
        assert(out@ =~= old(out)@ + duration_text(total as nat));
    } else {
        push_decimal(out, s);
        out.append("s");
        assert(out@ =~= old(out)@ + duration_text(total as nat));
    }
}

/// Writes a span of `total` whole seconds as it is shown.
pub fn format_duration(total: u64) -> (out: String)
    ensures
        out@ == duration_text(total as nat),
{
    let mut out = String::new();
    push_duration(&mut out, total);
    assert(out@ =~= duration_text(total as nat));
    out
}

/// What the timer writes when it starts.
pub open spec fn start_line() -> Seq<char> {
    "\n* pretending to thinking..."@
}

/// What the timer writes over its line each second.
pub open spec fn tick_line(elapsed: nat) -> Seq<char> {
    "\r\x1b[K* pretending to thinking... "@ + duration_text(elapsed)
}

/// What the timer writes over its line when it stops.
pub open spec fn stop_line(elapsed: nat) -> Seq<char> {
    "\r\x1b[K* Thinking... "@ + duration_text(elapsed) + "\n\n"@
}

/// What the timer writes when it starts.
pub fn timer_start() -> (line: &'static str)
    ensures
        line@ == start_line(),
{
    "\n* pretending to thinking..."
}

/// What the timer writes over its line after `elapsed` seconds.
pub fn timer_tick(elapsed: u64) -> (line: String)
    ensures
        line@ == tick_line(elapsed as nat),
{
    let mut line = String::from_str("\r\x1b[K* pretending to thinking... ");
    push_duration(&mut line, elapsed);
    line
}

/// What the timer writes over its line when it stops after `elapsed`
/// seconds.
pub fn timer_stop(elapsed: u64) -> (line: String)
    ensures
        line@ == stop_line(elapsed as nat),
{
    let mut line = String::from_str("\r\x1b[K* Thinking... ");
    push_duration(&mut line, elapsed);
    line.append("\n\n");
    line
}

} // verus!
