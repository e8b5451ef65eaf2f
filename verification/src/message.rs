//! The texts that the hub produces: broadcast payloads and console lines.

use vstd::prelude::*;

verus! {

/// The decimal digit `d`, as text; `"9"` for anything above.
pub open spec fn digit(d: nat) -> Seq<char> {
    if d == 0 {
        "0"@
    } else if d == 1 {
        "1"@
    } else if d == 2 {
        "2"@
    } else if d == 3 {
        "3"@
    } else if d == 4 {
        "4"@
    } else if d == 5 {
        "5"@
    } else if d == 6 {
        "6"@
    } else if d == 7 {
        "7"@
    } else if d == 8 {
        "8"@
    } else {
        "9"@
    }
}

/// `n` in decimal, most significant digit first, without leading zeros.
pub open spec fn decimal(n: nat) -> Seq<char>
    decreases n,
{
    if n < 10 {
        digit(n)
    } else {
        decimal(n / 10) + digit(n % 10)
    }
}

/// The control message that starts the run.
pub open spec fn ready_text() -> Seq<char> {
    "ready"@
}

/// A client's text as it is rebroadcast: `<name>: <text>`.
pub open spec fn relay_text(name: Seq<char>, text: Seq<char>) -> Seq<char> {
    name + ": "@ + text
}

/// The console line for a connect: `<name> connected (<remaining> remain)`.
pub open spec fn connected_line(name: Seq<char>, remaining: nat) -> Seq<char> {
    name + " connected ("@ + decimal(remaining) + " remain)"@
}

/// The first console line when the quorum is reached.
pub open spec fn quorum_line() -> Seq<char> {
    "All clients connected"@
}

/// The second console line when the quorum is reached.
pub open spec fn start_line() -> Seq<char> {
    "Starting benchmark by sending 'ready' message"@
}

fn digit_str(d: usize) -> (s: &'static str)
    requires
        d < 10,
    ensures
        s@ == digit(d as nat),
{
    if d == 0 {
        "0"
    } else if d == 1 {
        "1"
    } else if d == 2 {
        "2"
    } else if d == 3 {
        "3"
    } else if d == 4 {
        "4"
    } else if d == 5 {
        "5"
    } else if d == 6 {
        "6"
    } else if d == 7 {
        "7"
    } else if d == 8 {
        "8"
    } else {
        "9"
    }
}

/// Writes `n` in decimal.
pub fn format_decimal(n: usize) -> (out: String)
    ensures
        out@ == decimal(n as nat),
    decreases n,
{
    if n < 10 {
        String::from_str(digit_str(n))
    } else {
        let mut out: String = format_decimal(n / 10);
        out.append(digit_str(n % 10));
        out
    }
}

/// Builds the control message that starts the run.
pub fn format_ready() -> (out: String)
    ensures
        out@ == ready_text(),
{
    String::from_str("ready")
}

/// Builds the rebroadcast form of `text` sent by the client called `name`.
/// `text` is taken as it is: nothing is escaped, trimmed or cut.
pub fn format_relay(name: &str, text: &str) -> (out: String)
    ensures
        out@ == relay_text(name@, text@),
{
    let mut out: String = String::from_str(name);
    out.append(": ");
    out.append(text);
    out
}

/// Builds the console line for the connect of `name` that leaves
/// `remaining` places until the quorum.
pub fn format_connected(name: &str, remaining: usize) -> (out: String)
    ensures
        out@ == connected_line(name@, remaining as nat),
{
    let count: String = format_decimal(remaining);
    let mut out: String = String::from_str(name);
    out.append(" connected (");
    out.append(count.as_str());
    out.append(" remain)");
    out
}

/// Builds the first console line for the quorum.
pub fn format_quorum() -> (out: String)
    ensures
        out@ == quorum_line(),
{
    String::from_str("All clients connected")
}

/// Builds the second console line for the quorum.
pub fn format_start() -> (out: String)
    ensures
        out@ == start_line(),
{
    String::from_str("Starting benchmark by sending 'ready' message")
}

} // verus!
