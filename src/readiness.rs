//! Detection of the sidecar's readiness line on its standard output.
//!
//! Once it accepts connections the sidecar prints a line that holds a fixed
//! prefix immediately followed by the decimal port it bound.

use crate::text::{contains_text, find_text};
use vstd::prelude::*;

verus! {

/// The characters of a decimal digit.
pub open spec fn digit_char(d: nat) -> char {
    if d == 0 {
        '0'
    } else if d == 1 {
        '1'
    } else if d == 2 {
        '2'
    } else if d == 3 {
        '3'
    } else if d == 4 {
        '4'
    } else if d == 5 {
        '5'
    } else if d == 6 {
        '6'
    } else if d == 7 {
        '7'
    } else if d == 8 {
        '8'
    } else {
        '9'
    }
}

/// The decimal text of `n`, without leading zeros.
pub open spec fn decimal(n: nat) -> Seq<char>
    decreases n,
{
    if n < 10 {
        seq![digit_char(n)]
    } else {
        decimal(n / 10).push(digit_char(n % 10))
    }
}

fn digit_text(d: u64) -> (r: &'static str)
    requires
        d < 10,
    ensures
        r@ == seq![digit_char(d as nat)],
{
    proof {
        reveal_strlit("0");
        reveal_strlit("1");
        reveal_strlit("2");
        reveal_strlit("3");
        reveal_strlit("4");
        reveal_strlit("5");
        reveal_strlit("6");
        reveal_strlit("7");
        reveal_strlit("8");
        reveal_strlit("9");
    }
    let r = if d == 0 {
        "0"
    } else if d == 1 {
        "1"
    } else if d == 2 {
        "2"
    } else if d == 3 {
        "3"
    } else if d == 4 {
        "4"
    } else if d == 5 {
        "5"
    } else if d == 6 {
        "6"
    } else if d == 7 {
        "7"
    } else if d == 8 {
        "8"
    } else {
        "9"
    };
    assert(r@ =~= seq![digit_char(d as nat)]);
    r
}

/// Appends the decimal text of `n` to `out`.
pub fn push_decimal(out: &mut String, n: u64)
    ensures
        final(out)@ == old(out)@ + decimal(n as nat),
    decreases n,
{
    if n >= 10 {
        push_decimal(out, n / 10);
    }
    out.append(digit_text(n % 10));
    proof {
        if n >= 10 {
            assert(old(out)@ + decimal((n / 10) as nat) + seq![digit_char((n % 10) as nat)]
                =~= old(out)@ + decimal(n as nat));
        } else {
            assert(old(out)@ + seq![digit_char((n % 10) as nat)] =~= old(out)@ + decimal(
                n as nat,
            ));
        }
    }
}

/// The decimal text of a port number.
pub fn port_text(port: u16) -> (r: String)
    ensures
        r@ == decimal(port as nat),
{
    let mut out = String::new();
    push_decimal(&mut out, port as u64);
    assert(Seq::<char>::empty() + decimal(port as nat) =~= decimal(port as nat));
    out
}

/// The text that precedes the port in the readiness line.
pub open spec fn ready_prefix() -> Seq<char> {
    "Host server is ready on port "@
}

/// The readiness marker for `port`: the prefix followed by the port's digits.
pub open spec fn marker(port: u16) -> Seq<char> {
    ready_prefix() + decimal(port as nat)
}

/// The readiness marker for `port`.
pub fn readiness_marker(port: u16) -> (r: String)
    ensures
        r@ == marker(port),
{
    let mut out = "Host server is ready on port ".to_string();
    push_decimal(&mut out, port as u64);
    out
}

/// Whether a line of the sidecar's output announces readiness on `port`.
pub fn is_ready_line(line: &str, port: u16) -> (r: bool)
    ensures
        r == contains_text(line@, marker(port)),
{
    let m = readiness_marker(port);
    find_text(line, m.as_str())
}

/// What to do with one line of the sidecar's standard output.
#[derive(Clone, Copy, Debug, PartialEq, Eq, Structural)]
pub enum LineOutcome {
    /// The first readiness line: announce that the sidecar listens on the port.
    Publish(u16),
    /// Any other line: log it only.
    LogOnly,
}

/// Watches the sidecar's standard output for its readiness line; the port is
/// announced once, later matching lines are only logged.
pub struct ReadinessWatcher {
    port: u16,
    ready: bool,
}

impl ReadinessWatcher {
    pub closed spec fn port_spec(&self) -> u16 {
        self.port
    }

    pub closed spec fn is_ready_spec(&self) -> bool {
        self.ready
    }

    /// A watcher for a sidecar that was told to bind `port`.
    pub fn new(port: u16) -> (r: ReadinessWatcher)
        ensures
            r.port_spec() == port,
            !r.is_ready_spec(),
    {
        ReadinessWatcher { port, ready: false }
    }

    /// The port the sidecar was told to bind.
    pub fn port(&self) -> (r: u16)
        ensures
            r == self.port_spec(),
    {
        self.port
    }

    /// Whether the readiness line has been seen.
    pub fn is_ready(&self) -> (r: bool)
        ensures
            r == self.is_ready_spec(),
    {
        self.ready
    }

    /// Handles one line of standard output.
    pub fn on_line(&mut self, line: &str) -> (r: LineOutcome)
        ensures
            final(self).port_spec() == old(self).port_spec(),
            final(self).is_ready_spec() == (old(self).is_ready_spec() || contains_text(
                line@,
                marker(old(self).port_spec()),
            )),
            r == (if !old(self).is_ready_spec() && contains_text(
                line@,
                marker(old(self).port_spec()),
            ) {
                LineOutcome::Publish(old(self).port_spec())
            } else {
                LineOutcome::LogOnly
            }),
    {
        if is_ready_line(line, self.port) {
            if self.ready {
                LineOutcome::LogOnly
            } else {
                self.ready = true;
                LineOutcome::Publish(self.port)
            }
        } else {
            LineOutcome::LogOnly
        }
    }
}

} // verus!
