//! Choice of the port that the sidecar binds.

use crate::launch::{find_line_end, lemma_line_end_bounds, line_end};
use crate::readiness::{decimal, push_decimal};
use vstd::prelude::*;

verus! {

/// The fixed port used in development mode, so that tooling can rely on it.
pub const DEV_PORT: u16 = 6888;

/// Why no port could be chosen.
#[derive(Clone, Copy, Debug, PartialEq, Eq, Structural)]
pub enum PortError {
    /// The system supplied no ephemeral port.
    Exhausted,
}

/// Chooses the sidecar's port. In development mode it is always `DEV_PORT`;
/// otherwise it is the ephemeral port that the system assigned to a loopback
/// socket (`ephemeral`), and there is none when the system gave none.
pub fn choose_port(dev_mode: bool, ephemeral: Option<u16>) -> (r: Result<u16, PortError>)
    ensures
        dev_mode ==> r == Ok::<u16, PortError>(DEV_PORT),
        !dev_mode ==> r == (match ephemeral {
            Some(p) => Ok::<u16, PortError>(p),
            None => Err(PortError::Exhausted),
        }),
{
    if dev_mode {
        Ok(DEV_PORT)
    } else {
        match ephemeral {
            Some(p) => Ok(p),
            None => Err(PortError::Exhausted),
        }
    }
}

/// The argument that asks `lsof` for the processes listening on `port`.
pub fn lsof_port_arg(port: u16) -> (r: String)
    ensures
        r@ == ":"@ + decimal(port as nat),
{
    let mut r = ":".to_string();
    push_decimal(&mut r, port as u64);
    r
}

pub open spec fn is_blank(c: char) -> bool {
    c == ' ' || c == '\t' || c == '\r'
}

/// The text without blanks at either end.
pub open spec fn trimmed(s: Seq<char>) -> Seq<char>
    decreases s.len(),
{
    if s.len() == 0 {
        s
    } else if is_blank(s[0]) {
        trimmed(s.skip(1))
    } else if is_blank(s.last()) {
        trimmed(s.drop_last())
    } else {
        s
    }
}

/// The non-blank lines of a listing from `start` on, trimmed.
pub open spec fn pids_from(s: Seq<char>, start: int) -> Seq<Seq<char>>
    decreases s.len() - start,
{
    if start < 0 || start >= s.len() {
        Seq::empty()
    } else {
        let end = line_end(s, start);
        let line = trimmed(s.subrange(start, end));
        let rest = pids_from(
            s,
            if start <= end && end < s.len() {
                end + 1
            } else {
                s.len() as int
            },
        );
        if line.len() > 0 {
            seq![line] + rest
        } else {
            rest
        }
    }
}

fn trim_text(s: &str) -> (r: String)
    ensures
        r@ == trimmed(s@),
{
    let n = s.unicode_len();
    let mut a: usize = 0;
    let mut b: usize = n;
    assert(s@.subrange(0, n as int) =~= s@);
    while a < b && (is_blank_char(s.get_char(a)) || is_blank_char(s.get_char(b - 1)))
        invariant
            n == s@.len(),
            a <= b <= n,
            trimmed(s@.subrange(a as int, b as int)) == trimmed(s@),
        decreases b - a,
    {
        let ghost cur = s@.subrange(a as int, b as int);
        if is_blank_char(s.get_char(a)) {
            assert(cur.skip(1) =~= s@.subrange(a + 1, b as int));
            a = a + 1;
        } else {
            assert(cur.drop_last() =~= s@.subrange(a as int, b - 1));
            b = b - 1;
        }
    }
    let ghost cur = s@.subrange(a as int, b as int);
    assert(cur.len() == 0 || (!is_blank(cur[0]) && !is_blank(cur.last())));
    s.substring_char(a, b).to_string()
}

fn is_blank_char(c: char) -> (r: bool)
    ensures
        r == is_blank(c),
{
    c == ' ' || c == '\t' || c == '\r'
}

/// The pids in the output of `lsof -t`: its non-blank lines, trimmed.
pub fn pids_in_listing(listing: &str) -> (r: Vec<String>)
    ensures
        r@.map_values(|p: String| p@) == pids_from(listing@, 0),
{
    let n = listing.unicode_len();
    let mut r: Vec<String> = Vec::new();
    let mut start: usize = 0;
    while start < n
        invariant
            n == listing@.len(),
            start <= n,
            r@.map_values(|p: String| p@) + pids_from(listing@, start as int) == pids_from(
                listing@,
                0,
            ),
        decreases n - start,
    {
        let end = find_line_end(listing, start, n);
        proof {
            lemma_line_end_bounds(listing@, start as int);
        }
        let pid = trim_text(listing.substring_char(start, end));
        let ghost before = r@.map_values(|p: String| p@);
        let ghost rest = pids_from(listing@, if end < n { end + 1 } else { n as int });
        if pid.unicode_len() > 0 {
            r.push(pid);
            assert(r@.map_values(|p: String| p@) =~= before.push(pid@));
            assert(before.push(pid@) + rest =~= before + (seq![pid@] + rest));
        }
        if end >= n {
            assert(pids_from(listing@, n as int) =~= Seq::<Seq<char>>::empty());
            assert(r@.map_values(|p: String| p@) + Seq::<Seq<char>>::empty() =~= r@.map_values(
                |p: String| p@,
            ));
            return r;
        }
        start = end + 1;
    }
    assert(r@.map_values(|p: String| p@) + Seq::<Seq<char>>::empty() =~= r@.map_values(
        |p: String| p@,
    ));
    r
}

} // verus!
