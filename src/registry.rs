//! The holder of the one running sidecar, and what stopping it takes.
//!
//! The registry holds at most one handle. Installing a new one hands back the
//! previous one, which the caller stops first; taking it empties the registry.
//! Callers share one registry behind a single lock.

use crate::text::{contains_text, find_text};
use vstd::prelude::*;

verus! {

/// The slot of the running sidecar's handle.
pub struct ProcessRegistry<H> {
    current: Option<H>,
}

impl<H> View for ProcessRegistry<H> {
    type V = Option<H>;

    closed spec fn view(&self) -> Option<H> {
        self.current
    }
}

impl<H> ProcessRegistry<H> {
    /// An empty registry.
    pub fn new() -> (r: ProcessRegistry<H>)
        ensures
            r@ is None,
    {
        ProcessRegistry { current: None }
    }

    /// Installs `handle`; returns the handle it replaces, which must be
    /// stopped so that only one sidecar runs.
    pub fn set(&mut self, handle: H) -> (r: Option<H>)
        ensures
            (r, final(self)@) == installed(old(self)@, handle),
    {
        let previous = self.current.take();
        self.current = Some(handle);
        previous
    }

    /// Removes and returns the handle, for teardown.
    pub fn take(&mut self) -> (r: Option<H>)
        ensures
            (r, final(self)@) == taken(old(self)@),
    {
        self.current.take()
    }

    /// Whether no sidecar is has_handle.
    pub fn is_empty(&self) -> (r: bool)
        ensures
            r == (self@ is None),
    {
        self.current.is_none()
    }
}

/// Installing `handle` in a slot holding `before`: the handle replaced, and
/// the slot after.
pub open spec fn installed<H>(before: Option<H>, handle: H) -> (Option<H>, Option<H>) {
    (before, Some(handle))
}

/// Taking from a slot holding `before`: the handle taken, and the slot after.
pub open spec fn taken<H>(before: Option<H>) -> (Option<H>, Option<H>) {
    (before, None)
}

/// Starting a sidecar and then stopping it leaves the registry empty, and
/// the stop tears down exactly the handle that the start installed.
pub proof fn law_start_then_stop_empties<H>(before: Option<H>, handle: H)
    ensures
        taken(installed(before, handle).1) == (Some(handle), None::<H>),
{
}

/// One step of stopping the sidecar.
#[derive(Clone, Copy, Debug, PartialEq, Eq, Structural)]
pub enum StopStep {
    /// Ask the has_handle process to terminate.
    Terminate,
    /// Kill the has_handle process if it is still there.
    Kill,
    /// Kill every other process running the sidecar's executable.
    KillOrphans,
}

/// The steps that stopping takes: none when nothing is has_handle, so that
/// stopping twice is harmless; otherwise a graceful termination, a forced
/// one, and the sweep for orphans.
pub fn stop_steps(has_handle: bool) -> (r: Vec<StopStep>)
    ensures
        !has_handle ==> r@.len() == 0,
        has_handle ==> r@ == seq![StopStep::Terminate, StopStep::Kill, StopStep::KillOrphans],
{
    let mut r: Vec<StopStep> = Vec::new();
    if has_handle {
        r.push(StopStep::Terminate);
        r.push(StopStep::Kill);
        r.push(StopStep::KillOrphans);
        assert(r@ =~= seq![StopStep::Terminate, StopStep::Kill, StopStep::KillOrphans]);
    }
    r
}

/// A row of the system's process table.
pub struct ProcessInfo {
    pub pid: u32,
    pub command: String,
}

/// Whether a process must be killed as an orphan: its command line names
/// the sidecar's executable and it is not this process.
pub open spec fn is_orphan(p: ProcessInfo, own_pid: u32, name: Seq<char>) -> bool {
    contains_text(p.command@, name) && p.pid != own_pid
}

/// The pids of the orphans in `table`, in table order.
pub open spec fn orphans_of(table: Seq<ProcessInfo>, own_pid: u32, name: Seq<char>) -> Seq<u32>
    decreases table.len(),
{
    if table.len() == 0 {
        Seq::empty()
    } else {
        let rest = orphans_of(table.drop_last(), own_pid, name);
        if is_orphan(table.last(), own_pid, name) {
            rest.push(table.last().pid)
        } else {
            rest
        }
    }
}

/// The pids to kill when sweeping for orphans of the sidecar named `name`.
pub fn orphan_pids(table: &Vec<ProcessInfo>, own_pid: u32, name: &str) -> (r: Vec<u32>)
    ensures
        r@ == orphans_of(table@, own_pid, name@),
{
    let mut r: Vec<u32> = Vec::new();
    let mut i: usize = 0;
    while i < table.len()
        invariant
            i <= table@.len(),
            r@ == orphans_of(table@.subrange(0, i as int), own_pid, name@),
        decreases table@.len() - i,
    {
        assert(table@.subrange(0, i + 1).drop_last() =~= table@.subrange(0, i as int));
        assert(table@.subrange(0, i + 1).last() == table@[i as int]);
        let p = &table[i];
        if p.pid != own_pid && find_text(p.command.as_str(), name) {
            r.push(p.pid);
        }
        i = i + 1;
    }
    assert(table@.subrange(0, table@.len() as int) =~= table@);
    r
}

proof fn lemma_orphans_complete(table: Seq<ProcessInfo>, own_pid: u32, name: Seq<char>)
    ensures
        forall|i: int|
            0 <= i < table.len() && is_orphan(table[i], own_pid, name) ==> orphans_of(
                table,
                own_pid,
                name,
            ).contains(#[trigger] table[i].pid),
        !orphans_of(table, own_pid, name).contains(own_pid),
    decreases table.len(),
{
    if table.len() > 0 {
        let rest_t = table.drop_last();
        lemma_orphans_complete(rest_t, own_pid, name);
        let rest = orphans_of(rest_t, own_pid, name);
        assert forall|i: int|
            0 <= i < table.len() && is_orphan(table[i], own_pid, name) implies orphans_of(
            table,
            own_pid,
            name,
        ).contains(#[trigger] table[i].pid) by {
            if i < table.len() - 1 {
                assert(rest_t[i] == table[i]);
                assert(rest.contains(rest_t[i].pid));
                let k = choose|k: int| 0 <= k < rest.len() && rest[k] == table[i].pid;
                if is_orphan(table.last(), own_pid, name) {
                    assert(rest.push(table.last().pid)[k] == table[i].pid);
                }
            } else {
                assert(rest.push(table.last().pid)[rest.len() as int] == table[i].pid);
            }
        }
        if is_orphan(table.last(), own_pid, name) {
            if rest.push(table.last().pid).contains(own_pid) {
                let k = choose|k: int|
                    0 <= k < rest.len() + 1 && rest.push(table.last().pid)[k] == own_pid;
                if k < rest.len() {
                    assert(rest[k] == own_pid);
                }
            }
        }
    }
}

/// The sweep kills every process whose command line names the sidecar,
/// except this process itself: after the sweep no such process is left.
pub proof fn law_sweep_covers_every_orphan(table: Seq<ProcessInfo>, own_pid: u32, name: Seq<char>)
    ensures
        forall|i: int|
            0 <= i < table.len() && contains_text(table[i].command@, name) && table[i].pid
                != own_pid ==> orphans_of(table, own_pid, name).contains(#[trigger] table[i].pid),
        !orphans_of(table, own_pid, name).contains(own_pid),
{
    lemma_orphans_complete(table, own_pid, name);
    assert forall|i: int|
        0 <= i < table.len() && contains_text(table[i].command@, name) && table[i].pid
            != own_pid implies orphans_of(table, own_pid, name).contains(#[trigger] table[i].pid) by {
        assert(is_orphan(table[i], own_pid, name));
    }
}

pub open spec fn is_digit(c: char) -> bool {
    '0' <= c && c <= '9'
}

/// The number that a run of decimal digits stands for.
pub open spec fn digits_value(s: Seq<char>) -> nat
    decreases s.len(),
{
    if s.len() == 0 {
        0
    } else {
        digits_value(s.drop_last()) * 10 + (s.last() as nat - '0' as nat) as nat
    }
}

/// The first position at or after `i` that does not hold `c`.
pub open spec fn skip_char(s: Seq<char>, i: int, c: char) -> int
    decreases s.len() - i,
{
    if i < 0 || i >= s.len() || s[i] != c {
        i
    } else {
        skip_char(s, i + 1, c)
    }
}

/// The first position at or after `i` that does not hold a digit.
pub open spec fn skip_digits(s: Seq<char>, i: int) -> int
    decreases s.len() - i,
{
    if i < 0 || i >= s.len() || !is_digit(s[i]) {
        i
    } else {
        skip_digits(s, i + 1)
    }
}

/// A row of `ps -eo pid=,args=`: blanks, the pid in decimal, then either
/// the end of the row or one space and the command line.
pub open spec fn row_of(line: Seq<char>) -> Option<(u32, Seq<char>)> {
    let a = skip_char(line, 0, ' ');
    let e = skip_digits(line, a);
    if e == a || digits_value(line.subrange(a, e)) > u32::MAX as nat {
        None
    } else if e == line.len() {
        Some((digits_value(line.subrange(a, e)) as u32, Seq::empty()))
    } else if line[e] == ' ' {
        Some((digits_value(line.subrange(a, e)) as u32, line.subrange(e + 1, line.len() as int)))
    } else {
        None
    }
}

proof fn lemma_skip_bounds(s: Seq<char>, i: int, c: char)
    requires
        0 <= i <= s.len(),
    ensures
        i <= skip_char(s, i, c) <= s.len(),
    decreases s.len() - i,
{
    if i < s.len() && s[i] == c {
        lemma_skip_bounds(s, i + 1, c);
    }
}

proof fn lemma_digits_bounds(s: Seq<char>, i: int)
    requires
        0 <= i <= s.len(),
    ensures
        i <= skip_digits(s, i) <= s.len(),
    decreases s.len() - i,
{
    if i < s.len() && is_digit(s[i]) {
        lemma_digits_bounds(s, i + 1);
    }
}

/// Reads one row of the process table.
pub fn parse_process_row(line: &str) -> (r: Option<ProcessInfo>)
    ensures
        match r {
            Some(p) => row_of(line@) == Some((p.pid, p.command@)),
            None => row_of(line@) is None,
        },
{
    let n = line.unicode_len();
    let mut a: usize = 0;
    while a < n && line.get_char(a) == ' '
        invariant
            n == line@.len(),
            a <= n,
            skip_char(line@, a as int, ' ') == skip_char(line@, 0, ' '),
        decreases n - a,
    {
        a = a + 1;
    }
    let mut e: usize = a;
    let mut value: u64 = 0;
    while e < n && '0' <= line.get_char(e) && line.get_char(e) <= '9'
        invariant
            n == line@.len(),
            a <= e <= n,
            a == skip_char(line@, 0, ' '),
            skip_digits(line@, e as int) == skip_digits(line@, a as int),
            value == digits_value(line@.subrange(a as int, e as int)),
            value <= u32::MAX,
        decreases n - e,
    {
        let c = line.get_char(e);
        let d = (c as u32 - '0' as u32) as u64;
        assert(line@.subrange(a as int, e + 1).drop_last() =~= line@.subrange(a as int, e as int));
        let next = value * 10 + d;
        if next > u32::MAX as u64 {
            proof {
                lemma_digits_bounds(line@, e + 1);
                lemma_digit_run(line@, a as int);
                lemma_value_grows(line@, a as int, e + 1, skip_digits(line@, a as int));
            }
            return None;
        }
        value = next;
        e = e + 1;
    }
    if e == a {
        return None;
    }
    if e == n {
        return Some(ProcessInfo { pid: value as u32, command: String::new() });
    }
    if line.get_char(e) != ' ' {
        return None;
    }
    let command = line.substring_char(e + 1, n).to_string();
    Some(ProcessInfo { pid: value as u32, command })
}

proof fn lemma_digit_run(s: Seq<char>, i: int)
    requires
        0 <= i <= s.len(),
    ensures
        forall|k: int| i <= k < skip_digits(s, i) ==> is_digit(#[trigger] s[k]),
    decreases s.len() - i,
{
    if i < s.len() && is_digit(s[i]) {
        lemma_digit_run(s, i + 1);
    }
}

proof fn lemma_value_grows(s: Seq<char>, a: int, i: int, j: int)
    requires
        0 <= a <= i <= j <= s.len(),
        forall|k: int| a <= k < j ==> is_digit(#[trigger] s[k]),
    ensures
        digits_value(s.subrange(a, i)) <= digits_value(s.subrange(a, j)),
    decreases j - i,
{
    if i < j {
        lemma_value_grows(s, a, i, j - 1);
        assert(s.subrange(a, j).drop_last() =~= s.subrange(a, j - 1));
    }
}

} // verus!
