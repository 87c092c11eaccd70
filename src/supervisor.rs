//! Decisions of the process supervisors: reading the PID file, waiting for
//! a stopped process to exit, and the write, test, restart and roll-back
//! sequence that applies an Apache configuration.
use vstd::prelude::*;

use crate::text::{all_digits, chars_of, digits_value, parse_digits_upto, range_all_digits, trim, trim_range};

verus! {

/// The process id in a PID file: the trimmed text is a run of decimal
/// digits whose value is a positive `i32`. Signs, zero and anything else
/// give none, so that no signal is ever sent to a process group.
pub open spec fn pid_value(s: Seq<char>) -> Option<i32> {
    let t = trim(s);
    if t.len() > 0 && all_digits(t) && 1 <= digits_value(t) <= 2147483647 {
        Some(digits_value(t) as i32)
    } else {
        None
    }
}

/// The process id that a PID file holds.
pub fn parse_pid(s: &str) -> (r: Option<i32>)
    ensures
        r == pid_value(s@),
        r matches Some(p) ==> p > 0,
{
    let v = chars_of(s);
    let (a, b) = trim_range(&v, 0, v.len());
    assert(v@.subrange(0, v@.len() as int) =~= v@);
    if !range_all_digits(&v, a, b) {
        return None;
    }
    match parse_digits_upto(&v, a, b, 2147483647) {
        Some(n) => {
            if n == 0 {
                None
            } else {
                Some(n as i32)
            }
        },
        None => None,
    }
}

/// The process to probe for "is the proxy running": the id in the PID file,
/// when the file exists and holds one.
pub open spec fn recorded_pid(pid_file: Option<Seq<char>>) -> Option<i32> {
    match pid_file {
        Some(t) => pid_value(t),
        None => None,
    }
}

/// See `recorded_pid`; `None` for `pid_file` means the file is absent.
pub fn running_pid(pid_file: Option<&str>) -> (r: Option<i32>)
    ensures
        r == recorded_pid(match pid_file {
            Some(t) => Some(t@),
            None => None::<Seq<char>>,
        }),
{
    match pid_file {
        Some(t) => parse_pid(t),
        None => None,
    }
}

/// Stopping ends by removing the PID file; from then on there is no
/// process to probe, so the proxy counts as stopped at once.
pub proof fn lemma_stopped_once_pid_file_removed()
    ensures
        recorded_pid(None) is None,
{
}

/// Polls of the proxy after it was told to stop.
pub const CADDY_STOP_POLLS: u32 = 20;

/// Polls of a tunnel agent after it was told to stop.
pub const TUNNEL_STOP_POLLS: u32 = 12;

/// Pause between two polls of a stopping process, in milliseconds.
pub const STOP_POLL_INTERVAL_MS: u64 = 250;

/// Waiting for a terminated process to exit: at most `max_polls` polls,
/// each after one pause.
pub struct ExitWait {
    pub polls_done: u32,
    pub max_polls: u32,
}

impl ExitWait {
    pub fn new(max_polls: u32) -> (r: Self)
        ensures
            r.polls_done == 0,
            r.max_polls == max_polls,
    {
        ExitWait { polls_done: 0, max_polls }
    }

    /// Records one poll that found the process alive or not; `true` means
    /// pause and poll again.
    pub fn after_poll(&mut self, alive: bool) -> (r: bool)
        requires
            old(self).polls_done < old(self).max_polls,
        ensures
            final(self).max_polls == old(self).max_polls,
            final(self).polls_done == old(self).polls_done + 1,
            r == (alive && final(self).polls_done < final(self).max_polls),
    {
        self.polls_done = self.polls_done + 1;
        alive && self.polls_done < self.max_polls
    }
}

/// `after_poll` asks for another pause only while fewer than `max_polls`
/// polls were made, and each poll follows one pause; so a wait with
/// `CADDY_STOP_POLLS` polls pauses at most 5000 ms in all, however the
/// liveness answers fall, before the PID file is removed.
pub proof fn lemma_stop_wait_bounded(pauses: nat)
    requires
        pauses <= CADDY_STOP_POLLS,
    ensures
        pauses * (STOP_POLL_INTERVAL_MS as nat) <= 5000,
{
    assert(pauses * 250 <= 20 * 250) by (nonlinear_arith)
        requires
            pauses <= 20,
    ;
}

/// A step of applying an Apache configuration.
#[derive(Debug, Clone, Copy, PartialEq, Eq, Structural)]
pub enum ApplyStep {
    /// Back up, then write the new `httpd-vhosts.conf`.
    Write,
    /// `httpd -t`.
    Test,
    /// Restart Apache.
    Restart,
}

/// What follows a step.
#[derive(Debug, Clone, Copy, PartialEq, Eq, Structural)]
pub enum ApplyDecision {
    Next(ApplyStep),
    Success,
    /// Fail the request, restoring the backup first when `rollback` holds.
    Fail { rollback: bool },
}

pub open spec fn apply_next(step: ApplyStep, ok: bool) -> ApplyDecision {
    match step {
        ApplyStep::Write => if ok {
            ApplyDecision::Next(ApplyStep::Test)
        } else {
            ApplyDecision::Fail { rollback: false }
        },
        ApplyStep::Test => if ok {
            ApplyDecision::Next(ApplyStep::Restart)
        } else {
            ApplyDecision::Fail { rollback: true }
        },
        ApplyStep::Restart => if ok {
            ApplyDecision::Success
        } else {
            ApplyDecision::Fail { rollback: true }
        },
    }
}

/// The decision after `step` succeeded (`ok`) or failed.
pub fn after_step(step: ApplyStep, ok: bool) -> (r: ApplyDecision)
    ensures
        r == apply_next(step, ok),
{
    match step {
        ApplyStep::Write => if ok {
            ApplyDecision::Next(ApplyStep::Test)
        } else {
            ApplyDecision::Fail { rollback: false }
        },
        ApplyStep::Test => if ok {
            ApplyDecision::Next(ApplyStep::Restart)
        } else {
            ApplyDecision::Fail { rollback: true }
        },
        ApplyStep::Restart => if ok {
            ApplyDecision::Success
        } else {
            ApplyDecision::Fail { rollback: true }
        },
    }
}

/// The configuration file after the whole sequence, from its text before
/// (`before`, which the write step also saves as the backup), the text
/// written, and the outcomes of the test and the restart.
pub open spec fn applied_file(
    before: Seq<char>,
    written: Seq<char>,
    test_ok: bool,
    restart_ok: bool,
) -> Seq<char> {
    let backup = before;
    let after_write = written;
    match apply_next(ApplyStep::Test, test_ok) {
        ApplyDecision::Fail { rollback } => if rollback {
            backup
        } else {
            after_write
        },
        _ => match apply_next(ApplyStep::Restart, restart_ok) {
            ApplyDecision::Fail { rollback } => if rollback {
                backup
            } else {
                after_write
            },
            _ => after_write,
        },
    }
}

/// When the configuration test fails, the file ends as it was before the call.
pub proof fn lemma_failed_test_restores_file(before: Seq<char>, written: Seq<char>, restart_ok: bool)
    ensures
        applied_file(before, written, false, restart_ok) == before,
{
}

/// The error message for a failed step.
pub fn apply_failure_message(step: ApplyStep, detail: &str) -> (r: String)
    ensures
        r@ == (match step {
            ApplyStep::Test => "Apache config test failed: "@,
            ApplyStep::Restart => "Apache restart failed: "@,
            ApplyStep::Write => seq![],
        }) + detail@,
{
    let mut m = match step {
        ApplyStep::Test => String::from_str("Apache config test failed: "),
        ApplyStep::Restart => String::from_str("Apache restart failed: "),
        ApplyStep::Write => String::new(),
    };
    m.append(detail);
    m
}

/// The last `limit` items, newest (last) first.
pub open spec fn newest_first_view<T>(s: Seq<T>, limit: nat) -> Seq<T> {
    let start = if s.len() > limit {
        s.len() - limit
    } else {
        0
    };
    s.skip(start as int).reverse()
}

/// The last `limit` entries of a log, newest first.
pub fn newest_first<T>(entries: Vec<T>, limit: u64) -> (r: Vec<T>)
    ensures
        r@ == newest_first_view(entries@, limit as nat),
{
    let mut entries = entries;
    let ghost all = entries@;
    let mut out: Vec<T> = Vec::new();
    let keep: usize = if (entries.len() as u64) > limit {
        limit as usize
    } else {
        entries.len()
    };
    let start = entries.len() - keep;
    while entries.len() > start
        invariant
            start <= entries.len() <= all.len(),
            start == all.len() - keep,
            keep as nat == (if all.len() > limit as nat { limit as nat } else { all.len() }),
            entries@ == all.subrange(0, entries.len() as int),
            out@ == all.subrange(entries.len() as int, all.len() as int).reverse(),
        decreases entries.len(),
    {
        let item = entries.pop().unwrap();
        out.push(item);
        assert(entries@ =~= all.subrange(0, entries.len() as int));
        assert(out@ =~= all.subrange(entries.len() as int, all.len() as int).reverse());
    }
    assert(all.skip(start as int) =~= all.subrange(start as int, all.len() as int));
    out
}

} // verus!
