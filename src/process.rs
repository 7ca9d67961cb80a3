use vstd::prelude::*;

use vstd::arithmetic::power2::{lemma_pow2_unfold, pow2};

use crate::service::{copy_strings, RestartPolicy};

verus! {

/// The delay before the first automatic restart, in seconds.
pub const INITIAL_BACKOFF_SECS: u64 = 1;

/// The largest delay between two automatic restarts, in seconds.
pub const MAX_BACKOFF_SECS: u64 = 30;

/// The delay that follows a delay of `b` seconds: twice as long, capped.
pub open spec fn next_backoff(b: int) -> int {
    if 2 * b < MAX_BACKOFF_SECS {
        2 * b
    } else {
        MAX_BACKOFF_SECS as int
    }
}

/// The delay before the restart that follows `k` restarts in a row, from a
/// fresh record.
pub open spec fn backoff_schedule(k: nat) -> int
    decreases k,
{
    if k == 0 {
        INITIAL_BACKOFF_SECS as int
    } else {
        next_backoff(backoff_schedule((k - 1) as nat))
    }
}

/// The delays between consecutive restarts double from one second (1, 2, 4,
/// ... seconds) and never exceed thirty seconds.
pub proof fn lemma_backoff_doubles_to_cap(k: nat)
    ensures
        backoff_schedule(k) == if pow2(k) < MAX_BACKOFF_SECS {
            pow2(k) as int
        } else {
            MAX_BACKOFF_SECS as int
        },
        INITIAL_BACKOFF_SECS <= backoff_schedule(k) <= MAX_BACKOFF_SECS,
    decreases k,
{
    if k == 0 {
        assert(pow2(0) == 1) by {
            vstd::arithmetic::power2::lemma2_to64();
        }
    } else {
        lemma_backoff_doubles_to_cap((k - 1) as nat);
        lemma_pow2_unfold(k);
    }
}

/// How a process ended: its exit code, or none when a signal ended it.
#[derive(Debug, Clone, Copy, PartialEq, Eq, Structural)]
pub struct ExitStatus {
    pub code: Option<i32>,
}

impl ExitStatus {
    pub open spec fn is_success(&self) -> bool {
        self.code == Some(0i32)
    }

    /// Whether the process exited with code zero.
    pub fn success(&self) -> (r: bool)
        ensures
            r == self.is_success(),
    {
        match self.code {
            Some(c) => c == 0,
            None => false,
        }
    }
}

/// Whether `policy` asks for a restart after an exit with status `exit`
/// (`None` when the status is unknown).
pub open spec fn restart_permitted(policy: RestartPolicy, exit: Option<ExitStatus>) -> bool {
    match policy {
        RestartPolicy::Never => false,
        RestartPolicy::Always => true,
        RestartPolicy::OnFailure => match exit {
            Some(status) => !status.is_success(),
            None => false,
        },
    }
}

/// Why a process could not be launched.
#[derive(Debug, Clone, Copy, PartialEq, Eq, Structural)]
pub enum LaunchError {
    EmptyCommand,
}

/// The runtime record of one supervised service. `H` is the handle of its
/// operating-system process, present exactly while the process runs.
/// Times are milliseconds on the caller's monotonic clock.
pub struct SupervisedProcess<H> {
    pub child: Option<H>,
    pub cmd: Vec<String>,
    pub restart_policy: RestartPolicy,
    /// Incremented on every spawn.
    pub restart_count: u32,
    pub last_start: Option<u64>,
    /// The delay before the next automatic restart, in seconds.
    pub backoff: u64,
}

impl<H> SupervisedProcess<H> {
    /// The backoff stays between its initial value and its cap.
    pub open spec fn wf(&self) -> bool {
        INITIAL_BACKOFF_SECS <= self.backoff <= MAX_BACKOFF_SECS
    }

    pub open spec fn running(&self) -> bool {
        self.child is Some
    }

    /// The record after `child` was spawned at time `now`.
    pub open spec fn spawned(self, child: H, now: u64) -> Self {
        SupervisedProcess {
            child: Some(child),
            last_start: Some(now),
            restart_count: if self.restart_count < u32::MAX {
                (self.restart_count + 1) as u32
            } else {
                u32::MAX
            },
            ..self
        }
    }

    /// The record after its process handle was let go.
    pub open spec fn released(self) -> Self {
        SupervisedProcess { child: None, ..self }
    }

    /// The record after a restart was scheduled: the backoff has grown.
    pub open spec fn backed_off(self) -> Self {
        SupervisedProcess { backoff: next_backoff(self.backoff as int) as u64, ..self }
    }

    /// A record with no process, not yet started.
    pub fn new(cmd: Vec<String>, restart_policy: RestartPolicy) -> (r: Self)
        ensures
            r.wf(),
            r.child is None,
            r.cmd@ == cmd@,
            r.restart_policy == restart_policy,
            r.restart_count == 0,
            r.last_start is None,
            r.backoff == INITIAL_BACKOFF_SECS,
    {
        SupervisedProcess {
            child: None,
            cmd,
            restart_policy,
            restart_count: 0,
            last_start: None,
            backoff: INITIAL_BACKOFF_SECS,
        }
    }

    /// Whether a process is held.
    pub fn is_running(&self) -> (r: bool)
        ensures
            r == self.running(),
    {
        self.child.is_some()
    }

    /// The argument vector to launch: an error when the command is empty.
    pub fn launch_args(&self) -> (r: Result<Vec<String>, LaunchError>)
        ensures
            r is Err <==> self.cmd@.len() == 0,
            r matches Ok(argv) ==> argv@ == self.cmd@,
    {
        if self.cmd.len() == 0 {
            Err(LaunchError::EmptyCommand)
        } else {
            Ok(copy_strings(&self.cmd))
        }
    }

    /// Records that `child` was spawned at time `now`: the record is running.
    pub fn record_spawn(&mut self, child: H, now: u64)
        ensures
            *final(self) == old(self).spawned(child, now),
    {
        self.child = Some(child);
        self.last_start = Some(now);
        self.restart_count = self.restart_count.saturating_add(1);
    }

    /// Applies the outcome of a non-blocking wait on the process: an exit
    /// status when it has terminated, `None` while it runs. On termination the
    /// handle is released and the status returned.
    pub fn poll_exit(&mut self, waited: Option<ExitStatus>) -> (r: Option<ExitStatus>)
        ensures
            r == if old(self).running() { waited } else { None::<ExitStatus> },
            *final(self) == if r is Some { old(self).released() } else { *old(self) },
    {
        if self.child.is_some() {
            if waited.is_some() {
                self.child = None;
            }
            waited
        } else {
            None
        }
    }

    /// Releases the process handle so that the caller can terminate and reap
    /// it. The record no longer runs afterwards.
    pub fn kill(&mut self) -> (r: Option<H>)
        ensures
            r == old(self).child,
            *final(self) == old(self).released(),
    {
        self.child.take()
    }

    /// Whether the restart policy asks for a restart after `exit`.
    pub fn should_restart(&self, exit: Option<ExitStatus>) -> (r: bool)
        ensures
            r == restart_permitted(self.restart_policy, exit),
    {
        match self.restart_policy {
            RestartPolicy::Never => false,
            RestartPolicy::Always => true,
            RestartPolicy::OnFailure => match exit {
                Some(status) => !status.success(),
                None => false,
            },
        }
    }

    /// Takes the delay to wait before the next restart and doubles the delay
    /// for the one after it, up to the cap.
    pub fn take_backoff(&mut self) -> (r: u64)
        requires
            old(self).wf(),
        ensures
            r == old(self).backoff,
            *final(self) == old(self).backed_off(),
            final(self).wf(),
    {
        let delay = self.backoff;
        if delay < MAX_BACKOFF_SECS / 2 {
            self.backoff = delay * 2;
        } else {
            self.backoff = MAX_BACKOFF_SECS;
        }
        delay
    }
}

/// Under `Always` every exit calls for a restart, whatever its status, a
/// successful one included.
pub proof fn lemma_always_restarts(exit: Option<ExitStatus>)
    ensures
        restart_permitted(RestartPolicy::Always, exit),
{
}

/// Under `Never` no exit calls for a restart.
pub proof fn lemma_never_restarts(exit: Option<ExitStatus>)
    ensures
        !restart_permitted(RestartPolicy::Never, exit),
{
}

/// A delay within bounds never shrinks: the next one is at least as long and
/// still within bounds. No healthy run resets it.
pub proof fn lemma_backoff_never_decreases(b: int)
    requires
        INITIAL_BACKOFF_SECS <= b <= MAX_BACKOFF_SECS,
    ensures
        b <= next_backoff(b) <= MAX_BACKOFF_SECS,
{
}

/// One automatic restart of the record `p`, which has been restarted `k`
/// times in a row and whose process exited with `status`, under a policy that
/// asks for a restart then (`OnFailure` after a failure, `Always` after any
/// exit): the restart waits `backoff_schedule(k)` seconds, at most thirty,
/// the relaunch adds one to the restart count, and the next delay is
/// `backoff_schedule(k + 1)`.
pub proof fn lemma_restart_cycle<H>(p: SupervisedProcess<H>, status: ExitStatus, k: nat, child: H, now: u64)
    requires
        p.restart_policy == RestartPolicy::Always || (p.restart_policy == RestartPolicy::OnFailure
            && !status.is_success()),
        p.backoff == backoff_schedule(k),
        p.restart_count < u32::MAX,
    ensures
        restart_permitted(p.restart_policy, Some(status)),
        p.released().backed_off().spawned(child, now).running(),
        p.released().backed_off().spawned(child, now).restart_count == p.restart_count + 1,
        p.released().backed_off().spawned(child, now).backoff == backoff_schedule(k + 1),
        p.backoff <= MAX_BACKOFF_SECS,
{
    lemma_backoff_doubles_to_cap(k);
    lemma_backoff_doubles_to_cap(k + 1);
    assert(backoff_schedule(k + 1) == next_backoff(backoff_schedule(k)));
}

/// The record of a service restarted `k` times in a row after its first
/// start `p`, each time relaunched as `child` at `now`.
pub open spec fn restart_cycles<H>(p: SupervisedProcess<H>, k: nat, child: H, now: u64) -> SupervisedProcess<H>
    decreases k,
{
    if k == 0 {
        p
    } else {
        restart_cycles(p, (k - 1) as nat, child, now).released().backed_off().spawned(child, now)
    }
}

/// A service just started (restart count one, initial backoff) whose process
/// keeps exiting with a failure, under `OnFailure` or `Always`: every exit
/// calls for a restart; after `k` restarts the count is `1 + k`, so it grows
/// strictly with each restart, and the next restart waits
/// `backoff_schedule(k)` seconds, that is 1, 2, 4, ... and never above thirty.
pub proof fn lemma_restarts_in_a_row<H>(p: SupervisedProcess<H>, k: nat, child: H, now: u64)
    requires
        p.restart_policy == RestartPolicy::Always || p.restart_policy == RestartPolicy::OnFailure,
        p.restart_count == 1,
        p.backoff == INITIAL_BACKOFF_SECS,
        k < u32::MAX,
    ensures
        forall|status: ExitStatus| !status.is_success() ==> restart_permitted(p.restart_policy, Some(status)),
        restart_cycles(p, k, child, now).restart_count == 1 + k,
        restart_cycles(p, k, child, now).backoff == backoff_schedule(k),
        restart_cycles(p, k, child, now).backoff <= MAX_BACKOFF_SECS,
        restart_cycles(p, k, child, now).restart_policy == p.restart_policy,
        k > 0 ==> restart_cycles(p, k, child, now).running(),
    decreases k,
{
    lemma_backoff_doubles_to_cap(k);
    if k > 0 {
        lemma_restarts_in_a_row(p, (k - 1) as nat, child, now);
        lemma_backoff_doubles_to_cap((k - 1) as nat);
    }
}

} // verus!
