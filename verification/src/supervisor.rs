//! The backend supervisor: an exactly-once startup state machine.
//!
//! The supervisor tracks the readiness flag, the exclusive process-handle
//! slot and the phase of the (at most one) startup sequence in flight. The
//! application drives it: it acquires the initialization lock, performs the
//! OS work each step asks for (kill a stale process, check the executable,
//! spawn, probe the health endpoint) and reports the outcome back. Every
//! decision — whether to proceed, what to store, when to give up — is made
//! here, under contract.

use vstd::prelude::*;

verus! {

/// How long a freshly spawned backend has to become healthy, in milliseconds.
pub const STARTUP_TIMEOUT_MS: u64 = 10_000;

/// The pause between two health probes, in milliseconds.
pub const POLL_INTERVAL_MS: u64 = 25;

/// The model of one live backend OS process: its identifier. The application
/// keeps the real child handle beside the supervisor and terminates it
/// whenever a transition hands a stale handle back.
#[derive(Clone, Copy, Debug, PartialEq, Eq, Structural)]
pub struct ProcessHandle {
    pub pid: u64,
}

/// Where the (single) startup sequence currently stands. `Steady` means no
/// startup step is owed; the other phases name the next outside action the
/// application must perform and report.
#[derive(Clone, Copy, Debug, PartialEq, Eq, Structural)]
pub enum Phase {
    /// No startup sequence is mid-flight.
    Steady,
    /// The caller must check that the backend executable exists on disk.
    CheckingExe,
    /// The caller must try to spawn the backend process.
    Spawning,
    /// The caller must probe the health endpoint until success or deadline.
    Polling,
}

/// Why a startup attempt failed.
#[derive(Debug)]
pub enum StartupError {
    /// The backend executable was not found at the configured path.
    BackendMissing { path: String },
    /// The OS refused to start the process.
    SpawnFailed { detail: String },
    /// The backend never answered its health check before the deadline.
    HealthcheckTimeout,
}

impl StartupError {
    /// The text a failed readiness attempt surfaces to the caller.
    pub open spec fn message_spec(self) -> Seq<char> {
        match self {
            StartupError::BackendMissing { path } => "go binary not found at "@ + path@,
            StartupError::SpawnFailed { detail } => "spawn failed: "@ + detail@,
            StartupError::HealthcheckTimeout => "health check timed out"@,
        }
    }

    /// Render the error for the response body.
    pub fn message(&self) -> (r: String)
        ensures
            r@ == self.message_spec(),
    {
        let mut out = String::new();
        match self {
            StartupError::BackendMissing { path } => {
                crate::text::push_str(&mut out, "go binary not found at ");
                crate::text::push_str(&mut out, path.as_str());
            },
            StartupError::SpawnFailed { detail } => {
                crate::text::push_str(&mut out, "spawn failed: ");
                crate::text::push_str(&mut out, detail.as_str());
            },
            StartupError::HealthcheckTimeout => {
                crate::text::push_str(&mut out, "health check timed out");
            },
        }
        proof {
            assert(out@ =~= self.message_spec());
        }
        out
    }
}

/// The shared supervisor state: readiness flag, process-handle slot, startup
/// phase, and a lifetime count of spawns (the subject of the exactly-once
/// guarantee).
pub struct Supervisor {
    pub ready: bool,
    pub handle: Option<ProcessHandle>,
    pub phase: Phase,
    pub spawn_count: u64,
}

impl Supervisor {
    /// The supervisor invariant: the readiness flag is true only while a
    /// live, health-checked process handle is tracked and no startup step is
    /// owed; mid-startup phases pin the slot's contents.
    pub open spec fn wf(self) -> bool {
        &&& self.ready ==> self.handle is Some && self.phase is Steady
        &&& (self.phase is CheckingExe || self.phase is Spawning) ==> self.handle is None
        &&& self.phase is Polling ==> self.handle is Some && !self.ready
    }

    /// A fresh supervisor: not ready, empty slot, nothing spawned yet.
    pub fn new() -> (s: Supervisor)
        ensures
            s.wf(),
            !s.ready,
            s.handle is None,
            s.phase is Steady,
            s.spawn_count == 0,
    {
        Supervisor { ready: false, handle: None, phase: Phase::Steady, spawn_count: 0 }
    }

    /// The lock-free fast path and the re-check under the lock: readiness as
    /// currently recorded.
    pub fn is_ready(&self) -> (r: bool)
        ensures
            r == self.ready,
    {
        self.ready
    }

    /// First step under the initialization lock: re-check readiness. If the
    /// backend is already ready, nothing is owed. Otherwise the startup
    /// sequence begins with defensive cleanup: the slot is emptied and any
    /// stale handle is returned for the caller to terminate.
    pub fn begin_startup(&mut self) -> (r: BeginOutcome)
        requires
            old(self).wf(),
            old(self).phase is Steady,
        ensures
            final(self).wf(),
            final(self).spawn_count == old(self).spawn_count,
            *final(self) == step_next(*old(self), Step::Begin),
            old(self).ready ==> r is AlreadyReady && *final(self) == *old(self),
            !old(self).ready ==> {
                &&& r matches BeginOutcome::Proceed { stale } && stale == old(self).handle
                &&& *final(self) == (Supervisor { handle: None, phase: Phase::CheckingExe, ..*old(self) })
            },
    {
        if self.ready {
            BeginOutcome::AlreadyReady
        } else {
            let stale = self.handle.take();
            self.phase = Phase::CheckingExe;
            BeginOutcome::Proceed { stale }
        }
    }

    /// Second step: the caller looked for the backend executable at `path`
    /// and reports whether it exists. A missing executable ends the attempt
    /// with `BackendMissing` naming that path, before anything is spawned.
    pub fn on_executable_check(&mut self, path: &str, exists: bool) -> (r: Result<(), StartupError>)
        requires
            old(self).wf(),
            old(self).phase is CheckingExe,
        ensures
            final(self).wf(),
            final(self).spawn_count == old(self).spawn_count,
            final(self).handle is None,
            !final(self).ready,
            *final(self) == step_next(*old(self), Step::ExeCheck { exists }),
            exists ==> r is Ok && *final(self) == (Supervisor { phase: Phase::Spawning, ..*old(self) }),
            !exists ==> {
                &&& r matches Err(StartupError::BackendMissing { path: p }) && p@ == path@
                &&& *final(self) == (Supervisor { phase: Phase::Steady, ..*old(self) })
            },
    {
        if exists {
            self.phase = Phase::Spawning;
            Ok(())
        } else {
            self.phase = Phase::Steady;
            Err(StartupError::BackendMissing { path: path.to_owned() })
        }
    }

    /// Third step: the caller tried to spawn the backend and reports the
    /// outcome. A successful spawn is counted and its handle stored in the
    /// slot; a failed one ends the attempt with `SpawnFailed`.
    pub fn on_spawn_result(&mut self, outcome: Result<ProcessHandle, String>) -> (r: Result<
        (),
        StartupError,
    >)
        requires
            old(self).wf(),
            old(self).phase is Spawning,
            old(self).spawn_count < u64::MAX,
        ensures
            final(self).wf(),
            !final(self).ready,
            outcome matches Ok(h) ==> *final(self) == step_next(
                *old(self),
                Step::SpawnDone { ok: true, pid: h.pid },
            ),
            outcome matches Err(d) ==> *final(self) == step_next(
                *old(self),
                Step::SpawnDone { ok: false, pid: 0 },
            ),
            outcome matches Ok(h) ==> {
                &&& r is Ok
                &&& *final(self) == (Supervisor {
                    handle: Some(h),
                    phase: Phase::Polling,
                    spawn_count: (old(self).spawn_count + 1) as u64,
                    ..*old(self)
                })
            },
            outcome matches Err(d) ==> {
                &&& r matches Err(StartupError::SpawnFailed { detail }) && detail == d
                &&& *final(self) == (Supervisor { phase: Phase::Steady, ..*old(self) })
            },
    {
        match outcome {
            Ok(h) => {
                self.handle = Some(h);
                self.phase = Phase::Polling;
                self.spawn_count = self.spawn_count + 1;
                Ok(())
            },
            Err(detail) => {
                self.phase = Phase::Steady;
                Err(StartupError::SpawnFailed { detail })
            },
        }
    }

    /// One health probe came back before the deadline. A successful probe
    /// makes the backend ready and ends the startup sequence; an unsuccessful
    /// one (any network error counts as "not yet healthy") changes nothing,
    /// and the caller sleeps one poll interval and probes again. If a
    /// concurrent teardown ended the run while the probe was in flight, the
    /// report finds the machine no longer polling, changes nothing and
    /// answers `TornDown`: the caller abandons the attempt.
    pub fn on_poll(&mut self, healthy: bool) -> (r: PollReport)
        requires
            old(self).wf(),
        ensures
            final(self).wf(),
            final(self).spawn_count == old(self).spawn_count,
            final(self).handle == old(self).handle,
            old(self).phase is Polling ==> *final(self) == step_next(
                *old(self),
                Step::Poll { healthy },
            ),
            old(self).phase is Polling && healthy ==> r is Ready && *final(self) == (Supervisor {
                ready: true,
                phase: Phase::Steady,
                ..*old(self)
            }),
            old(self).phase is Polling && !healthy ==> r is Retry && *final(self) == *old(self),
            !(old(self).phase is Polling) ==> r is TornDown && *final(self) == *old(self),
    {
        match self.phase {
            Phase::Polling => {
                if healthy {
                    self.ready = true;
                    self.phase = Phase::Steady;
                    PollReport::Ready
                } else {
                    PollReport::Retry
                }
            },
            _ => PollReport::TornDown,
        }
    }

    /// The startup deadline elapsed before any successful probe. The attempt
    /// ends with `HealthcheckTimeout`; the slot is emptied and the spawned
    /// handle is returned so the caller terminates that process before the
    /// error is surfaced — readiness is never set on this path. If a
    /// concurrent teardown already ended the run, nothing is tracked any
    /// more: the state is left untouched and no handle is returned.
    pub fn on_deadline(&mut self) -> (r: (Option<ProcessHandle>, StartupError))
        requires
            old(self).wf(),
        ensures
            final(self).wf(),
            final(self).spawn_count == old(self).spawn_count,
            r.1 is HealthcheckTimeout,
            old(self).phase is Polling ==> {
                &&& r.0 == old(self).handle
                &&& !final(self).ready
                &&& *final(self) == step_next(*old(self), Step::DeadlineExpired)
                &&& *final(self) == (Supervisor { handle: None, phase: Phase::Steady, ..*old(self) })
            },
            !(old(self).phase is Polling) ==> r.0 is None && *final(self) == *old(self),
    {
        match self.phase {
            Phase::Polling => {
                let stale = self.handle.take();
                self.phase = Phase::Steady;
                (stale, StartupError::HealthcheckTimeout)
            },
            _ => (None, StartupError::HealthcheckTimeout),
        }
    }

    /// A live backend connection failed mid-traffic: record that the backend
    /// can no longer be trusted. The handle is left in place — the next
    /// startup sequence begins by killing it.
    pub fn mark_unready(&mut self)
        requires
            old(self).wf(),
        ensures
            final(self).wf(),
            *final(self) == step_next(*old(self), Step::MarkUnready),
            *final(self) == (Supervisor { ready: false, ..*old(self) }),
    {
        self.ready = false;
    }

    /// Teardown: empty the slot and return whatever handle was tracked for
    /// the caller to terminate. Callable at any time — from a shutdown signal
    /// concurrently with in-flight requests, and even while a startup
    /// sequence is mid-flight, which it aborts: the machine returns to the
    /// steady phase and the run's next report (`on_poll` / `on_deadline`)
    /// observes the teardown. Idempotent — a second call returns `None` and
    /// changes nothing. Since readiness may hold only while a handle is
    /// tracked, this also clears the flag.
    pub fn kill_child(&mut self) -> (r: Option<ProcessHandle>)
        requires
            old(self).wf(),
        ensures
            final(self).wf(),
            final(self).spawn_count == old(self).spawn_count,
            r == old(self).handle,
            *final(self) == step_next(*old(self), Step::KillChild),
            *final(self) == (Supervisor {
                ready: false,
                handle: None,
                phase: Phase::Steady,
                ..*old(self)
            }),
    {
        self.ready = false;
        self.phase = Phase::Steady;
        self.handle.take()
    }
}

/// One interaction with the supervisor, as the trace model sees it. Each
/// step stands for one call of the like-named transition method; a
/// `SpawnDone` step stands for one invocation of the OS process spawn.
pub enum Step {
    Begin,
    ExeCheck { exists: bool },
    SpawnDone { ok: bool, pid: u64 },
    Poll { healthy: bool },
    DeadlineExpired,
    MarkUnready,
    KillChild,
}

/// When a step may occur: the phases in which the corresponding method
/// takes its full effect. `Begin` occurs only under the initialization lock,
/// from the steady phase; probes take effect only while a startup sequence
/// is polling (reported to a torn-down machine they change nothing, which is
/// no step of the model); teardown and `mark_unready` may occur at any time.
pub open spec fn step_enabled(s: Supervisor, st: Step) -> bool {
    match st {
        Step::Begin => s.phase is Steady,
        Step::ExeCheck { .. } => s.phase is CheckingExe,
        Step::SpawnDone { .. } => s.phase is Spawning,
        Step::Poll { .. } => s.phase is Polling,
        Step::DeadlineExpired => s.phase is Polling,
        Step::MarkUnready => true,
        Step::KillChild => true,
    }
}

/// The state after one step: exactly the transition the corresponding
/// method's `ensures` promises.
pub open spec fn step_next(s: Supervisor, st: Step) -> Supervisor {
    match st {
        Step::Begin => if s.ready {
            s
        } else {
            Supervisor { handle: None, phase: Phase::CheckingExe, ..s }
        },
        Step::ExeCheck { exists } => if exists {
            Supervisor { phase: Phase::Spawning, ..s }
        } else {
            Supervisor { phase: Phase::Steady, ..s }
        },
        Step::SpawnDone { ok, pid } => if ok {
            Supervisor {
                handle: Some(ProcessHandle { pid }),
                phase: Phase::Polling,
                spawn_count: (s.spawn_count + 1) as u64,
                ..s
            }
        } else {
            Supervisor { phase: Phase::Steady, ..s }
        },
        Step::Poll { healthy } => if healthy {
            Supervisor { ready: true, phase: Phase::Steady, ..s }
        } else {
            s
        },
        Step::DeadlineExpired => Supervisor { handle: None, phase: Phase::Steady, ..s },
        Step::MarkUnready => Supervisor { ready: false, ..s },
        Step::KillChild => Supervisor { ready: false, handle: None, phase: Phase::Steady, ..s },
    }
}

/// Every enabled step preserves the supervisor invariant.
pub proof fn lemma_step_preserves_wf(s: Supervisor, st: Step)
    requires
        s.wf(),
        step_enabled(s, st),
    ensures
        step_next(s, st).wf(),
{
}

/// A whole run is enabled when each step is enabled in the state the
/// previous steps produced.
pub open spec fn trace_enabled(s: Supervisor, tr: Seq<Step>) -> bool
    decreases tr.len(),
{
    tr.len() == 0 || (step_enabled(s, tr[0]) && trace_enabled(
        step_next(s, tr[0]),
        tr.subrange(1, tr.len() as int),
    ))
}

/// The state a run ends in.
pub open spec fn trace_end(s: Supervisor, tr: Seq<Step>) -> Supervisor
    decreases tr.len(),
{
    if tr.len() == 0 {
        s
    } else {
        trace_end(step_next(s, tr[0]), tr.subrange(1, tr.len() as int))
    }
}

pub open spec fn is_spawn_step(st: Step) -> bool {
    st matches Step::SpawnDone { .. }
}

pub open spec fn is_poll_step(st: Step) -> bool {
    st matches Step::Poll { .. }
}

/// How many times a run invoked the OS spawn.
pub open spec fn spawn_steps(tr: Seq<Step>) -> nat
    decreases tr.len(),
{
    if tr.len() == 0 {
        0
    } else {
        (if is_spawn_step(tr[0]) {
            1nat
        } else {
            0nat
        }) + spawn_steps(tr.subrange(1, tr.len() as int))
    }
}

/// How many health probes a run issued.
pub open spec fn poll_steps(tr: Seq<Step>) -> nat
    decreases tr.len(),
{
    if tr.len() == 0 {
        0
    } else {
        (if is_poll_step(tr[0]) {
            1nat
        } else {
            0nat
        }) + poll_steps(tr.subrange(1, tr.len() as int))
    }
}

/// The readiness invariant holds in every reachable state: whatever enabled
/// interactions occur, the flag is true only while a live, health-checked
/// handle sits in the slot.
pub proof fn lemma_trace_preserves_wf(s: Supervisor, tr: Seq<Step>)
    requires
        s.wf(),
        trace_enabled(s, tr),
    ensures
        trace_end(s, tr).wf(),
    decreases tr.len(),
{
    if tr.len() > 0 {
        lemma_step_preserves_wf(s, tr[0]);
        lemma_trace_preserves_wf(step_next(s, tr[0]), tr.subrange(1, tr.len() as int));
    }
}

/// Runs compose: a run followed by a run from its end state is one run, and
/// the counts add.
pub proof fn lemma_trace_concat(s: Supervisor, a: Seq<Step>, b: Seq<Step>)
    requires
        trace_enabled(s, a),
        trace_enabled(trace_end(s, a), b),
    ensures
        trace_enabled(s, a + b),
        trace_end(s, a + b) == trace_end(trace_end(s, a), b),
        spawn_steps(a + b) == spawn_steps(a) + spawn_steps(b),
        poll_steps(a + b) == poll_steps(a) + poll_steps(b),
    decreases a.len(),
{
    if a.len() == 0 {
        assert(a + b =~= b);
    } else {
        let s1 = step_next(s, a[0]);
        let a1 = a.subrange(1, a.len() as int);
        assert((a + b)[0] == a[0]);
        assert((a + b).subrange(1, (a + b).len() as int) =~= a1 + b);
        lemma_trace_concat(s1, a1, b);
    }
}

/// Once the supervisor is ready and steady, any sequence of interactions
/// that avoids `mark_unready` and `kill_child` leaves it exactly as it is:
/// in particular it spawns nothing and probes nothing. Together with
/// `Supervisor::on_poll`'s postcondition (a successful probe makes the
/// supervisor ready), this is the guarantee that a second `ensure_ready`
/// after a successful one performs zero spawns and zero health polls.
pub proof fn lemma_ready_steady_no_work(s: Supervisor, tr: Seq<Step>)
    requires
        s.wf(),
        s.ready,
        s.phase is Steady,
        trace_enabled(s, tr),
        forall|i: int|
            0 <= i < tr.len() ==> !((#[trigger] tr[i]) matches Step::MarkUnready) && !(tr[i]
                matches Step::KillChild),
    ensures
        trace_end(s, tr) == s,
        spawn_steps(tr) == 0,
        poll_steps(tr) == 0,
    decreases tr.len(),
{
    if tr.len() > 0 {
        assert(tr[0] matches Step::Begin);
        assert(step_next(s, tr[0]) == s);
        let tail = tr.subrange(1, tr.len() as int);
        assert(forall|i: int|
            0 <= i < tail.len() ==> !((#[trigger] tail[i]) matches Step::MarkUnready) && !(tail[i]
                matches Step::KillChild)) by {
            assert(forall|i: int| 0 <= i < tail.len() ==> tail[i] == tr[i + 1]);
        }
        lemma_ready_steady_no_work(s, tail);
    }
}

/// The probing tail of a startup run: `n` unsuccessful probes, then a
/// successful one.
pub open spec fn poll_trace(n: nat) -> Seq<Step> {
    Seq::new(n, |i: int| Step::Poll { healthy: false }) + seq![Step::Poll { healthy: true }]
}

/// From the polling phase, probing until the first success spawns nothing
/// and ends ready and steady, with the spawned handle still in the slot.
pub proof fn lemma_polling_until_healthy(s: Supervisor, n: nat)
    requires
        s.wf(),
        s.phase is Polling,
    ensures
        trace_enabled(s, poll_trace(n)),
        spawn_steps(poll_trace(n)) == 0,
        poll_steps(poll_trace(n)) == n + 1,
        trace_end(s, poll_trace(n)) == (Supervisor { ready: true, phase: Phase::Steady, ..s }),
    decreases n,
{
    reveal_with_fuel(trace_enabled, 3);
    reveal_with_fuel(trace_end, 3);
    reveal_with_fuel(spawn_steps, 3);
    reveal_with_fuel(poll_steps, 3);
    let tr = poll_trace(n);
    if n == 0 {
        assert(tr =~= seq![Step::Poll { healthy: true }]);
        assert(tr.subrange(1, tr.len() as int) =~= Seq::<Step>::empty());
    } else {
        assert(tr[0] == (Step::Poll { healthy: false }));
        assert(step_next(s, tr[0]) == s);
        assert(tr.subrange(1, tr.len() as int) =~= poll_trace((n - 1) as nat));
        lemma_polling_until_healthy(s, (n - 1) as nat);
    }
}

/// One full, successful startup run: re-check, executable found, spawned,
/// then `retries` unsuccessful probes and a successful one.
pub open spec fn startup_trace(retries: nat, pid: u64) -> Seq<Step> {
    seq![
        Step::Begin,
        Step::ExeCheck { exists: true },
        Step::SpawnDone { ok: true, pid },
    ] + poll_trace(retries)
}

/// From an unready steady state, a successful startup run invokes the OS
/// spawn exactly once and ends ready, with the new process in the slot.
pub proof fn lemma_startup_spawns_exactly_once(s: Supervisor, retries: nat, pid: u64)
    requires
        s.wf(),
        !s.ready,
        s.phase is Steady,
    ensures
        trace_enabled(s, startup_trace(retries, pid)),
        spawn_steps(startup_trace(retries, pid)) == 1,
        trace_end(s, startup_trace(retries, pid)) == (Supervisor {
            ready: true,
            handle: Some(ProcessHandle { pid }),
            phase: Phase::Steady,
            spawn_count: (s.spawn_count + 1) as u64,
        }),
{
    reveal_with_fuel(trace_enabled, 5);
    reveal_with_fuel(trace_end, 5);
    reveal_with_fuel(spawn_steps, 5);
    reveal_with_fuel(poll_steps, 5);
    let head = seq![
        Step::Begin,
        Step::ExeCheck { exists: true },
        Step::SpawnDone { ok: true, pid },
    ];
    let s1 = step_next(s, Step::Begin);
    let s2 = step_next(s1, Step::ExeCheck { exists: true });
    let s3 = step_next(s2, Step::SpawnDone { ok: true, pid });
    assert(head.subrange(1, 3) =~= seq![
        Step::ExeCheck { exists: true },
        Step::SpawnDone { ok: true, pid },
    ]);
    assert(head.subrange(1, 3).subrange(1, 2) =~= seq![Step::SpawnDone { ok: true, pid }]);
    assert(head.subrange(1, 3).subrange(1, 2).subrange(1, 1) =~= Seq::<Step>::empty());
    assert(trace_enabled(s, head));
    assert(trace_end(s, head) == s3);
    assert(spawn_steps(head) == 1);
    assert(poll_steps(head) == 0);
    lemma_polling_until_healthy(s3, retries);
    lemma_trace_concat(s, head, poll_trace(retries));
}

/// The exactly-once guarantee for racing callers. The initialization lock
/// serializes every caller that finds readiness false, so their combined
/// behaviour is one startup run followed by any interleaving of further
/// re-checks; as long as nothing marks the backend unready or tears it down,
/// the OS spawn is invoked exactly once, however many callers raced.
pub proof fn lemma_racing_callers_spawn_once(
    s: Supervisor,
    retries: nat,
    pid: u64,
    rest: Seq<Step>,
)
    requires
        s.wf(),
        !s.ready,
        s.phase is Steady,
        trace_enabled(trace_end(s, startup_trace(retries, pid)), rest),
        forall|i: int|
            0 <= i < rest.len() ==> !((#[trigger] rest[i]) matches Step::MarkUnready) && !(rest[i]
                matches Step::KillChild),
    ensures
        trace_enabled(s, startup_trace(retries, pid) + rest),
        spawn_steps(startup_trace(retries, pid) + rest) == 1,
        trace_end(s, startup_trace(retries, pid) + rest).ready,
{
    lemma_startup_spawns_exactly_once(s, retries, pid);
    let mid = trace_end(s, startup_trace(retries, pid));
    lemma_ready_steady_no_work(mid, rest);
    lemma_trace_concat(s, startup_trace(retries, pid), rest);
}

/// The missing-executable run: re-check, then the executable is not found.
/// Nothing is ever spawned, and the supervisor is back in an unready steady
/// state with an empty slot. `Supervisor::on_executable_check` pins the
/// error this run surfaces to `BackendMissing` with the offending path.
pub proof fn lemma_missing_executable_never_spawns(s: Supervisor)
    requires
        s.wf(),
        !s.ready,
        s.phase is Steady,
    ensures
        trace_enabled(s, seq![Step::Begin, Step::ExeCheck { exists: false }]),
        spawn_steps(seq![Step::Begin, Step::ExeCheck { exists: false }]) == 0,
        trace_end(s, seq![Step::Begin, Step::ExeCheck { exists: false }]) == (Supervisor {
            ready: false,
            handle: None,
            phase: Phase::Steady,
            spawn_count: s.spawn_count,
        }),
{
    reveal_with_fuel(trace_enabled, 4);
    reveal_with_fuel(trace_end, 4);
    reveal_with_fuel(spawn_steps, 4);
    let tr = seq![Step::Begin, Step::ExeCheck { exists: false }];
    assert(tr.subrange(1, 2) =~= seq![Step::ExeCheck { exists: false }]);
    assert(tr.subrange(1, 2).subrange(1, 1) =~= Seq::<Step>::empty());
}

/// The hard deadline for a startup attempt: the moment the backend was
/// spawned plus the startup timeout.
pub fn deadline_from(spawned_at_ms: u64) -> (r: u64)
    requires
        spawned_at_ms + STARTUP_TIMEOUT_MS <= u64::MAX,
    ensures
        r == spawned_at_ms + STARTUP_TIMEOUT_MS,
{
    spawned_at_ms + STARTUP_TIMEOUT_MS
}

/// The poll loop's condition: another probe is issued only strictly before
/// the deadline.
pub fn poll_due(now_ms: u64, deadline_ms: u64) -> (r: bool)
    ensures
        r == (now_ms < deadline_ms),
{
    now_ms < deadline_ms
}

/// A startup run whose probes never succeed: re-check, executable found,
/// spawned, `n` unsuccessful probes, then the deadline.
pub open spec fn timeout_trace(n: nat, pid: u64) -> Seq<Step> {
    seq![
        Step::Begin,
        Step::ExeCheck { exists: true },
        Step::SpawnDone { ok: true, pid },
    ] + Seq::new(n, |i: int| Step::Poll { healthy: false }) + seq![Step::DeadlineExpired]
}

/// If no probe succeeds before the deadline, the attempt ends with the slot
/// empty — the one spawned process has been handed back for termination —
/// and readiness never set. `Supervisor::on_deadline` pins the surfaced
/// error to `HealthcheckTimeout`.
pub proof fn lemma_timeout_leaves_no_process(s: Supervisor, n: nat, pid: u64)
    requires
        s.wf(),
        !s.ready,
        s.phase is Steady,
    ensures
        trace_enabled(s, timeout_trace(n, pid)),
        spawn_steps(timeout_trace(n, pid)) == 1,
        trace_end(s, timeout_trace(n, pid)) == (Supervisor {
            ready: false,
            handle: None,
            phase: Phase::Steady,
            spawn_count: (s.spawn_count + 1) as u64,
        }),
{
    reveal_with_fuel(trace_enabled, 5);
    reveal_with_fuel(trace_end, 5);
    reveal_with_fuel(spawn_steps, 5);
    let head = seq![
        Step::Begin,
        Step::ExeCheck { exists: true },
        Step::SpawnDone { ok: true, pid },
    ];
    let s1 = step_next(s, Step::Begin);
    let s2 = step_next(s1, Step::ExeCheck { exists: true });
    let s3 = step_next(s2, Step::SpawnDone { ok: true, pid });
    assert(head.subrange(1, 3) =~= seq![
        Step::ExeCheck { exists: true },
        Step::SpawnDone { ok: true, pid },
    ]);
    assert(head.subrange(1, 3).subrange(1, 2) =~= seq![Step::SpawnDone { ok: true, pid }]);
    assert(head.subrange(1, 3).subrange(1, 2).subrange(1, 1) =~= Seq::<Step>::empty());
    assert(trace_enabled(s, head));
    assert(trace_end(s, head) == s3);
    assert(spawn_steps(head) == 1);
    lemma_unhealthy_polls(s3, n);
    let polls = Seq::new(n, |i: int| Step::Poll { healthy: false });
    let tail = seq![Step::DeadlineExpired];
    lemma_trace_concat(s3, polls, tail);
    lemma_trace_concat(s, head, polls + tail);
    assert(timeout_trace(n, pid) =~= head + (polls + tail));
}

/// Unsuccessful probes change nothing: the supervisor stays polling, with
/// the same slot and count.
proof fn lemma_unhealthy_polls(s: Supervisor, n: nat)
    requires
        s.wf(),
        s.phase is Polling,
    ensures
        trace_enabled(s, Seq::new(n, |i: int| Step::Poll { healthy: false })),
        spawn_steps(Seq::new(n, |i: int| Step::Poll { healthy: false })) == 0,
        trace_end(s, Seq::new(n, |i: int| Step::Poll { healthy: false })) == s,
    decreases n,
{
    reveal_with_fuel(trace_enabled, 2);
    reveal_with_fuel(trace_end, 2);
    reveal_with_fuel(spawn_steps, 2);
    let tr = Seq::new(n, |i: int| Step::Poll { healthy: false });
    if n > 0 {
        assert(step_next(s, tr[0]) == s);
        assert(tr.subrange(1, tr.len() as int) =~= Seq::new(
            (n - 1) as nat,
            |i: int| Step::Poll { healthy: false },
        ));
        lemma_unhealthy_polls(s, (n - 1) as nat);
    }
}

/// Teardown is total and idempotent: it is enabled in every phase, it
/// empties the slot and clears readiness, and a second teardown finds
/// nothing tracked and changes nothing.
pub proof fn lemma_kill_child_idempotent(s: Supervisor)
    requires
        s.wf(),
    ensures
        step_enabled(s, Step::KillChild),
        step_next(s, Step::KillChild).wf(),
        step_next(s, Step::KillChild).handle is None,
        !step_next(s, Step::KillChild).ready,
        step_next(step_next(s, Step::KillChild), Step::KillChild) == step_next(
            s,
            Step::KillChild,
        ),
{
}

/// Shutdown leaves no orphaned backend, whenever it arrives: after any run
/// of interactions — mid-startup included — a teardown is enabled, and it
/// empties the slot, handing back the one tracked process for termination.
pub proof fn lemma_shutdown_leaves_no_process(s: Supervisor, tr: Seq<Step>)
    requires
        s.wf(),
        trace_enabled(s, tr),
    ensures
        step_enabled(trace_end(s, tr), Step::KillChild),
        step_next(trace_end(s, tr), Step::KillChild).handle is None,
        !step_next(trace_end(s, tr), Step::KillChild).ready,
        step_next(trace_end(s, tr), Step::KillChild).wf(),
{
    lemma_trace_preserves_wf(s, tr);
}

/// What `begin_startup` decided.
pub enum BeginOutcome {
    /// Another caller finished initialization first: return success at once.
    AlreadyReady,
    /// Proceed with the startup sequence; `stale` is the handle (if any) the
    /// caller must terminate before going on.
    Proceed { stale: Option<ProcessHandle> },
}

/// What one health-probe report found.
pub enum PollReport {
    /// The probe succeeded: the backend is ready and the run is over.
    Ready,
    /// Not healthy yet: sleep one interval and probe again.
    Retry,
    /// A concurrent teardown ended the run while the probe was in flight:
    /// abandon the attempt, nothing is tracked any more.
    TornDown,
}

} // verus!
