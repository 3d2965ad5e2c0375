use vstd::prelude::*;
use crate::text::{decimal, decimal_text};

verus! {

/// The signals this library sends.
#[derive(Debug, Clone, Copy, PartialEq, Eq, Structural)]
pub enum Signal {
    Hup,
    Int,
    Kill,
    Term,
    Stop,
    Cont,
    Usr1,
    Usr2,
}

/// Why a signal operation failed.
#[derive(Debug, Clone, Copy, PartialEq, Eq, Structural)]
pub enum ProcessError {
    /// The process was not alive when probed; no signal was sent.
    NotFound { pid: u32 },
    /// The pid cannot name a single process (zero, or beyond `i32`).
    InvalidPid { pid: u32 },
    /// Delivery failed with this OS error number.
    SignalFailed { pid: u32, signal: Signal, errno: i32 },
    /// The signal number is not one of the supported ones.
    UnsupportedSignal { signal_num: i32 },
}

pub open spec fn spec_signal_from_number(n: i32) -> Option<Signal> {
    if n == 1 {
        Some(Signal::Hup)
    } else if n == 2 {
        Some(Signal::Int)
    } else if n == 9 {
        Some(Signal::Kill)
    } else if n == 15 {
        Some(Signal::Term)
    } else if n == 19 {
        Some(Signal::Stop)
    } else if n == 18 {
        Some(Signal::Cont)
    } else if n == 10 {
        Some(Signal::Usr1)
    } else if n == 12 {
        Some(Signal::Usr2)
    } else {
        None
    }
}

/// The signal of a Linux signal number, among the supported ones.
pub fn signal_from_number(n: i32) -> (r: Option<Signal>)
    ensures
        r == spec_signal_from_number(n),
{
    if n == 1 {
        Some(Signal::Hup)
    } else if n == 2 {
        Some(Signal::Int)
    } else if n == 9 {
        Some(Signal::Kill)
    } else if n == 15 {
        Some(Signal::Term)
    } else if n == 19 {
        Some(Signal::Stop)
    } else if n == 18 {
        Some(Signal::Cont)
    } else if n == 10 {
        Some(Signal::Usr1)
    } else if n == 12 {
        Some(Signal::Usr2)
    } else {
        None
    }
}

pub open spec fn signal_name(s: Signal) -> Seq<char> {
    match s {
        Signal::Hup => "SIGHUP"@,
        Signal::Int => "SIGINT"@,
        Signal::Kill => "SIGKILL"@,
        Signal::Term => "SIGTERM"@,
        Signal::Stop => "SIGSTOP"@,
        Signal::Cont => "SIGCONT"@,
        Signal::Usr1 => "SIGUSR1"@,
        Signal::Usr2 => "SIGUSR2"@,
    }
}

impl Signal {
    /// The conventional name, such as `SIGTERM`.
    pub fn name(&self) -> (r: &'static str)
        ensures
            r@ == signal_name(*self),
    {
        match self {
            Signal::Hup => "SIGHUP",
            Signal::Int => "SIGINT",
            Signal::Kill => "SIGKILL",
            Signal::Term => "SIGTERM",
            Signal::Stop => "SIGSTOP",
            Signal::Cont => "SIGCONT",
            Signal::Usr1 => "SIGUSR1",
            Signal::Usr2 => "SIGUSR2",
        }
    }
}

/// Relies on `std::path::Path::exists` on `/proc/<pid>`: whether the
/// process is alive at the moment of the call. Nothing is promised of it.
#[verifier::external_body]
pub fn process_exists(pid: u32) -> (r: bool) {
    std::path::Path::new(&format!("/proc/{}", pid)).exists()
}

/// Relies on `nix::sys::signal::kill`: delivers `sig` to the single process
/// `pid`, or returns the OS error number. Whether it succeeds depends on
/// the system, so nothing is promised of the result.
#[verifier::external_body]
fn kill_raw(pid: u32, sig: Signal) -> (r: Result<(), i32>)
    requires
        0 < pid <= i32::MAX,
{
    let s = match sig {
        Signal::Hup => nix::sys::signal::Signal::SIGHUP,
        Signal::Int => nix::sys::signal::Signal::SIGINT,
        Signal::Kill => nix::sys::signal::Signal::SIGKILL,
        Signal::Term => nix::sys::signal::Signal::SIGTERM,
        Signal::Stop => nix::sys::signal::Signal::SIGSTOP,
        Signal::Cont => nix::sys::signal::Signal::SIGCONT,
        Signal::Usr1 => nix::sys::signal::Signal::SIGUSR1,
        Signal::Usr2 => nix::sys::signal::Signal::SIGUSR2,
    };
    nix::sys::signal::kill(nix::unistd::Pid::from_raw(pid as i32), s).map_err(|e| e as i32)
}

/// Sends `sig` to `pid`. A pid that cannot name one process (zero, which
/// would reach the caller's process group, or one beyond `i32`, which
/// would be read as a negative group id) is refused without sending.
pub fn send_signal_to_process(pid: u32, sig: Signal) -> (r: Result<(), ProcessError>)
    ensures
        (pid == 0 || pid > i32::MAX) ==> r == Err::<(), ProcessError>(ProcessError::InvalidPid { pid }),
        r is Err && (0 < pid <= i32::MAX) ==> exists|e: i32|
            r == Err::<(), ProcessError>(ProcessError::SignalFailed { pid, signal: sig, errno: e }),
{
    if pid == 0 || pid > i32::MAX as u32 {
        return Err(ProcessError::InvalidPid { pid });
    }
    match kill_raw(pid, sig) {
        Ok(()) => Ok(()),
        Err(e) => Err(ProcessError::SignalFailed { pid, signal: sig, errno: e }),
    }
}

// ---- the termination protocol ----

/// Which protocol runs: graceful then forceful, graceful only, or forceful
/// only.
#[derive(Debug, Clone, Copy, PartialEq, Eq, Structural)]
pub enum KillMode {
    Escalate,
    GracefulOnly,
    ForcefulOnly,
}

/// Where a run of the protocol stands.
#[derive(Debug, Clone, Copy, PartialEq, Eq, Structural)]
pub enum KillPhase {
    /// Nothing done yet; the first probe is due.
    Probing,
    /// The first signal is being sent.
    Sending,
    /// Waiting out the grace period after the graceful signal.
    GraceWait,
    /// Probing again after the grace period.
    Reprobing,
    /// The forceful signal is being sent after the graceful one.
    Escalating,
    /// Waiting out the settle period after the forceful signal.
    SettleWait,
    /// Probing after the settle period.
    FinalProbe,
    /// Finished.
    Done,
}

#[derive(Debug, Clone, Copy, PartialEq, Eq, Structural)]
pub struct KillState {
    pub pid: u32,
    pub mode: KillMode,
    pub phase: KillPhase,
}

/// What the runner observed since the last action.
#[derive(Debug, Clone, Copy)]
pub enum KillEvent {
    /// A liveness probe: whether the process was alive.
    Probed(bool),
    /// The result of the last send.
    Sent(Result<(), ProcessError>),
    /// The requested wait is over.
    Waited,
}

/// How a run ended when it did not fail.
#[derive(Debug, Clone, Copy, PartialEq, Eq, Structural)]
pub enum KillOutcome {
    /// The one signal of a single-signal run was delivered.
    Delivered(Signal),
    /// Gone after the graceful signal.
    TerminatedGracefully,
    /// Gone after escalating to the forceful signal.
    TerminatedByKill,
    /// Still alive after the forceful signal.
    KillSentStillAlive,
}

/// What the runner must do next.
#[derive(Debug, Clone, Copy)]
pub enum KillAction {
    Probe,
    Send(Signal),
    WaitMillis(u64),
    Finish(Result<KillOutcome, ProcessError>),
}

/// Grace period after the graceful signal.
pub const GRACE_MILLIS: u64 = 3000;

/// Settle period after the forceful signal.
pub const SETTLE_MILLIS: u64 = 500;

pub open spec fn first_signal(mode: KillMode) -> Signal {
    if mode == KillMode::ForcefulOnly {
        Signal::Kill
    } else {
        Signal::Term
    }
}

/// The protocol's transition table. A send failure ends the run with that
/// failure; any event that does not fit the phase leaves the state as it
/// is and repeats the phase's action.
pub open spec fn spec_step(s: KillState, e: KillEvent) -> (KillState, KillAction) {
    let done = KillState { phase: KillPhase::Done, ..s };
    match (s.phase, e) {
        (KillPhase::Probing, KillEvent::Probed(false)) => (
            done,
            KillAction::Finish(Err(ProcessError::NotFound { pid: s.pid })),
        ),
        (KillPhase::Probing, KillEvent::Probed(true)) => (
            KillState { phase: KillPhase::Sending, ..s },
            KillAction::Send(first_signal(s.mode)),
        ),
        (KillPhase::Sending, KillEvent::Sent(Err(err))) => (done, KillAction::Finish(Err(err))),
        (KillPhase::Sending, KillEvent::Sent(Ok(()))) => if s.mode == KillMode::Escalate {
            (KillState { phase: KillPhase::GraceWait, ..s }, KillAction::WaitMillis(GRACE_MILLIS))
        } else {
            (done, KillAction::Finish(Ok(KillOutcome::Delivered(first_signal(s.mode)))))
        },
        (KillPhase::GraceWait, KillEvent::Waited) => (
            KillState { phase: KillPhase::Reprobing, ..s },
            KillAction::Probe,
        ),
        (KillPhase::Reprobing, KillEvent::Probed(false)) => (
            done,
            KillAction::Finish(Ok(KillOutcome::TerminatedGracefully)),
        ),
        (KillPhase::Reprobing, KillEvent::Probed(true)) => (
            KillState { phase: KillPhase::Escalating, ..s },
            KillAction::Send(Signal::Kill),
        ),
        (KillPhase::Escalating, KillEvent::Sent(Err(err))) => (done, KillAction::Finish(Err(err))),
        (KillPhase::Escalating, KillEvent::Sent(Ok(()))) => (
            KillState { phase: KillPhase::SettleWait, ..s },
            KillAction::WaitMillis(SETTLE_MILLIS),
        ),
        (KillPhase::SettleWait, KillEvent::Waited) => (
            KillState { phase: KillPhase::FinalProbe, ..s },
            KillAction::Probe,
        ),
        (KillPhase::FinalProbe, KillEvent::Probed(alive)) => (
            done,
            KillAction::Finish(
                Ok(
                    if alive {
                        KillOutcome::KillSentStillAlive
                    } else {
                        KillOutcome::TerminatedByKill
                    },
                ),
            ),
        ),
        _ => (s, spec_pending(s)),
    }
}

/// The action a state is waiting on.
pub open spec fn spec_pending(s: KillState) -> KillAction {
    match s.phase {
        KillPhase::Probing | KillPhase::Reprobing | KillPhase::FinalProbe => KillAction::Probe,
        KillPhase::Sending => KillAction::Send(first_signal(s.mode)),
        KillPhase::Escalating => KillAction::Send(Signal::Kill),
        KillPhase::GraceWait => KillAction::WaitMillis(GRACE_MILLIS),
        KillPhase::SettleWait => KillAction::WaitMillis(SETTLE_MILLIS),
        KillPhase::Done => KillAction::Finish(Err(ProcessError::NotFound { pid: s.pid })),
    }
}

impl KillState {
    /// A fresh run for `pid`; its first action is a probe.
    pub fn start(pid: u32, mode: KillMode) -> (r: (KillState, KillAction))
        ensures
            r.0 == (KillState { pid, mode, phase: KillPhase::Probing }),
            r.1 == KillAction::Probe,
    {
        (KillState { pid, mode, phase: KillPhase::Probing }, KillAction::Probe)
    }

    fn pending(&self) -> (r: KillAction)
        ensures
            r == spec_pending(*self),
    {
        match self.phase {
            KillPhase::Probing | KillPhase::Reprobing | KillPhase::FinalProbe => KillAction::Probe,
            KillPhase::Sending => KillAction::Send(
                if self.mode == KillMode::ForcefulOnly {
                    Signal::Kill
                } else {
                    Signal::Term
                },
            ),
            KillPhase::Escalating => KillAction::Send(Signal::Kill),
            KillPhase::GraceWait => KillAction::WaitMillis(GRACE_MILLIS),
            KillPhase::SettleWait => KillAction::WaitMillis(SETTLE_MILLIS),
            KillPhase::Done => KillAction::Finish(Err(ProcessError::NotFound { pid: self.pid })),
        }
    }

    /// One transition (see `spec_step`). A run only moves on to sending a
    /// signal right after a probe found the process alive, and never
    /// reports the process gone unless the last probe did.
    pub fn step(self, event: KillEvent) -> (r: (KillState, KillAction))
        ensures
            r == spec_step(self, event),
            r.0.pid == self.pid && r.0.mode == self.mode,
            r.0.phase != self.phase && r.1 is Send ==> event == KillEvent::Probed(true),
            r.1 == KillAction::Finish(Ok(KillOutcome::TerminatedGracefully)) || r.1
                == KillAction::Finish(Ok(KillOutcome::TerminatedByKill)) ==> event == KillEvent::Probed(
                false,
            ),
            self.phase == KillPhase::Probing && event == KillEvent::Probed(false) ==> r.1
                == KillAction::Finish(Err(ProcessError::NotFound { pid: self.pid })),
    {
        let s = self;
        let done = KillState { phase: KillPhase::Done, ..s };
        match (s.phase, event) {
            (KillPhase::Probing, KillEvent::Probed(false)) => (
                done,
                KillAction::Finish(Err(ProcessError::NotFound { pid: s.pid })),
            ),
            (KillPhase::Probing, KillEvent::Probed(true)) => (
                KillState { phase: KillPhase::Sending, ..s },
                KillAction::Send(
                    if s.mode == KillMode::ForcefulOnly {
                        Signal::Kill
                    } else {
                        Signal::Term
                    },
                ),
            ),
            (KillPhase::Sending, KillEvent::Sent(Err(err))) => (done, KillAction::Finish(Err(err))),
            (KillPhase::Sending, KillEvent::Sent(Ok(()))) => {
                if s.mode == KillMode::Escalate {
                    (
                        KillState { phase: KillPhase::GraceWait, ..s },
                        KillAction::WaitMillis(GRACE_MILLIS),
                    )
                } else {
                    let sig = if s.mode == KillMode::ForcefulOnly {
                        Signal::Kill
                    } else {
                        Signal::Term
                    };
                    (done, KillAction::Finish(Ok(KillOutcome::Delivered(sig))))
                }
            },
            (KillPhase::GraceWait, KillEvent::Waited) => (
                KillState { phase: KillPhase::Reprobing, ..s },
                KillAction::Probe,
            ),
            (KillPhase::Reprobing, KillEvent::Probed(false)) => (
                done,
                KillAction::Finish(Ok(KillOutcome::TerminatedGracefully)),
            ),
            (KillPhase::Reprobing, KillEvent::Probed(true)) => (
                KillState { phase: KillPhase::Escalating, ..s },
                KillAction::Send(Signal::Kill),
            ),
            (KillPhase::Escalating, KillEvent::Sent(Err(err))) => (
                done,
                KillAction::Finish(Err(err)),
            ),
            (KillPhase::Escalating, KillEvent::Sent(Ok(()))) => (
                KillState { phase: KillPhase::SettleWait, ..s },
                KillAction::WaitMillis(SETTLE_MILLIS),
            ),
            (KillPhase::SettleWait, KillEvent::Waited) => (
                KillState { phase: KillPhase::FinalProbe, ..s },
                KillAction::Probe,
            ),
            (KillPhase::FinalProbe, KillEvent::Probed(alive)) => (
                done,
                KillAction::Finish(
                    Ok(
                        if alive {
                            KillOutcome::KillSentStillAlive
                        } else {
                            KillOutcome::TerminatedByKill
                        },
                    ),
                ),
            ),
            _ => (s, s.pending()),
        }
    }
}


/// Whatever the protocol, a process that is not alive at the first probe
/// ends the run with a not-found failure, and no signal is ever asked for.
pub proof fn lemma_missing_process_gets_no_signal(pid: u32, mode: KillMode)
    ensures
        spec_step(KillState { pid, mode, phase: KillPhase::Probing }, KillEvent::Probed(false))
            == (KillState { pid, mode, phase: KillPhase::Done }, KillAction::Finish(
            Err(ProcessError::NotFound { pid }),
        )),
{
}

/// Decimal text of a signed number.
pub open spec fn signed_decimal(n: int) -> Seq<char> {
    if n < 0 {
        "-"@ + decimal((-n) as nat)
    } else {
        decimal(n as nat)
    }
}

fn signed_decimal_text(n: i32) -> (r: String)
    ensures
        r@ == signed_decimal(n as int),
{
    if n < 0 {
        let mut s = String::from_str("-");
        let m: u64 = (-(n as i64)) as u64;
        let d = decimal_text(m);
        s.append(d.as_str());
        s
    } else {
        decimal_text(n as u64)
    }
}

/// The text shown for a failure.
pub open spec fn error_message(e: ProcessError) -> Seq<char> {
    match e {
        ProcessError::NotFound { pid } => "Process "@ + decimal(pid as nat) + " does not exist"@,
        ProcessError::InvalidPid { pid } => "Invalid process id "@ + decimal(pid as nat),
        ProcessError::SignalFailed { pid, signal, errno } => "Failed to send signal "@
            + signal_name(signal) + " to process "@ + decimal(pid as nat) + ": OS error "@
            + signed_decimal(errno as int),
        ProcessError::UnsupportedSignal { signal_num } => "Unsupported signal number: "@
            + signed_decimal(signal_num as int),
    }
}

impl ProcessError {
    /// The failure as one line of text (see `error_message`).
    pub fn message(&self) -> (r: String)
        ensures
            r@ == error_message(*self),
    {
        match self {
            ProcessError::NotFound { pid } => {
                let mut m = String::from_str("Process ");
                let p = decimal_text(*pid as u64);
                m.append(p.as_str());
                m.append(" does not exist");
                m
            },
            ProcessError::InvalidPid { pid } => {
                let mut m = String::from_str("Invalid process id ");
                let p = decimal_text(*pid as u64);
                m.append(p.as_str());
                m
            },
            ProcessError::SignalFailed { pid, signal, errno } => {
                let mut m = String::from_str("Failed to send signal ");
                m.append(signal.name());
                m.append(" to process ");
                let p = decimal_text(*pid as u64);
                m.append(p.as_str());
                m.append(": OS error ");
                let e = signed_decimal_text(*errno);
                m.append(e.as_str());
                m
            },
            ProcessError::UnsupportedSignal { signal_num } => {
                let mut m = String::from_str("Unsupported signal number: ");
                let n = signed_decimal_text(*signal_num);
                m.append(n.as_str());
                m
            },
        }
    }
}

/// The status line reported for a finished run.
pub open spec fn outcome_message(pid: u32, o: KillOutcome) -> Seq<char> {
    match o {
        KillOutcome::Delivered(sig) => "Sent "@ + signal_name(sig) + " to process "@ + decimal(
            pid as nat,
        ),
        KillOutcome::TerminatedGracefully => "Process "@ + decimal(pid as nat)
            + " terminated gracefully (SIGTERM)"@,
        KillOutcome::TerminatedByKill => "Process "@ + decimal(pid as nat)
            + " terminated (escalated to SIGKILL)"@,
        KillOutcome::KillSentStillAlive => "Sent SIGKILL to process "@ + decimal(pid as nat)
            + " (escalated from SIGTERM)"@,
    }
}

impl KillOutcome {
    /// The status line for this outcome on `pid` (see `outcome_message`).
    pub fn message(&self, pid: u32) -> (r: String)
        ensures
            r@ == outcome_message(pid, *self),
    {
        let p = decimal_text(pid as u64);
        match self {
            KillOutcome::Delivered(sig) => {
                let mut m = String::from_str("Sent ");
                m.append(sig.name());
                m.append(" to process ");
                m.append(p.as_str());
                m
            },
            KillOutcome::TerminatedGracefully => {
                let mut m = String::from_str("Process ");
                m.append(p.as_str());
                m.append(" terminated gracefully (SIGTERM)");
                m
            },
            KillOutcome::TerminatedByKill => {
                let mut m = String::from_str("Process ");
                m.append(p.as_str());
                m.append(" terminated (escalated to SIGKILL)");
                m
            },
            KillOutcome::KillSentStillAlive => {
                let mut m = String::from_str("Sent SIGKILL to process ");
                m.append(p.as_str());
                m.append(" (escalated from SIGTERM)");
                m
            },
        }
    }
}

/// The result of sending `sig` to `pid` once a liveness probe answered
/// `alive`: a process that was not alive is not found (and nothing is
/// sent); a pid that cannot name one process is refused; otherwise the
/// result is the delivery's: `msg` on success, or the OS failure.
pub open spec fn single_signal_outcome(
    pid: u32,
    sig: Signal,
    alive: bool,
    r: Result<String, ProcessError>,
    msg: Seq<char>,
) -> bool {
    if !alive {
        r is Err && r->Err_0 == (ProcessError::NotFound { pid })
    } else if pid == 0 || pid > i32::MAX {
        r is Err && r->Err_0 == (ProcessError::InvalidPid { pid })
    } else {
        match r {
            Ok(s) => s@ == msg,
            Err(e) => exists|errno: i32| e == (ProcessError::SignalFailed { pid, signal: sig, errno }),
        }
    }
}

/// The rest of a single-signal run once the liveness probe has answered
/// `alive` (see `single_signal_outcome`): a live process is never reported
/// as missing, and the send is reached only when it was alive.
pub fn signal_if_alive(pid: u32, mode: KillMode, alive: bool) -> (r: Result<String, ProcessError>)
    requires
        mode != KillMode::Escalate,
    ensures
        single_signal_outcome(
            pid,
            first_signal(mode),
            alive,
            r,
            outcome_message(pid, KillOutcome::Delivered(first_signal(mode))),
        ),
{
    let (st, _) = KillState::start(pid, mode);
    let (st, act) = st.step(KillEvent::Probed(alive));
    match act {
        KillAction::Send(sig) => {
            let sent = send_signal_to_process(pid, sig);
            let (_, act) = st.step(KillEvent::Sent(sent));
            match act {
                KillAction::Finish(Ok(o)) => Ok(o.message(pid)),
                KillAction::Finish(Err(e)) => Err(e),
                _ => {
                    proof {
                        assert(false);
                    }
                    Err(ProcessError::NotFound { pid })
                },
            }
        },
        KillAction::Finish(Err(e)) => Err(e),
        _ => {
            proof {
                assert(false);
            }
            Err(ProcessError::NotFound { pid })
        },
    }
}

/// Sends only the graceful signal (SIGTERM), after probing that the process
/// is alive; a process that is not there is reported without sending
/// anything. The probe's answer depends on the system, so the result is
/// the one `single_signal_outcome` gives for some answer.
pub fn terminate(pid: u32) -> (r: Result<String, ProcessError>)
    ensures
        exists|alive: bool|
            single_signal_outcome(
                pid,
                Signal::Term,
                alive,
                r,
                outcome_message(pid, KillOutcome::Delivered(Signal::Term)),
            ),
        (pid == 0 || pid > i32::MAX) ==> r is Err,
        r is Err && r->Err_0 is InvalidPid ==> (pid == 0 || pid > i32::MAX),
{
    let alive = process_exists(pid);
    signal_if_alive(pid, KillMode::GracefulOnly, alive)
}

/// Sends only the forceful signal (SIGKILL), without waiting, after
/// probing that the process is alive (see `terminate`).
pub fn force_kill(pid: u32) -> (r: Result<String, ProcessError>)
    ensures
        exists|alive: bool|
            single_signal_outcome(
                pid,
                Signal::Kill,
                alive,
                r,
                outcome_message(pid, KillOutcome::Delivered(Signal::Kill)),
            ),
        (pid == 0 || pid > i32::MAX) ==> r is Err,
        r is Err && r->Err_0 is InvalidPid ==> (pid == 0 || pid > i32::MAX),
{
    let alive = process_exists(pid);
    signal_if_alive(pid, KillMode::ForcefulOnly, alive)
}

pub open spec fn custom_signal_message(pid: u32, signal_num: i32) -> Seq<char> {
    "Sent signal "@ + decimal(signal_num as nat) + " to process "@ + decimal(pid as nat)
}

/// The result of sending signal number `signal_num` to `pid` once a
/// liveness probe answered `alive`: not found first, then an unsupported
/// number, then as `single_signal_outcome`.
pub open spec fn custom_signal_outcome(
    pid: u32,
    signal_num: i32,
    alive: bool,
    r: Result<String, ProcessError>,
) -> bool {
    if alive && spec_signal_from_number(signal_num) is None {
        r is Err && r->Err_0 == (ProcessError::UnsupportedSignal { signal_num })
    } else {
        single_signal_outcome(
            pid,
            spec_signal_from_number(signal_num)->0,
            alive,
            r,
            custom_signal_message(pid, signal_num),
        )
    }
}

/// Sends signal number `signal_num` (one of 1, 2, 9, 10, 12, 15, 18, 19)
/// once a probe answered `alive` (see `custom_signal_outcome`).
pub fn custom_signal_if_alive(pid: u32, signal_num: i32, alive: bool) -> (r: Result<
    String,
    ProcessError,
>)
    ensures
        custom_signal_outcome(pid, signal_num, alive, r),
{
    if !alive {
        return Err(ProcessError::NotFound { pid });
    }
    let sig = match signal_from_number(signal_num) {
        Some(s) => s,
        None => {
            return Err(ProcessError::UnsupportedSignal { signal_num });
        },
    };
    match send_signal_to_process(pid, sig) {
        Ok(()) => {
            let mut m = String::from_str("Sent signal ");
            let n = decimal_text(signal_num as u64);
            m.append(n.as_str());
            m.append(" to process ");
            let p = decimal_text(pid as u64);
            m.append(p.as_str());
            Ok(m)
        },
        Err(e) => Err(e),
    }
}

/// Sends signal number `signal_num` to a live process, after probing it
/// (see `custom_signal_outcome`, for some answer of the probe).
pub fn send_custom_signal(pid: u32, signal_num: i32) -> (r: Result<String, ProcessError>)
    ensures
        exists|alive: bool| custom_signal_outcome(pid, signal_num, alive, r),
        r is Err && r->Err_0 is InvalidPid ==> (pid == 0 || pid > i32::MAX),
{
    let alive = process_exists(pid);
    custom_signal_if_alive(pid, signal_num, alive)
}

} // verus!
