//! Shutting a VM down. Pressing Ctrl-] (or sending SIGTERM, SIGHUP or SIGINT)
//! asks the guest to shut down; doing it again, or the guest not reacting in
//! time, stops the VM forcibly.
use vstd::prelude::*;
use vstd::string::*;

use crate::foreign::text_of;
use crate::path::UnixPath;

verus! {

/// How long to wait for the guest to shut down after asking it to, in
/// nanoseconds: 30 seconds.
pub const STOP_TIMEOUT: u64 = 30_000_000_000;

pub const STARTING: &'static str = "VM starting. Press Ctrl-] to shut it down.";

pub const SHUTTING_DOWN: &'static str = "Shutting down. Press Ctrl-] again to force.";

pub const FORCING: &'static str = "Forcing the VM off.";

/// A status line to print between guest output.
pub fn notice(message: &str) -> (s: String)
    ensures
        s@ == "\r\n[send_it] "@ + message@ + "\r\n"@,
{
    "\r\n[send_it] ".to_owned().concat(message).concat("\r\n")
}

/// Why a VM can't be started.
#[derive(Debug)]
pub enum StartError {
    NotMainThread,
    Unsupported,
    NoDisk(UnixPath),
}

impl StartError {
    pub open spec fn text(self) -> Seq<char> {
        match self {
            StartError::NotMainThread => "vm::run must be called on the main thread"@,
            StartError::Unsupported => "virtualization is not supported on this Mac"@,
            StartError::NoDisk(disk) => text_of(disk@) + " does not exist"@,
        }
    }

    /// What went wrong, for people.
    pub fn message(&self) -> (s: String)
        ensures
            s@ == self.text(),
    {
        match self {
            StartError::NotMainThread => "vm::run must be called on the main thread".to_owned(),
            StartError::Unsupported => "virtualization is not supported on this Mac".to_owned(),
            StartError::NoDisk(disk) => disk.display().concat(" does not exist"),
        }
    }
}

/// Checks what a VM needs to start. It runs on the main dispatch queue, which
/// only the main thread drains.
pub fn check_start(main_thread: bool, supported: bool, disk_exists: bool, disk: &UnixPath) -> (r:
    Result<(), StartError>)
    ensures
        r is Ok <==> main_thread && supported && disk_exists,
        r is Err ==> (r->Err_0 is NotMainThread <==> !main_thread),
        r is Err ==> (r->Err_0 is Unsupported <==> main_thread && !supported),
        r is Err ==> (r->Err_0 is NoDisk <==> main_thread && supported),
        r is Err && r->Err_0 is NoDisk ==> r->Err_0->NoDisk_0@ == disk@,
{
    if !main_thread {
        Err(StartError::NotMainThread)
    } else if !supported {
        Err(StartError::Unsupported)
    } else if !disk_exists {
        Err(StartError::NoDisk(disk.clone()))
    } else {
        Ok(())
    }
}

/// How far shutting down has come.
#[derive(Clone, Copy, Debug, PartialEq, Eq, Structural)]
pub enum Stopping {
    No,
    /// The guest was asked to shut down at this time.
    Requested(u64),
    Forced,
}

/// A running VM, as far as shutting it down goes.
#[derive(Clone, Copy, Debug, PartialEq, Eq, Structural)]
pub struct Run {
    /// How many times the escape key was pressed or a signal came, as of the
    /// last look.
    pub seen_escapes: u128,
    pub stopping: Stopping,
}

/// What is to be done with a running VM.
#[derive(Clone, Copy, Debug, PartialEq, Eq, Structural)]
pub enum Action {
    /// Nothing.
    Wait,
    /// Ask the guest to shut down, and say how that went.
    Request,
    /// Stop the VM forcibly.
    Force,
}

/// How a VM's run ended.
#[derive(Debug)]
pub enum Ended {
    /// It could not be started, for this reason.
    NotStarted(String),
    /// The guest stopped.
    Cleanly,
    /// It stopped with this error.
    WithError(String),
}

/// How a run has ended, given the error that starting it gave, if any, and
/// how it stopped, if it did. It goes on otherwise.
pub fn ended(start_error: Option<String>, stopped: Option<Result<(), String>>) -> (r: Option<
    Ended,
>)
    ensures
        match start_error {
            Some(error) => r == Some(Ended::NotStarted(error)),
            None => match stopped {
                None => r is None,
                Some(Ok(_)) => r == Some(Ended::Cleanly),
                Some(Err(error)) => r == Some(Ended::WithError(error)),
            },
        },
{
    match start_error {
        Some(error) => Some(Ended::NotStarted(error)),
        None => match stopped {
            None => None,
            Some(Ok(())) => Some(Ended::Cleanly),
            Some(Err(error)) => Some(Ended::WithError(error)),
        },
    }
}

/// Why a VM's run failed.
#[derive(Debug)]
pub struct RunError {
    /// What went wrong, for people.
    pub message: String,
    pub reason: String,
}

impl Ended {
    /// What to make of the end of a run: an error unless the guest stopped.
    pub fn outcome(self) -> (r: Result<(), RunError>)
        ensures
            match self {
                Ended::Cleanly => r is Ok,
                Ended::NotStarted(reason) => r is Err && r->Err_0.message@ == "starting the VM"@
                    && r->Err_0.reason == reason,
                Ended::WithError(reason) => r is Err && r->Err_0.message@
                    == "the VM stopped with an error"@ && r->Err_0.reason == reason,
            },
    {
        match self {
            Ended::Cleanly => Ok(()),
            Ended::NotStarted(reason) => Err(
                RunError { message: "starting the VM".to_owned(), reason },
            ),
            Ended::WithError(reason) => Err(
                RunError { message: "the VM stopped with an error".to_owned(), reason },
            ),
        }
    }
}

/// Whether waiting for the guest since `at` has taken too long at `now`.
pub open spec fn overdue(at: u64, now: u64) -> bool {
    now - at > STOP_TIMEOUT
}

/// What is to be done after looking at the escapes so far at time `now`.
pub open spec fn action_of(run: Run, escapes: nat, now: u64) -> Action {
    let escaped = escapes > run.seen_escapes;
    match run.stopping {
        Stopping::No => if escaped {
            Action::Request
        } else {
            Action::Wait
        },
        Stopping::Requested(at) => if escaped || overdue(at, now) {
            Action::Force
        } else {
            Action::Wait
        },
        Stopping::Forced => Action::Wait,
    }
}

/// How far shutting down has come then. `granted` is whether the guest could
/// be asked, if it was to be.
pub open spec fn stopping_of(run: Run, escapes: nat, now: u64, granted: bool) -> Stopping {
    match action_of(run, escapes, now) {
        Action::Wait => run.stopping,
        Action::Request => if granted {
            Stopping::Requested(now)
        } else {
            Stopping::Forced
        },
        Action::Force => Stopping::Forced,
    }
}

impl Run {
    /// A VM that was just started.
    pub fn new() -> (r: Self)
        ensures
            r == (Run { seen_escapes: 0, stopping: Stopping::No }),
    {
        Run { seen_escapes: 0, stopping: Stopping::No }
    }

    /// Looks at the presses of the escape key on the console and the signals
    /// so far, at time `now`. After `Request`, `requested` says how it went.
    pub fn step(&mut self, console: usize, signals: usize, now: u64) -> (action: Action)
        ensures
            action == action_of(*old(self), (console + signals) as nat, now),
            final(self).seen_escapes == console + signals,
            action is Request ==> final(self).stopping == old(self).stopping,
            action !is Request ==> final(self).stopping == stopping_of(
                *old(self),
                (console + signals) as nat,
                now,
                false,
            ),
    {
        let escapes = console as u128 + signals as u128;
        let escaped = escapes > self.seen_escapes;
        self.seen_escapes = escapes;
        match self.stopping {
            Stopping::No => if escaped {
                Action::Request
            } else {
                Action::Wait
            },
            Stopping::Requested(at) => if escaped || (now > at && now - at > STOP_TIMEOUT) {
                self.stopping = Stopping::Forced;
                Action::Force
            } else {
                Action::Wait
            },
            Stopping::Forced => Action::Wait,
        }
    }

    /// The guest was asked to shut down at time `now`, and `granted` says
    /// whether it could be. If it could not, the VM must be stopped forcibly.
    pub fn requested(&mut self, granted: bool, now: u64) -> (force: bool)
        ensures
            force == !granted,
            final(self).seen_escapes == old(self).seen_escapes,
            final(self).stopping == (if granted {
                Stopping::Requested(now)
            } else {
                Stopping::Forced
            }),
    {
        if granted {
            self.stopping = Stopping::Requested(now);
            false
        } else {
            self.stopping = Stopping::Forced;
            true
        }
    }
}

// ---------------------------------------------------------------------------
// Laws
// ---------------------------------------------------------------------------

/// One look at a running VM.
pub struct Look {
    /// Escapes so far.
    pub escapes: nat,
    pub now: u64,
    /// Whether the guest can be asked to shut down.
    pub granted: bool,
}

/// The run after the first `n` of `looks`.
pub open spec fn run_after(looks: Seq<Look>, n: nat) -> Run
    decreases n,
{
    if n == 0 {
        Run { seen_escapes: 0, stopping: Stopping::No }
    } else {
        let run = run_after(looks, (n - 1) as nat);
        let look = looks[n - 1];
        Run {
            seen_escapes: look.escapes as u128,
            stopping: stopping_of(run, look.escapes, look.now, look.granted),
        }
    }
}

/// What is done at look `i`.
pub open spec fn done_at(looks: Seq<Look>, i: int) -> Action {
    action_of(run_after(looks, i as nat), looks[i].escapes, looks[i].now)
}

/// Whether the VM is stopped forcibly at look `i`: because it is to be, or
/// because the guest can't be asked.
pub open spec fn forced_at(looks: Seq<Look>, i: int) -> bool {
    done_at(looks, i) is Force || (done_at(looks, i) is Request && !looks[i].granted)
}

proof fn lemma_progress(looks: Seq<Look>, n: nat, m: nat)
    requires
        n <= m <= looks.len(),
    ensures
        run_after(looks, n).stopping is Forced ==> run_after(looks, m).stopping is Forced,
        run_after(looks, n).stopping is Requested ==> run_after(looks, m).stopping !is No,
    decreases m - n,
{
    if n < m {
        lemma_progress(looks, n, (m - 1) as nat);
    }
}

/// In a run, the guest is asked to shut down at most once, the VM is stopped
/// forcibly at most once, and nothing is done after that.
pub proof fn law_stops_once(looks: Seq<Look>, i: int, j: int)
    requires
        0 <= i < j < looks.len(),
    ensures
        done_at(looks, i) is Request ==> done_at(looks, j) !is Request,
        forced_at(looks, i) ==> done_at(looks, j) is Wait,
{
    lemma_progress(looks, (i + 1) as nat, j as nat);
}

/// The VM is not stopped forcibly before the guest was asked to shut down,
/// unless it can't be asked.
pub proof fn law_asks_first(looks: Seq<Look>, j: int) -> (i: int)
    requires
        0 <= j < looks.len(),
        done_at(looks, j) is Force,
    ensures
        0 <= i < j,
        done_at(looks, i) is Request,
        looks[i].granted,
        run_after(looks, j as nat).stopping == Stopping::Requested(looks[i].now),
        looks[j].escapes > run_after(looks, j as nat).seen_escapes || overdue(
            looks[i].now,
            looks[j].now,
        ),
{
    lemma_asked(looks, j as nat)
}

proof fn lemma_asked(looks: Seq<Look>, n: nat) -> (i: int)
    requires
        n <= looks.len(),
        run_after(looks, n).stopping is Requested,
    ensures
        0 <= i < n,
        done_at(looks, i) is Request,
        looks[i].granted,
        run_after(looks, n).stopping == Stopping::Requested(looks[i].now),
    decreases n,
{
    let run = run_after(looks, (n - 1) as nat);
    if run.stopping is Requested {
        lemma_asked(looks, (n - 1) as nat)
    } else {
        n - 1
    }
}

/// A press of the escape key is never lost: while the VM runs on and has not
/// been stopped forcibly, the first one asks the guest, and one more forces.
pub proof fn law_escapes_act(run: Run, escapes: nat, now: u64)
    requires
        escapes > run.seen_escapes,
    ensures
        run.stopping is No ==> action_of(run, escapes, now) is Request,
        run.stopping is Requested ==> action_of(run, escapes, now) is Force,
{
}

} // verus!
