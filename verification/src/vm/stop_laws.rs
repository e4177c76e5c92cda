//! When a VM is shut down, and when it is not.
use vstd::prelude::*;

use super::stop::{action_of, overdue, stopping_of, Run, Stopping};

verus! {

/// Nothing is done without a reason: neither while nobody has asked and
/// nothing was pressed, nor while the guest has been shutting down for no more
/// than 30 seconds, nor once the VM was stopped forcibly.
pub proof fn law_waits(run: Run, escapes: nat, now: u64)
    ensures
        escapes <= run.seen_escapes && run.stopping is No ==> action_of(run, escapes, now) is Wait,
        escapes <= run.seen_escapes && run.stopping is Requested && now
            <= run.stopping->Requested_0 + 30000000000 ==> action_of(run, escapes, now) is Wait,
        run.stopping is Forced ==> action_of(run, escapes, now) is Wait,
{
}

/// A guest that has not shut down after more than 30 seconds is stopped
/// forcibly.
pub proof fn law_patience_ends(run: Run, escapes: nat, now: u64)
    requires
        run.stopping is Requested,
        now > run.stopping->Requested_0 + 30000000000,
    ensures
        action_of(run, escapes, now) is Force,
        overdue(run.stopping->Requested_0, now),
{
}

/// Asking the guest starts the wait if it can be asked, and forces otherwise;
/// forcing is final; waiting changes nothing.
pub proof fn law_what_is_done_counts(run: Run, escapes: nat, now: u64, granted: bool)
    ensures
        action_of(run, escapes, now) is Request && granted ==> stopping_of(
            run,
            escapes,
            now,
            granted,
        ) == Stopping::Requested(now),
        action_of(run, escapes, now) is Request && !granted ==> stopping_of(
            run,
            escapes,
            now,
            granted,
        ) is Forced,
        action_of(run, escapes, now) is Force ==> stopping_of(run, escapes, now, granted)
            is Forced,
        action_of(run, escapes, now) is Wait ==> stopping_of(run, escapes, now, granted)
            == run.stopping,
{
}

} // verus!
