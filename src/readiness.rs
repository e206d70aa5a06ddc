use vstd::prelude::*;
use vstd::string::*;

use crate::error::{ErrorKind, GmlError};

verus! {

/// How many status polls a new instance gets before provisioning gives up.
pub const POLL_ATTEMPTS: u32 = 60;

/// Seconds to wait between two status polls.
pub const POLL_INTERVAL_SECS: u64 = 10;

/// What one status poll reported: the address, if assigned, and the status.
#[derive(Debug, PartialEq, Eq)]
pub struct StatusReport {
    pub ip: Option<String>,
    pub status: String,
}

/// What to do after a status poll.
#[derive(Debug)]
pub enum PollStep {
    /// The instance is usable at this address.
    Ready(String),
    /// Poll again after this many seconds.
    Retry(u64),
    /// The bound is exhausted; the instance is left running.
    TimedOut(GmlError),
}

/// The decision of a poll, as a value of specification.
pub enum PollVerdict {
    Ready,
    Retry,
    TimedOut,
}

/// Readiness polling of one instance.
#[derive(Debug, PartialEq, Eq)]
pub struct ReadinessPoll {
    pub instance_id: String,
    /// Polls observed so far.
    pub attempts: u32,
}

/// Usable: an address is assigned and the status is "active", both at once.
pub open spec fn report_ready(r: StatusReport) -> bool {
    r.ip.is_some() && r.status@ == "active"@
}

/// The decision after a report, when `before` polls came earlier.
pub open spec fn verdict(before: nat, report: StatusReport) -> PollVerdict {
    if report_ready(report) {
        PollVerdict::Ready
    } else if before + 1 < POLL_ATTEMPTS {
        PollVerdict::Retry
    } else {
        PollVerdict::TimedOut
    }
}

/// The message of a poll that timed out: it names the instance and the bound.
pub open spec fn timeout_message(instance_id: Seq<char>) -> Seq<char> {
    "instance "@ + instance_id + " did not become active with an IP address after 10 minutes"@
}

/// The step carries out the verdict for the instance `instance_id`.
pub open spec fn step_follows(
    step: PollStep,
    v: PollVerdict,
    report: StatusReport,
    instance_id: Seq<char>,
) -> bool {
    match v {
        PollVerdict::Ready => step == PollStep::Ready(report.ip->Some_0),
        PollVerdict::Retry => step == PollStep::Retry(POLL_INTERVAL_SECS),
        PollVerdict::TimedOut => step matches PollStep::TimedOut(e) && e.kind == ErrorKind::Timeout
            && e.message@ == timeout_message(instance_id),
    }
}

/// Feeding `reports` one by one to a poll that has seen `before` reports: the
/// final verdict and how many polls were made by then. Running out of reports
/// while still retrying ends in `Retry`.
pub open spec fn poll_run(before: nat, reports: Seq<StatusReport>) -> (PollVerdict, nat)
    decreases reports.len(),
{
    if reports.len() == 0 {
        (PollVerdict::Retry, before)
    } else {
        match verdict(before, reports[0]) {
            PollVerdict::Retry => poll_run(before + 1, reports.drop_first()),
            v => (v, before + 1),
        }
    }
}

impl ReadinessPoll {
    /// A poll that has observed nothing yet.
    pub fn new(instance_id: String) -> (r: ReadinessPoll)
        ensures
            r.instance_id == instance_id,
            r.attempts == 0,
    {
        ReadinessPoll { instance_id, attempts: 0 }
    }

    /// No poll is left.
    pub fn exhausted(&self) -> (r: bool)
        ensures
            r == (self.attempts >= POLL_ATTEMPTS),
    {
        self.attempts >= POLL_ATTEMPTS
    }

    /// Takes the report of one poll and decides: ready when the address and the
    /// "active" status come together, else retry while polls are left, else time out.
    pub fn observe(&mut self, report: StatusReport) -> (r: PollStep)
        requires
            old(self).attempts < POLL_ATTEMPTS,
        ensures
            final(self).attempts == old(self).attempts + 1,
            final(self).instance_id == old(self).instance_id,
            step_follows(r, verdict(old(self).attempts as nat, report), report, old(self).instance_id@),
    {
        self.attempts = self.attempts + 1;
        let active = String::from_str("active");
        let is_active = report.status == active;
        match report.ip {
            Some(ip) => {
                if is_active {
                    return PollStep::Ready(ip);
                }
            },
            None => {},
        }
        if self.attempts < POLL_ATTEMPTS {
            PollStep::Retry(POLL_INTERVAL_SECS)
        } else {
            let message = String::from_str("instance ").concat(self.instance_id.as_str()).concat(
                " did not become active with an IP address after 10 minutes",
            );
            PollStep::TimedOut(GmlError::new(ErrorKind::Timeout, message))
        }
    }
}

proof fn lemma_poll_run_times_out(before: nat, reports: Seq<StatusReport>)
    requires
        before < POLL_ATTEMPTS,
        reports.len() >= POLL_ATTEMPTS - before,
        forall|i: int| 0 <= i < POLL_ATTEMPTS - before ==> !report_ready(#[trigger] reports[i]),
    ensures
        poll_run(before, reports) == (PollVerdict::TimedOut, POLL_ATTEMPTS as nat),
    decreases POLL_ATTEMPTS - before,
{
    assert(!report_ready(reports[0]));
    if before + 1 < POLL_ATTEMPTS {
        let rest = reports.drop_first();
        assert forall|i: int| 0 <= i < POLL_ATTEMPTS - (before + 1) implies !report_ready(
            #[trigger] rest[i],
        ) by {
            assert(rest[i] == reports[i + 1]);
        }
        lemma_poll_run_times_out(before + 1, rest);
    }
}

/// Readiness polling terminates: against a provider that never reports an
/// address together with the "active" status, a fresh poll times out after
/// exactly `POLL_ATTEMPTS` polls, neither sooner nor later.
pub proof fn law_polling_bounded(reports: Seq<StatusReport>)
    requires
        reports.len() >= POLL_ATTEMPTS,
        forall|i: int| 0 <= i < reports.len() ==> !report_ready(#[trigger] reports[i]),
    ensures
        poll_run(0, reports) == (PollVerdict::TimedOut, POLL_ATTEMPTS as nat),
{
    lemma_poll_run_times_out(0, reports);
}

} // verus!
