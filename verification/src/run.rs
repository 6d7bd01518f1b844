//! Whole runs of the helper.
//!
//! A run is what the helper says and what it is answered, from its start up to
//! some point. Most laws of the launcher are stated of runs.

use vstd::prelude::*;

use crate::capability::CapabilitySid;
use crate::launcher::{helper_next, helper_start, Helper, RunOutcome};
use crate::policy::SandboxPolicy;
use crate::win32::{Call, ExplicitAccess, NextView, PayloadView, Reply, StepView};

verus! {

/// The steps of a run, and the answers to the calls of all steps but the last.
pub struct Run {
    pub steps: Seq<StepView<Helper, RunOutcome>>,
    pub replies: Seq<Reply>,
}

impl Run {
    /// Whether this is how a run goes with these answers.
    pub open spec fn valid(self, policy: SandboxPolicy, sid: CapabilitySid) -> bool {
        &&& self.steps.len() == self.replies.len() + 1
        &&& self.steps[0] == helper_start(policy, sid)
        &&& forall|k: int| 0 <= k < self.replies.len() ==> #[trigger] self.follows(k)
    }

    /// Whether step `k` makes a call, and its answer leads to the next step.
    pub open spec fn follows(self, k: int) -> bool {
        self.steps[k].next matches NextView::Ask(state, _) && self.steps[k + 1] == helper_next(state, self.replies[k])
    }

    /// Whether step `k` makes a call, and that is the call.
    pub open spec fn asks(self, k: int, call: Call) -> bool {
        &&& 0 <= k < self.steps.len()
        &&& self.steps[k].next matches NextView::Ask(_, request)
        &&& request.call == call
    }

    /// Whether step `k` makes a call, and that is what it brings.
    pub open spec fn brings(self, k: int, payload: PayloadView) -> bool {
        &&& 0 <= k < self.steps.len()
        &&& self.steps[k].next matches NextView::Ask(_, request)
        &&& request.payload == payload
    }

    /// Whether step `k` merges one entry into an access list.
    pub open spec fn merges(self, k: int, old_acl: usize, entry: ExplicitAccess) -> bool {
        self.asks(k, Call::SetEntriesInAcl { old_acl }) && self.brings(k, PayloadView::Entries(seq![entry]))
    }

    /// Whether the call of step `k` has been answered.
    pub open spec fn answered(self, k: int) -> bool {
        0 <= k < self.replies.len()
    }

    /// Whether the run is over.
    pub open spec fn ended(self) -> bool {
        self.steps.last().next is Done
    }

    /// What came of a run that is over.
    pub open spec fn outcome(self) -> RunOutcome {
        self.steps.last().next->Done_0
    }
}

} // verus!
