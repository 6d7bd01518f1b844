//! Job object for the sandbox helper.
//!
//! The helper assigns the sandboxed child to a Job object configured with
//! `JOB_OBJECT_LIMIT_KILL_ON_JOB_CLOSE`. When the helper exits, whether it
//! finishes normally or is killed, the last handle to the job closes and the
//! kernel tears down the whole child process tree.

use vstd::prelude::*;

use crate::error::SandboxError;
use crate::token::{Outcome, OwnedHandle};
use crate::win32::{asking, close_handle, finishing, Call, NextView, Release, Reply, Step, StepView};

verus! {

/// The information class of a job's extended limits.
pub const JOB_OBJECT_EXTENDED_LIMIT_INFORMATION: i32 = 9;

pub const JOB_OBJECT_LIMIT_KILL_ON_JOB_CLOSE: u32 = 0x2000;

/// A Job object that kills all assigned processes when it (and the helper)
/// goes away.
#[derive(Debug, PartialEq, Eq)]
pub struct KillOnCloseJob {
    pub handle: OwnedHandle,
}

/// What comes of making a job.
pub type JobOutcome = Result<KillOnCloseJob, SandboxError>;

/// The making of a job, waiting for the answer to its last call.
#[derive(Debug, PartialEq, Eq)]
pub enum JobSetup {
    Creating,
    Limiting { handle: OwnedHandle },
}

/// The call that makes a job kill its processes when it closes.
pub open spec fn limit_job_call(job: usize) -> Call {
    Call::SetInformationJobObject {
        job,
        class: JOB_OBJECT_EXTENDED_LIMIT_INFORMATION,
        limit_flags: JOB_OBJECT_LIMIT_KILL_ON_JOB_CLOSE,
    }
}

/// The first step of the making.
pub open spec fn job_start() -> StepView<JobSetup, JobOutcome> {
    asking(seq![], JobSetup::Creating, Call::CreateJobObject)
}

/// The step of the making that follows an answer.
pub open spec fn job_next(state: JobSetup, reply: Reply) -> StepView<JobSetup, JobOutcome> {
    match state {
        JobSetup::Creating => if reply.first != 0 {
            asking(seq![], JobSetup::Limiting { handle: OwnedHandle(reply.first) }, limit_job_call(reply.first))
        } else {
            finishing(seq![], Err(SandboxError::CreateJobObject { last_error: reply.last_error }))
        },
        JobSetup::Limiting { handle } => if reply.code != 0 {
            finishing(seq![], Ok(KillOnCloseJob { handle }))
        } else {
            finishing(
                close_handle(handle.0),
                Err(SandboxError::SetInformationJobObject { last_error: reply.last_error }),
            )
        },
    }
}

impl KillOnCloseJob {
    /// Starts to create a Job object configured to kill its processes on close.
    pub fn new() -> (r: Step<JobSetup, JobOutcome>)
        ensures
            r@ == job_start(),
    {
        Step::ask(JobSetup::Creating, Call::CreateJobObject)
    }

    /// The call that assigns a process to this job. The process should be
    /// created suspended so it can't spawn descendants outside the job before
    /// assignment.
    pub fn assign(&self, process: usize) -> (r: Call)
        ensures
            r == (Call::AssignProcessToJobObject { job: self.handle.0, process }),
    {
        Call::AssignProcessToJobObject { job: self.handle.raw(), process }
    }
}

/// What comes of an assignment.
pub open spec fn assignment(reply: Reply) -> Outcome {
    if reply.code != 0 {
        Ok(())
    } else {
        Err(SandboxError::AssignProcessToJobObject { last_error: reply.last_error })
    }
}

/// Whether [`KillOnCloseJob::assign`] succeeded.
pub fn assigned(reply: &Reply) -> (r: Outcome)
    ensures
        r == assignment(*reply),
{
    if reply.code == 0 {
        return Err(SandboxError::AssignProcessToJobObject { last_error: reply.last_error });
    }
    Ok(())
}

impl JobSetup {
    /// Goes on with the answer to the last call.
    pub fn resume(self, reply: &Reply) -> (r: Step<JobSetup, JobOutcome>)
        ensures
            r@ == job_next(self, *reply),
    {
        match self {
            JobSetup::Creating => {
                let handle = reply.first;
                if handle == 0 {
                    return Step::done(
                        Vec::new(),
                        Err(SandboxError::CreateJobObject { last_error: reply.last_error }),
                    );
                }
                Step::ask(
                    JobSetup::Limiting { handle: OwnedHandle::new(handle) },
                    Call::SetInformationJobObject {
                        job: handle,
                        class: JOB_OBJECT_EXTENDED_LIMIT_INFORMATION,
                        limit_flags: JOB_OBJECT_LIMIT_KILL_ON_JOB_CLOSE,
                    },
                )
            },
            JobSetup::Limiting { handle } => {
                if reply.code == 0 {
                    let mut releases: Vec<Release> = Vec::new();
                    handle.release(&mut releases);
                    assert(releases@ =~= close_handle(handle.0));
                    return Step::done(
                        releases,
                        Err(SandboxError::SetInformationJobObject { last_error: reply.last_error }),
                    );
                }
                Step::done(Vec::new(), Ok(KillOnCloseJob { handle }))
            },
        }
    }
}

/// How a job is made: it is created, and then told to kill its processes when
/// it closes. There is a job if and only if both succeed, and it is the one that
/// was created; one that cannot be told so is closed again.
pub proof fn law_job_is_made_to_kill(created: Reply, limited: Reply)
    ensures
        job_start().next matches NextView::Ask(state, request) && request.call is CreateJobObject && {
            let step = job_next(state, created);
            let last_error = created.last_error;
            if created.first == 0 {
                step.releases.len() == 0 && step.next == NextView::<JobSetup, JobOutcome>::Done(
                    Err(SandboxError::CreateJobObject { last_error }),
                )
            } else {
                &&& step.releases.len() == 0
                &&& step.next matches NextView::Ask(state, request)
                &&& request.call == (Call::SetInformationJobObject { job: created.first, class: 9, limit_flags: 0x2000 })
                &&& {
                    let last = job_next(state, limited);
                    let last_error = limited.last_error;
                    if limited.code == 0 {
                        last.releases == seq![Release::CloseHandle(created.first)] && last.next == NextView::<
                            JobSetup,
                            JobOutcome,
                        >::Done(Err(SandboxError::SetInformationJobObject { last_error }))
                    } else {
                        last.releases.len() == 0 && (last.next matches NextView::Done(Ok(job)) && job.handle.0
                            == created.first)
                    }
                }
            }
        },
{
}

/// A process is in the job if and only if the system says so.
pub proof fn law_assignment_is_reported(reply: Reply)
    ensures
        assignment(reply) is Ok <==> reply.code != 0,
        reply.code == 0 ==> assignment(reply) == Err::<(), _>(
            SandboxError::AssignProcessToJobObject { last_error: reply.last_error },
        ),
{
}

} // verus!
