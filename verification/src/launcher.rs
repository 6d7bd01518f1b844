//! The sandbox helper launcher.
//!
//! The helper reconstructs the sandbox from a policy, spawns the real command
//! as a restricted child, waits for it, and exits with the child's exit code.
//!
//! Process-tree teardown is handled by a kill-on-close Job object: if the
//! terminal layer kills the helper, the job's last handle closes and the kernel
//! kills the whole child tree.

use vstd::prelude::*;

use crate::acl::{edit_next, open_for_dacl_edit_call, revoke_ace, revoke_entry, DaclEdit, DaclOutcome, DaclStage};
use crate::capability::{random_capability_sid, CapabilitySid};
use crate::error::SandboxError;
use crate::job::{assigned, assignment, job_next, job_start, JobOutcome, JobSetup, KillOnCloseJob};
use crate::policy::{command_of, Command, SandboxPolicy};
use crate::process::{
    create_process_call, launch_payload, resumed, resumption, spawn_suspended, spawned, spawning, SpawnedChild,
};
use crate::restriction::{
    build_write_restriction, restriction_next, restriction_start, AceCleanup, Restriction, RestrictionOutcome,
    WriteRestriction,
};
use crate::token::OwnedHandle;
use crate::win32::{
    after, asking, bringing, close_handle, finishing, local_free, Call, Next, NextView, Release, Reply, SidRef, Step, StepView,
    INFINITE,
};

verus! {

/// Exit code returned when the helper itself fails before the child runs.
pub const HELPER_FAILURE_EXIT_CODE: i32 = 127;

/// What the exit code is preset to before the system is asked for it.
pub const EXIT_CODE_PRESET: u32 = 127;

/// What comes of a helper's run: the command's exit code, or why it did not
/// run.
pub type RunOutcome = Result<i32, SandboxError>;

/// A helper's run, waiting for the answer to its last call, with what it holds.
#[derive(Debug, PartialEq, Eq)]
pub enum Helper {
    MakingJob { policy: SandboxPolicy, sid: CapabilitySid, making: JobSetup },
    Restricting { job: KillOnCloseJob, command: Command, building: Restriction },
    Warning { job: KillOnCloseJob, command: Command },
    Spawning { job: KillOnCloseJob, restriction: Option<WriteRestriction> },
    Assigning { running: Running },
    Resuming { running: Running },
    Waiting { running: Running },
    ReadingExitCode { running: Running },
    Revoking { ending: Ending, at: usize, revoking: DaclEdit },
}

/// What the helper holds while there is a child.
#[derive(Debug, PartialEq, Eq)]
pub struct Running {
    pub job: KillOnCloseJob,
    pub restriction: Option<WriteRestriction>,
    pub child: SpawnedChild,
}

/// What the helper still holds while it revokes the ACEs, and what it will
/// return.
#[derive(Debug, PartialEq, Eq)]
pub struct Ending {
    pub job: KillOnCloseJob,
    pub cleanup: AceCleanup,
    pub token: Option<OwnedHandle>,
    pub child: Option<SpawnedChild>,
    pub outcome: RunOutcome,
}

/// The exit status that a 32-bit exit code stands for: the same bits, signed.
pub open spec fn exit_status(code: u32) -> int {
    if code < 0x8000_0000 {
        code as int
    } else {
        code - 0x1_0000_0000
    }
}

/// An exit status has the bits of the code: a code below 0x8000_0000 is its own
/// status, different codes have different statuses, and only the code 0 has the
/// status 0.
pub proof fn law_exit_status_keeps_bits(code: u32, other: u32)
    ensures
        i32::MIN <= exit_status(code) <= i32::MAX,
        (exit_status(code) as i32) as u32 == code,
        code <= i32::MAX ==> exit_status(code) == code,
        exit_status(code) == exit_status(other) ==> code == other,
        exit_status(code) == 0 <==> code == 0,
{
    let status = code as i32;
    assert(code >= 0x8000_0000u32 ==> (code as i32) as int == code - 0x1_0000_0000) by (bit_vector);
    assert((code as i32) as u32 == code) by (bit_vector);
    assert(status == exit_status(code));
}

/// Closes a child's handles.
pub open spec fn close_child(child: Option<SpawnedChild>) -> Seq<Release> {
    match child {
        Some(child) => close_handle(child.process.0) + close_handle(child.thread.0),
        None => seq![],
    }
}

/// Closes a token, if there is one.
pub open spec fn close_token(token: Option<OwnedHandle>) -> Seq<Release> {
    match token {
        Some(token) => close_handle(token.0),
        None => seq![],
    }
}

/// The step that creates the child, under the restricted token if there is one.
pub open spec fn spawn_step(
    job: KillOnCloseJob,
    restriction: Option<WriteRestriction>,
    command: Command,
) -> StepView<Helper, RunOutcome> {
    let token = match restriction {
        Some(r) => Some(r.token.0),
        None => None,
    };
    bringing(seq![], Helper::Spawning { job, restriction }, create_process_call(token), launch_payload(command@))
}

/// The step of the run that follows a step of the job's making. The write
/// restriction is built unless the policy opted out.
pub open spec fn helper_after_job(
    policy: SandboxPolicy,
    sid: CapabilitySid,
    step: StepView<JobSetup, JobOutcome>,
) -> StepView<Helper, RunOutcome> {
    match step.next {
        NextView::Ask(making, request) => StepView {
            releases: step.releases,
            next: NextView::Ask(Helper::MakingJob { policy, sid, making }, request),
        },
        NextView::Done(Err(error)) => finishing(step.releases, Err(error)),
        NextView::Done(Ok(job)) => if policy.allow_fs_write {
            after(step.releases, spawn_step(job, None, command_of(policy)))
        } else {
            helper_after_restriction(
                job,
                command_of(policy),
                after(step.releases, restriction_start(sid, policy.writable_directories)),
            )
        },
    }
}

/// The step of the run that follows a step of the restriction's building. On
/// any failure the command runs unrestricted, with a warning.
pub open spec fn helper_after_restriction(
    job: KillOnCloseJob,
    command: Command,
    step: StepView<Restriction, RestrictionOutcome>,
) -> StepView<Helper, RunOutcome> {
    match step.next {
        NextView::Ask(building, request) => StepView {
            releases: step.releases,
            next: NextView::Ask(Helper::Restricting { job, command, building }, request),
        },
        NextView::Done(Err(error)) => asking(
            step.releases,
            Helper::Warning { job, command },
            Call::WarnUnrestricted { error },
        ),
        NextView::Done(Ok(restriction)) => after(step.releases, spawn_step(job, Some(restriction), command)),
    }
}

/// The step that gives up a run whose command did not start: first the child's
/// handles, then the ACEs and the token, then the job.
pub open spec fn helper_failed(
    job: KillOnCloseJob,
    restriction: Option<WriteRestriction>,
    child: Option<SpawnedChild>,
    error: SandboxError,
) -> StepView<Helper, RunOutcome> {
    match restriction {
        None => finishing(close_child(child) + close_handle(job.handle.0), Err(error)),
        Some(r) => after(
            close_child(child),
            revoke_from(
                Ending { job, cleanup: r.cleanup, token: Some(r.token), child: None, outcome: Err(error) },
                0,
            ),
        ),
    }
}

/// The step that ends a run whose command has exited. The restricted token is
/// closed before the ACEs are revoked so no live token references the
/// capability SID.
pub open spec fn helper_exited(running: Running, status: i32) -> StepView<Helper, RunOutcome> {
    let job = running.job;
    let child = running.child;
    match running.restriction {
        None => finishing(close_child(Some(child)) + close_handle(job.handle.0), Ok(status)),
        Some(r) => after(
            close_handle(r.token.0),
            revoke_from(Ending { job, cleanup: r.cleanup, token: None, child: Some(child), outcome: Ok(status) }, 0),
        ),
    }
}

/// The step that revokes the ACE of the root of that place, or that gives
/// everything back where there is none.
pub open spec fn revoke_from(ending: Ending, place: int) -> StepView<Helper, RunOutcome> {
    if place < ending.cleanup.roots@.len() {
        let root = ending.cleanup.roots@[place];
        let entry = revoke_entry(SidRef::Pointer(ending.cleanup.cap_sid.psid));
        let revoking = DaclEdit { root, entry, stage: DaclStage::Opening };
        asking(
            seq![],
            Helper::Revoking { ending, at: place as usize, revoking },
            open_for_dacl_edit_call(root),
        )
    } else {
        finishing(
            local_free(ending.cleanup.cap_sid.psid) + close_token(ending.token) + close_child(ending.child)
                + close_handle(ending.job.handle.0),
            ending.outcome,
        )
    }
}

/// The step of the run that follows a step of an ACE's revocation, whose
/// outcome is ignored.
pub open spec fn helper_after_revocation(ending: Ending, at: usize, step: StepView<DaclEdit, DaclOutcome>) -> StepView<
    Helper,
    RunOutcome,
> {
    match step.next {
        NextView::Ask(revoking, request) => StepView {
            releases: step.releases,
            next: NextView::Ask(Helper::Revoking { ending, at, revoking }, request),
        },
        NextView::Done(_) => after(step.releases, revoke_from(ending, at + 1)),
    }
}

/// The first step of a run.
pub open spec fn helper_start(policy: SandboxPolicy, sid: CapabilitySid) -> StepView<Helper, RunOutcome> {
    helper_after_job(policy, sid, job_start())
}

/// The step of the run that follows an answer.
pub open spec fn helper_next(state: Helper, reply: Reply) -> StepView<Helper, RunOutcome> {
    match state {
        Helper::MakingJob { policy, sid, making } => helper_after_job(policy, sid, job_next(making, reply)),
        Helper::Restricting { job, command, building } => helper_after_restriction(
            job,
            command,
            restriction_next(building, reply),
        ),
        Helper::Warning { job, command } => spawn_step(job, None, command),
        Helper::Spawning { job, restriction } => match spawning(reply) {
            Err(error) => helper_failed(job, restriction, None, error),
            Ok(child) => asking(
                seq![],
                Helper::Assigning { running: Running { job, restriction, child } },
                Call::AssignProcessToJobObject { job: job.handle.0, process: child.process.0 },
            ),
        },
        Helper::Assigning { running } => match assignment(reply) {
            Err(error) => helper_failed(running.job, running.restriction, Some(running.child), error),
            Ok(_) => asking(
                seq![],
                Helper::Resuming { running },
                Call::ResumeThread { thread: running.child.thread.0 },
            ),
        },
        Helper::Resuming { running } => match resumption(reply) {
            Err(error) => helper_failed(running.job, running.restriction, Some(running.child), error),
            Ok(_) => asking(
                seq![],
                Helper::Waiting { running },
                Call::WaitForSingleObject { handle: running.child.process.0, timeout: INFINITE },
            ),
        },
        Helper::Waiting { running } => asking(
            seq![],
            Helper::ReadingExitCode { running },
            Call::GetExitCodeProcess { process: running.child.process.0, preset: EXIT_CODE_PRESET },
        ),
        Helper::ReadingExitCode { running } => helper_exited(running, exit_status(reply.code) as i32),
        Helper::Revoking { ending, at, revoking } => helper_after_revocation(
            ending,
            at,
            edit_next(revoking, reply),
        ),
    }
}

/// Starts the run of a policy's command, with a capability SID of its own.
pub fn run_with(policy: SandboxPolicy, sid: CapabilitySid) -> (r: Step<Helper, RunOutcome>)
    ensures
        r@ == helper_start(policy, sid),
{
    Helper::after_job(policy, sid, KillOnCloseJob::new())
}

/// Starts the run of a policy's command, with a fresh random capability SID
/// where the command's writes are restricted. Without a policy there is nothing
/// to run, and no call is made.
pub fn run(policy: Result<SandboxPolicy, SandboxError>) -> (r: Step<Helper, RunOutcome>)
    ensures
        match policy {
            Ok(policy) => exists|sid: CapabilitySid| r@ == #[trigger] helper_start(policy, sid),
            Err(error) => r@ == finishing::<Helper, RunOutcome>(seq![], Err(error)),
        },
{
    match policy {
        Ok(policy) => {
            let sid = if policy.allow_fs_write {
                // No SID is minted then.
                CapabilitySid { a: 0, b: 0, c: 0, d: 0 }
            } else {
                random_capability_sid()
            };
            run_with(policy, sid)
        },
        Err(error) => Step::done(Vec::new(), Err(error)),
    }
}

/// The exit status that an exit code stands for.
pub fn exit_code(code: u32) -> (r: i32)
    ensures
        r == exit_status(code),
        r as u32 == code,
{
    assert((code as i32) as u32 == code) by (bit_vector);
    assert(code >= 0x8000_0000u32 ==> (code as i32) as int == code - 0x1_0000_0000) by (bit_vector);
    code as i32
}

fn release_child(child: Option<SpawnedChild>, releases: &mut Vec<Release>)
    ensures
        final(releases)@ == old(releases)@ + close_child(child),
{
    let ghost before = releases@;
    if let Some(SpawnedChild { process, thread }) = child {
        process.release(releases);
        thread.release(releases);
    }
    assert(releases@ =~= before + close_child(child));
}

impl Helper {
    fn after_job(policy: SandboxPolicy, sid: CapabilitySid, step: Step<JobSetup, JobOutcome>) -> (r: Step<
        Helper,
        RunOutcome,
    >)
        ensures
            r@ == helper_after_job(policy, sid, step@),
    {
        let releases = step.releases;
        match step.next {
            Next::Ask(making, request) => {
                Step { releases, next: Next::Ask(Helper::MakingJob { policy, sid, making }, request) }
            },
            Next::Done(Err(error)) => Step::done(releases, Err(error)),
            Next::Done(Ok(job)) => {
                let SandboxPolicy { program, args, writable_directories, allow_fs_write, .. } = policy;
                let command = Command { program, args };
                if allow_fs_write {
                    Helper::spawn(job, None, command).after(releases)
                } else {
                    let building = build_write_restriction(sid, writable_directories);
                    Helper::after_restriction(job, command, building.after(releases))
                }
            },
        }
    }

    fn after_restriction(
        job: KillOnCloseJob,
        command: Command,
        step: Step<Restriction, RestrictionOutcome>,
    ) -> (r: Step<Helper, RunOutcome>)
        ensures
            r@ == helper_after_restriction(job, command, step@),
    {
        let releases = step.releases;
        match step.next {
            Next::Ask(building, request) => {
                Step { releases, next: Next::Ask(Helper::Restricting { job, command, building }, request) }
            },
            Next::Done(Err(error)) => {
                // A non-NTFS volume or a restrictive corporate ACL policy must
                // not make the terminal tool unusable.
                Step::ask_after(releases, Helper::Warning { job, command }, Call::WarnUnrestricted { error })
            },
            Next::Done(Ok(restriction)) => Helper::spawn(job, Some(restriction), command).after(releases),
        }
    }

    fn spawn(job: KillOnCloseJob, restriction: Option<WriteRestriction>, command: Command) -> (r: Step<
        Helper,
        RunOutcome,
    >)
        ensures
            r@ == spawn_step(job, restriction, command),
    {
        let token = match &restriction {
            Some(r) => Some(r.token.raw()),
            None => None,
        };
        let argv = command.argv();
        let request = spawn_suspended(token, &argv);
        let step = Step { releases: Vec::new(), next: Next::Ask(Helper::Spawning { job, restriction }, request) };
        assert(step@ =~~= spawn_step(job, restriction, command));
        step
    }

    fn failed(
        job: KillOnCloseJob,
        restriction: Option<WriteRestriction>,
        child: Option<SpawnedChild>,
        error: SandboxError,
    ) -> (r: Step<Helper, RunOutcome>)
        ensures
            r@ == helper_failed(job, restriction, child, error),
    {
        let mut releases: Vec<Release> = Vec::new();
        release_child(child, &mut releases);
        assert(releases@ =~= close_child(child));
        match restriction {
            None => {
                job.handle.release(&mut releases);
                Step::done(releases, Err(error))
            },
            Some(WriteRestriction { token, cleanup }) => {
                let ending = Ending { job, cleanup, token: Some(token), child: None, outcome: Err(error) };
                Helper::revoke(ending, 0).after(releases)
            },
        }
    }

    fn exited(running: Running, status: i32) -> (r: Step<Helper, RunOutcome>)
        ensures
            r@ == helper_exited(running, status),
    {
        let Running { job, restriction, child } = running;
        let mut releases: Vec<Release> = Vec::new();
        match restriction {
            None => {
                release_child(Some(child), &mut releases);
                job.handle.release(&mut releases);
                assert(releases@ =~= close_child(Some(child)) + close_handle(job.handle.0));
                Step::done(releases, Ok(status))
            },
            Some(WriteRestriction { token, cleanup }) => {
                token.release(&mut releases);
                assert(releases@ =~= close_handle(token.0));
                let ending = Ending { job, cleanup, token: None, child: Some(child), outcome: Ok(status) };
                Helper::revoke(ending, 0).after(releases)
            },
        }
    }

    fn revoke(ending: Ending, place: usize) -> (r: Step<Helper, RunOutcome>)
        ensures
            r@ == revoke_from(ending, place as int),
        decreases ending.cleanup.roots@.len() - place, 1int,
    {
        match ending.cleanup.roots.directory(place) {
            Some(root) => {
                let step = revoke_ace(root, SidRef::Pointer(ending.cleanup.cap_sid.as_ptr()));
                Helper::after_revocation(ending, place, step)
            },
            None => Helper::finish(ending),
        }
    }

    fn finish(ending: Ending) -> (r: Step<Helper, RunOutcome>)
        ensures
            r@ == revoke_from(ending, ending.cleanup.roots@.len() as int),
    {
        let ghost all = ending;
        let Ending { job, cleanup, token, child, outcome } = ending;
        let mut releases: Vec<Release> = Vec::new();
        cleanup.cap_sid.release(&mut releases);
        if let Some(token) = token {
            token.release(&mut releases);
        }
        assert(releases@ =~= local_free(cleanup.cap_sid.psid) + close_token(all.token));
        release_child(child, &mut releases);
        job.handle.release(&mut releases);
        Step::done(releases, outcome)
    }

    fn after_revocation(ending: Ending, at: usize, step: Step<DaclEdit, DaclOutcome>) -> (r: Step<
        Helper,
        RunOutcome,
    >)
        ensures
            r@ == helper_after_revocation(ending, at, step@),
        decreases ending.cleanup.roots@.len() - at, 0int,
    {
        let releases = step.releases;
        match step.next {
            Next::Ask(revoking, request) => {
                Step { releases, next: Next::Ask(Helper::Revoking { ending, at, revoking }, request) }
            },
            Next::Done(_) => {
                if ending.cleanup.roots.directory(at).is_some() {
                    Helper::revoke(ending, at + 1).after(releases)
                } else {
                    Helper::finish(ending).after(releases)
                }
            },
        }
    }

    /// Goes on with the answer to the last call.
    pub fn resume(self, reply: Reply) -> (r: Step<Helper, RunOutcome>)
        ensures
            r@ == helper_next(self, reply),
    {
        match self {
            Helper::MakingJob { policy, sid, making } => Helper::after_job(policy, sid, making.resume(&reply)),
            Helper::Restricting { job, command, building } => {
                Helper::after_restriction(job, command, building.resume(reply))
            },
            Helper::Warning { job, command } => Helper::spawn(job, None, command),
            Helper::Spawning { job, restriction } => match spawned(&reply) {
                Err(error) => Helper::failed(job, restriction, None, error),
                Ok(child) => {
                    let call = job.assign(child.process());
                    Step::ask(Helper::Assigning { running: Running { job, restriction, child } }, call)
                },
            },
            Helper::Assigning { running } => match assigned(&reply) {
                Err(error) => Helper::failed(running.job, running.restriction, Some(running.child), error),
                Ok(_) => {
                    let call = running.child.resume();
                    Step::ask(Helper::Resuming { running }, call)
                },
            },
            Helper::Resuming { running } => match resumed(&reply) {
                Err(error) => Helper::failed(running.job, running.restriction, Some(running.child), error),
                Ok(_) => {
                    let handle = running.child.process();
                    Step::ask(Helper::Waiting { running }, Call::WaitForSingleObject { handle, timeout: INFINITE })
                },
            },
            Helper::Waiting { running } => {
                let process = running.child.process();
                Step::ask(
                    Helper::ReadingExitCode { running },
                    Call::GetExitCodeProcess { process, preset: EXIT_CODE_PRESET },
                )
            },
            Helper::ReadingExitCode { running } => Helper::exited(running, exit_code(reply.code)),
            Helper::Revoking { ending, at, revoking } => {
                Helper::after_revocation(ending, at, revoking.resume(&reply))
            },
        }
    }
}

/// In which order a run whose command has exited, or did not start, gives back
/// what it holds where no ACEs are to be revoked: the process and its thread,
/// and the job last.
pub proof fn law_unrestricted_run_ends_with_the_job(
    running: Running,
    status: i32,
    error: SandboxError,
)
    requires
        running.job.handle.0 != 0,
        running.child.process.0 != 0,
        running.child.thread.0 != 0,
        running.restriction is None,
    ensures
        ({
            let releases = seq![
                Release::CloseHandle(running.child.process.0),
                Release::CloseHandle(running.child.thread.0),
                Release::CloseHandle(running.job.handle.0),
            ];
            let exited = helper_exited(running, status);
            let failed = helper_failed(running.job, None, Some(running.child), error);
            let unborn = helper_failed(running.job, None, None, error);
            &&& exited.releases == releases
            &&& exited.next == NextView::<Helper, RunOutcome>::Done(Ok(status))
            &&& failed.releases == releases
            &&& failed.next == NextView::<Helper, RunOutcome>::Done(Err(error))
            &&& unborn.releases == seq![Release::CloseHandle(running.job.handle.0)]
            &&& unborn.next == NextView::<Helper, RunOutcome>::Done(Err(error))
        }),
{
    let process = Release::CloseHandle(running.child.process.0);
    let thread = Release::CloseHandle(running.child.thread.0);
    let job = Release::CloseHandle(running.job.handle.0);
    assert(seq![process] + seq![thread] + seq![job] =~= seq![process, thread, job]);
    assert(Seq::<Release>::empty() + seq![job] =~= seq![job]);
}

/// In which order a run gives back what it holds once the last ACE is revoked:
/// the capability SID, the token and the child's handles, as far as they are
/// still held, and the job last. It then comes to the outcome that it had.
pub proof fn law_restricted_run_ends_with_the_job(ending: Ending, place: int)
    requires
        place >= ending.cleanup.roots@.len(),
        ending.cleanup.cap_sid.psid != 0,
        ending.job.handle.0 != 0,
        ending.token matches Some(token) ==> token.0 != 0,
        ending.child matches Some(child) ==> child.process.0 != 0 && child.thread.0 != 0,
    ensures
        ({
            let step = revoke_from(ending, place);
            let first = Release::LocalFree(ending.cleanup.cap_sid.psid);
            let last = Release::CloseHandle(ending.job.handle.0);
            &&& step.next == NextView::<Helper, RunOutcome>::Done(ending.outcome)
            &&& step.releases == match (ending.token, ending.child) {
                (None, None) => seq![first, last],
                (Some(token), None) => seq![first, Release::CloseHandle(token.0), last],
                (None, Some(child)) => seq![
                    first,
                    Release::CloseHandle(child.process.0),
                    Release::CloseHandle(child.thread.0),
                    last,
                ],
                (Some(token), Some(child)) => seq![
                    first,
                    Release::CloseHandle(token.0),
                    Release::CloseHandle(child.process.0),
                    Release::CloseHandle(child.thread.0),
                    last,
                ],
            }
        }),
{
}

/// A run that ends under a restriction begins to revoke at once: where the
/// command ran, after the token is closed; where it did not start, after the
/// child's handles are closed, and the token stays held until the end.
pub proof fn law_restricted_run_goes_on_to_revoke(
    job: KillOnCloseJob,
    restriction: WriteRestriction,
    child: SpawnedChild,
    status: i32,
    error: SandboxError,
)
    requires
        restriction.token.0 != 0,
        child.process.0 != 0,
        child.thread.0 != 0,
    ensures
        ({
            let cleanup = restriction.cleanup;
            let exited = helper_exited(Running { job, restriction: Some(restriction), child }, status);
            let failed = helper_failed(job, Some(restriction), Some(child), error);
            let after_exit = revoke_from(
                Ending { job, cleanup, token: None, child: Some(child), outcome: Ok(status) },
                0,
            );
            let after_failure = revoke_from(
                Ending { job, cleanup, token: Some(restriction.token), child: None, outcome: Err(error) },
                0,
            );
            &&& exited.next == after_exit.next
            &&& exited.releases == seq![Release::CloseHandle(restriction.token.0)] + after_exit.releases
            &&& failed.next == after_failure.next
            &&& failed.releases == seq![
                Release::CloseHandle(child.process.0),
                Release::CloseHandle(child.thread.0),
            ] + after_failure.releases
        }),
{
}

/// The exit code the helper process should exit with, once its run has come to
/// `outcome`.
pub fn run_sandbox_helper(outcome: RunOutcome) -> (r: i32)
    ensures
        r == match outcome {
            Ok(code) => code,
            Err(_) => HELPER_FAILURE_EXIT_CODE,
        },
        outcome is Err ==> r == 127,
{
    match outcome {
        Ok(code) => code,
        Err(_) => HELPER_FAILURE_EXIT_CODE,
    }
}

} // verus!
