//! Which resources a run holds.
//!
//! Calls hand out handles and memory, and steps give them back. The law here
//! is that a run gives back nothing that it does not hold and, when it is over,
//! holds nothing.

use vstd::prelude::*;

use crate::acl::{
    edit_next, edit_releases, null_device_next, null_device_start, DaclEdit, DaclOutcome, DaclStage, NullDevice,
    NullDeviceStage,
};
use crate::capability::CapabilitySid;
use crate::conduct::{law_command_is_confined, made_job};
use crate::error::SandboxError;
use crate::job::{JobSetup, KillOnCloseJob};
use crate::launcher::{
    close_child, close_token, exit_status, helper_after_restriction, helper_exited, helper_failed, helper_next,
    revoke_from, Ending, Helper, RunOutcome, Running,
};
use crate::policy::{command_of, Command, SandboxPolicy};
use crate::process::SpawnedChild;
use crate::restriction::{
    grant_from, restriction_after_null, restriction_after_root, restriction_after_token, restriction_next,
    restriction_start, undo_from, Held, Restriction, RestrictionOutcome, Undo, WriteRestriction,
};
use crate::roots::Roots;
use crate::run::Run;
use crate::token::{
    token_next, token_start, DefaultDacl, LocalSid, OwnedHandle, RestrictedToken, RestrictedTokenStage, TokenOutcome,
};
use crate::waiting::{
    edit_awaits, helper_awaits, law_state_awaits_its_call, null_device_awaits, restriction_awaits, token_awaits,
};
use crate::win32::{
    after, close_handle, local_free, opened, Call, NextView, Release, Reply, SidRef, StepView, ERROR_SUCCESS,
};

verus! {

/// How often a resource occurs.
pub open spec fn times(resources: Seq<Release>, resource: Release) -> nat
    decreases resources.len(),
{
    if resources.len() == 0 {
        0
    } else {
        times(resources.drop_last(), resource) + if resources.last() == resource {
            1nat
        } else {
            0nat
        }
    }
}

/// The resources that a call has handed out, by its answer: the handles that it
/// returned, and the memory at the pointers that it filled in.
pub open spec fn received(call: Call, reply: Reply) -> Seq<Release> {
    match call {
        Call::CreateFile { .. } => if opened(reply.first) {
            seq![Release::CloseHandle(reply.first)]
        } else {
            seq![]
        },
        Call::GetSecurityInfo { .. } => local_free(reply.second),
        Call::SetEntriesInAcl { .. } => local_free(reply.first),
        Call::ConvertStringSidToSid { .. } => local_free(reply.first),
        Call::OpenProcessToken { .. } => if reply.code != 0 {
            close_handle(reply.first)
        } else {
            seq![]
        },
        Call::CreateRestrictedToken { .. } => if reply.code != 0 {
            close_handle(reply.first)
        } else {
            seq![]
        },
        Call::CreateJobObject => close_handle(reply.first),
        Call::CreateProcess { .. } => if reply.code != 0 {
            close_handle(reply.first) + close_handle(reply.second)
        } else {
            seq![]
        },
        _ => seq![],
    }
}

/// How often a run has been handed a resource by the first `k` answers.
pub open spec fn times_received(run: Run, k: int, resource: Release) -> nat
    decreases k,
{
    if k <= 0 {
        0
    } else {
        times_received(run, k - 1, resource) + match run.steps[k - 1].next {
            NextView::Ask(_, request) => times(received(request.call, run.replies[k - 1]), resource),
            NextView::Done(_) => 0,
        }
    }
}

/// How often a run has given a resource back in its first `k` steps.
pub open spec fn times_returned(run: Run, k: int, resource: Release) -> nat
    decreases k,
{
    if k <= 0 {
        0
    } else {
        times_returned(run, k - 1, resource) + times(run.steps[k - 1].releases, resource)
    }
}

/// Whether a failed call filled in a pointer that the edit does not look at.
pub open spec fn edit_strands(edit: DaclEdit, reply: Reply) -> bool {
    edit.stage is Querying && reply.code != ERROR_SUCCESS && reply.second != 0
}

/// Whether a failed call filled in a pointer that the granting of the null
/// device does not look at.
pub open spec fn null_device_strands(grant: NullDevice, reply: Reply) -> bool {
    grant.stage is Merging && reply.code != ERROR_SUCCESS && reply.first != 0
}

/// Whether a failed call filled in a pointer that the token's building does not
/// look at.
pub open spec fn token_strands(state: RestrictedToken, reply: Reply) -> bool {
    state.stage matches RestrictedTokenStage::DefaultDacl { setting, .. } && setting is Merging && reply.code
        != ERROR_SUCCESS && reply.first != 0
}

/// Whether a failed call filled in a pointer that the restriction's building
/// does not look at.
pub open spec fn restriction_strands(state: Restriction, reply: Reply) -> bool {
    match state {
        Restriction::Minting { .. } => reply.code == 0 && reply.first != 0,
        Restriction::BuildingToken { building, .. } => token_strands(building, reply),
        Restriction::GrantingNull { null_device, .. } => null_device_strands(null_device, reply),
        Restriction::GrantingRoot { granting, .. } => edit_strands(granting, reply),
        Restriction::Undoing { revoking, .. } => edit_strands(revoking, reply),
        _ => false,
    }
}

/// Whether a failed call filled in a pointer that the helper does not look at,
/// as failed calls are not expected to.
pub open spec fn strands(state: Helper, reply: Reply) -> bool {
    match state {
        Helper::Restricting { building, .. } => restriction_strands(building, reply),
        Helper::Revoking { revoking, .. } => edit_strands(revoking, reply),
        _ => false,
    }
}

/// Whether no failed call of a run handed out memory that the helper does not
/// look at.
pub open spec fn strands_nothing(run: Run) -> bool {
    forall|k: int|
        0 <= k < run.replies.len() ==> (#[trigger] run.steps[k].next matches NextView::Ask(state, _) ==> !strands(
            state,
            run.replies[k],
        ))
}

proof fn lemma_times_add(a: Seq<Release>, b: Seq<Release>, r: Release)
    ensures
        times(a + b, r) == times(a, r) + times(b, r),
    decreases b.len(),
{
    if b.len() == 0 {
        assert(a + b =~= a);
    } else {
        lemma_times_add(a, b.drop_last(), r);
        assert((a + b).drop_last() =~= a + b.drop_last());
        assert((a + b).last() == b.last());
    }
}

/// Memory is no handle.
proof fn lemma_memory_is_no_handle(pointer: usize, r: Release)
    ensures
        r is CloseHandle ==> times(local_free(pointer), r) == 0,
{
    if pointer != 0 {
        assert(local_free(pointer).drop_last() =~= seq![]);
        assert(times(seq![], r) == 0);
        assert(local_free(pointer).last() == Release::LocalFree(pointer));
    }
}

/// How often an edit's step accounts for a resource: as given back, or as held.
spec fn edit_accounts(step: StepView<DaclEdit, DaclOutcome>, r: Release) -> nat {
    times(step.releases, r) + match step.next {
        NextView::Ask(next, _) => times(edit_holds(next), r),
        NextView::Done(_) => 0,
    }
}

/// What an edit holds.
spec fn edit_holds(edit: DaclEdit) -> Seq<Release> {
    match edit.stage {
        DaclStage::Opening => seq![],
        DaclStage::Querying { handle } => seq![Release::CloseHandle(handle)],
        DaclStage::Merging { handle, descriptor } => edit_releases(handle, descriptor, 0),
        DaclStage::Initializing { handle, descriptor, acl } => edit_releases(handle, descriptor, acl),
        DaclStage::Attaching { handle, descriptor, acl } => edit_releases(handle, descriptor, acl),
        DaclStage::Applying { handle, descriptor, acl } => edit_releases(handle, descriptor, acl),
    }
}

proof fn lemma_edit_releases(handle: usize, descriptor: usize, acl: usize, r: Release)
    ensures
        times(edit_releases(handle, descriptor, acl), r) == times(local_free(acl), r) + times(local_free(descriptor), r)
            + times(seq![Release::CloseHandle(handle)], r),
        times(local_free(0), r) == 0,
        times(seq![], r) == 0,
{
    lemma_times_add(local_free(acl), local_free(descriptor), r);
    lemma_times_add(local_free(acl) + local_free(descriptor), seq![Release::CloseHandle(handle)], r);
}

proof fn lemma_edit_balances(edit: DaclEdit, call: Call, reply: Reply, r: Release)
    requires
        edit_awaits(edit, call),
        r is CloseHandle || !edit_strands(edit, reply),
    ensures
        times(edit_holds(edit), r) + times(received(call, reply), r) == edit_accounts(edit_next(edit, reply), r),
{
    lemma_memory_is_no_handle(reply.second, r);
    match edit.stage {
        DaclStage::Querying { handle } => {
            lemma_edit_releases(handle, reply.second, 0, r);
        },
        DaclStage::Merging { handle, descriptor } => {
            lemma_edit_releases(handle, descriptor, 0, r);
            lemma_edit_releases(handle, descriptor, reply.first, r);
        },
        _ => {},
    }
}

/// What the granting of the null device holds.
spec fn null_device_holds(grant: NullDevice) -> Seq<Release> {
    match grant.stage {
        NullDeviceStage::Opening => seq![],
        NullDeviceStage::Querying { handle } => seq![Release::CloseHandle(handle)],
        NullDeviceStage::Merging { handle, descriptor } => edit_releases(handle, descriptor, 0),
        NullDeviceStage::Applying { handle, descriptor, acl } => edit_releases(handle, descriptor, acl),
    }
}

spec fn null_device_accounts(step: StepView<NullDevice, ()>, r: Release) -> nat {
    times(step.releases, r) + match step.next {
        NextView::Ask(next, _) => times(null_device_holds(next), r),
        NextView::Done(_) => 0,
    }
}

proof fn lemma_null_device_balances(grant: NullDevice, call: Call, reply: Reply, r: Release)
    requires
        null_device_awaits(grant, call),
        r is CloseHandle || !null_device_strands(grant, reply),
    ensures
        times(null_device_holds(grant), r) + times(received(call, reply), r) == null_device_accounts(
            null_device_next(grant, reply),
            r,
        ),
{
    lemma_memory_is_no_handle(reply.first, r);
    match grant.stage {
        NullDeviceStage::Querying { handle } => {
            lemma_edit_releases(handle, reply.second, 0, r);
        },
        NullDeviceStage::Merging { handle, descriptor } => {
            lemma_edit_releases(handle, descriptor, 0, r);
            lemma_edit_releases(handle, descriptor, reply.first, r);
        },
        _ => {},
    }
}

/// What the token's building holds.
spec fn token_holds(state: RestrictedToken) -> Seq<Release> {
    match state.stage {
        RestrictedTokenStage::DefaultDacl { token, setting } => match setting {
            DefaultDacl::Merging { .. } => close_handle(token.0),
            DefaultDacl::Setting { acl } => local_free(acl) + close_handle(token.0),
        },
        RestrictedTokenStage::Privilege { token, .. } => close_handle(token.0),
        _ => seq![],
    }
}

spec fn token_accounts(step: StepView<RestrictedToken, TokenOutcome>, r: Release) -> nat {
    times(step.releases, r) + match step.next {
        NextView::Ask(next, _) => times(token_holds(next), r),
        NextView::Done(Ok(token)) => times(close_handle(token.0), r),
        NextView::Done(Err(_)) => 0,
    }
}

proof fn lemma_token_balances(state: RestrictedToken, call: Call, reply: Reply, r: Release)
    requires
        token_awaits(state, call),
        r is CloseHandle || !token_strands(state, reply),
    ensures
        times(token_holds(state), r) + times(received(call, reply), r) == token_accounts(token_next(state, reply), r),
{
    lemma_memory_is_no_handle(reply.first, r);
    lemma_times_add(seq![], seq![], r);
    match state.stage {
        RestrictedTokenStage::DefaultDacl { token, setting } => {
            match setting {
                DefaultDacl::Merging { .. } => {
                    lemma_times_add(local_free(reply.first), close_handle(token.0), r);
                    lemma_times_add(seq![], close_handle(token.0), r);
                },
                DefaultDacl::Setting { acl } => {
                    lemma_times_add(local_free(acl), close_handle(token.0), r);
                    lemma_times_add(local_free(acl), seq![], r);
                },
            }
        },
        RestrictedTokenStage::Privilege { token, .. } => {
            lemma_times_add(seq![], close_handle(token.0), r);
        },
        _ => {},
    }
}

/// What the restriction's building holds.
spec fn restriction_holds(state: Restriction, r: Release) -> nat {
    match state {
        Restriction::Minting { .. } => 0,
        Restriction::Resolving { cap_sid } => times(local_free(cap_sid.psid), r),
        Restriction::OpeningToken { cap_sid, .. } => times(local_free(cap_sid.psid), r),
        Restriction::BuildingToken { cap_sid, base, building, .. } => times(token_holds(building), r) + times(
            close_handle(base.0),
            r,
        ) + times(local_free(cap_sid.psid), r),
        Restriction::GrantingNull { held, null_device } => times(null_device_holds(null_device), r) + held_times(held, r),
        Restriction::GrantingRoot { held, granting, .. } => times(edit_holds(granting), r) + held_times(held, r),
        Restriction::Undoing { undo, revoking, .. } => times(edit_holds(revoking), r) + times(
            local_free(undo.cap_sid.psid),
            r,
        ),
    }
}

spec fn held_times(held: Held, r: Release) -> nat {
    times(close_handle(held.token.0), r) + times(close_handle(held.base.0), r) + times(local_free(held.cap_sid.psid), r)
}

/// What a restriction in force holds.
spec fn in_force_times(restriction: WriteRestriction, r: Release) -> nat {
    times(close_handle(restriction.token.0), r) + times(local_free(restriction.cleanup.cap_sid.psid), r)
}

spec fn restriction_accounts(step: StepView<Restriction, RestrictionOutcome>, r: Release) -> nat {
    times(step.releases, r) + match step.next {
        NextView::Ask(next, _) => restriction_holds(next, r),
        NextView::Done(Ok(restriction)) => in_force_times(restriction, r),
        NextView::Done(Err(_)) => 0,
    }
}

proof fn lemma_grant_accounts(held: Held, number: int, r: Release)
    ensures
        restriction_accounts(grant_from(held, number), r) == held_times(held, r),
{
}

proof fn lemma_restriction_after_null(held: Held, step: StepView<NullDevice, ()>, r: Release)
    ensures
        restriction_accounts(restriction_after_null(held, step), r) == null_device_accounts(step, r) + held_times(
            held,
            r,
        ),
{
    lemma_grant_accounts(held, 0, r);
    lemma_times_add(step.releases, grant_from(held, 0).releases, r);
}

proof fn lemma_restriction_after_token(
    cap_sid: LocalSid,
    roots: Roots,
    base: OwnedHandle,
    step: StepView<RestrictedToken, TokenOutcome>,
    r: Release,
)
    ensures
        restriction_accounts(restriction_after_token(cap_sid, roots, base, step), r) == token_accounts(step, r) + times(
            close_handle(base.0),
            r,
        ) + times(local_free(cap_sid.psid), r),
{
    match step.next {
        NextView::Ask(..) => {},
        NextView::Done(Err(_)) => {
            lemma_times_add(step.releases, close_handle(base.0), r);
            lemma_times_add(step.releases + close_handle(base.0), local_free(cap_sid.psid), r);
        },
        NextView::Done(Ok(token)) => {
            let start = null_device_start(SidRef::Pointer(cap_sid.psid));
            lemma_times_add(step.releases, start.releases, r);
            lemma_restriction_after_null(Held { cap_sid, roots, base, token }, after(step.releases, start), r);
        },
    }
}

proof fn lemma_undo_accounts(undo: Undo, number: int, r: Release)
    ensures
        restriction_accounts(undo_from(undo, number), r) == times(local_free(undo.cap_sid.psid), r),
{
}

proof fn lemma_restriction_after_root(held: Held, at: usize, step: StepView<DaclEdit, DaclOutcome>, r: Release)
    ensures
        restriction_accounts(restriction_after_root(held, at, step), r) == edit_accounts(step, r) + held_times(
            held,
            r,
        ),
{
    let token = close_handle(held.token.0);
    let base = close_handle(held.base.0);
    lemma_times_add(step.releases, token, r);
    lemma_times_add(step.releases + token, base, r);
    if let NextView::Done(Err(error)) = step.next {
        let undo = Undo { cap_sid: held.cap_sid, roots: held.roots, granted: at, error };
        lemma_undo_accounts(undo, 0, r);
        lemma_times_add(step.releases + token + base, undo_from(undo, 0).releases, r);
    }
    lemma_grant_accounts(held, at + 1, r);
    lemma_times_add(step.releases, grant_from(held, at + 1).releases, r);
}

proof fn lemma_restriction_balances(state: Restriction, call: Call, reply: Reply, r: Release)
    requires
        restriction_awaits(state, call),
        r is CloseHandle || !restriction_strands(state, reply),
    ensures
        restriction_holds(state, r) + times(received(call, reply), r) == restriction_accounts(
            restriction_next(state, reply),
            r,
        ),
{
    lemma_memory_is_no_handle(reply.first, r);
    match state {
        Restriction::OpeningToken { cap_sid, roots } => {
            if reply.code != 0 {
                let base = OwnedHandle(reply.first);
                lemma_restriction_after_token(cap_sid, roots, base, token_start(base.0, cap_sid.psid), r);
            }
        },
        Restriction::BuildingToken { cap_sid, roots, base, building } => {
            lemma_token_balances(building, call, reply, r);
            lemma_restriction_after_token(cap_sid, roots, base, token_next(building, reply), r);
        },
        Restriction::GrantingNull { held, null_device } => {
            lemma_null_device_balances(null_device, call, reply, r);
            lemma_restriction_after_null(held, null_device_next(null_device, reply), r);
        },
        Restriction::GrantingRoot { held, at, granting } => {
            lemma_edit_balances(granting, call, reply, r);
            lemma_restriction_after_root(held, at, edit_next(granting, reply), r);
        },
        Restriction::Undoing { undo, at, revoking } => {
            lemma_edit_balances(revoking, call, reply, r);
            lemma_undo_accounts(undo, at + 1, r);
            lemma_times_add(edit_next(revoking, reply).releases, undo_from(undo, at + 1).releases, r);
        },
        _ => {},
    }
}

/// How often a job's making holds a resource.
spec fn job_holds(state: JobSetup, r: Release) -> nat {
    match state {
        JobSetup::Creating => 0,
        JobSetup::Limiting { handle } => times(close_handle(handle.0), r),
    }
}

/// How often a restriction, if there is one, holds a resource.
spec fn restriction_times(restriction: Option<WriteRestriction>, r: Release) -> nat {
    match restriction {
        Some(restriction) => in_force_times(restriction, r),
        None => 0,
    }
}

spec fn running_times(running: Running, r: Release) -> nat {
    times(close_handle(running.job.handle.0), r) + restriction_times(running.restriction, r) + times(
        close_child(Some(running.child)),
        r,
    )
}

spec fn ending_times(ending: Ending, r: Release) -> nat {
    times(close_handle(ending.job.handle.0), r) + times(local_free(ending.cleanup.cap_sid.psid), r) + times(
        close_token(ending.token),
        r,
    ) + times(close_child(ending.child), r)
}

/// How often a run that waits in a state holds a resource.
spec fn helper_holds(state: Helper, r: Release) -> nat {
    match state {
        Helper::MakingJob { making, .. } => job_holds(making, r),
        Helper::Restricting { job, building, .. } => times(close_handle(job.handle.0), r) + restriction_holds(building, r),
        Helper::Warning { job, .. } => times(close_handle(job.handle.0), r),
        Helper::Spawning { job, restriction } => times(close_handle(job.handle.0), r) + restriction_times(
            restriction,
            r,
        ),
        Helper::Assigning { running } => running_times(running, r),
        Helper::Resuming { running } => running_times(running, r),
        Helper::Waiting { running } => running_times(running, r),
        Helper::ReadingExitCode { running } => running_times(running, r),
        Helper::Revoking { ending, revoking, .. } => ending_times(ending, r) + times(edit_holds(revoking), r),
    }
}

spec fn helper_accounts(step: StepView<Helper, RunOutcome>, r: Release) -> nat {
    times(step.releases, r) + match step.next {
        NextView::Ask(next, _) => helper_holds(next, r),
        NextView::Done(_) => 0,
    }
}

proof fn lemma_revoke_accounts(ending: Ending, number: int, r: Release)
    ensures
        helper_accounts(revoke_from(ending, number), r) == ending_times(ending, r),
{
    let sid = local_free(ending.cleanup.cap_sid.psid);
    let token = close_token(ending.token);
    let child = close_child(ending.child);
    lemma_times_add(sid, token, r);
    lemma_times_add(sid + token, child, r);
    lemma_times_add(sid + token + child, close_handle(ending.job.handle.0), r);
}

proof fn lemma_helper_after_restriction(
    job: KillOnCloseJob,
    command: Command,
    step: StepView<Restriction, RestrictionOutcome>,
    r: Release,
)
    ensures
        helper_accounts(helper_after_restriction(job, command, step), r) == times(close_handle(job.handle.0), r)
            + restriction_accounts(step, r),
{
    lemma_times_add(step.releases, seq![], r);
}

proof fn lemma_helper_failed(
    job: KillOnCloseJob,
    restriction: Option<WriteRestriction>,
    child: Option<SpawnedChild>,
    error: SandboxError,
    r: Release,
)
    ensures
        helper_accounts(helper_failed(job, restriction, child, error), r) == times(close_handle(job.handle.0), r)
            + restriction_times(restriction, r) + times(close_child(child), r),
{
    lemma_times_add(close_child(child), close_handle(job.handle.0), r);
    if let Some(w) = restriction {
        let ending = Ending { job, cleanup: w.cleanup, token: Some(w.token), child: None, outcome: Err(error) };
        lemma_revoke_accounts(ending, 0, r);
        lemma_times_add(close_child(child), revoke_from(ending, 0).releases, r);
    }
}

proof fn lemma_helper_exited(running: Running, status: i32, r: Release)
    ensures
        helper_accounts(helper_exited(running, status), r) == running_times(running, r),
{
    let job = running.job;
    let child = Some(running.child);
    lemma_times_add(close_child(child), close_handle(job.handle.0), r);
    if let Some(w) = running.restriction {
        let ending = Ending { job, cleanup: w.cleanup, token: None, child, outcome: Ok(status) };
        lemma_revoke_accounts(ending, 0, r);
        lemma_times_add(close_handle(w.token.0), revoke_from(ending, 0).releases, r);
    }
}

proof fn lemma_helper_balances(state: Helper, call: Call, reply: Reply, r: Release)
    requires
        helper_awaits(state, call),
        r is CloseHandle || !strands(state, reply),
    ensures
        helper_holds(state, r) + times(received(call, reply), r) == helper_accounts(helper_next(state, reply), r),
{
    match state {
        Helper::MakingJob { policy, sid, making } => {
            lemma_times_add(seq![], seq![], r);
            if making is Limiting && reply.code != 0 {
                let job = KillOnCloseJob { handle: making->handle };
                let start = restriction_start(sid, policy.writable_directories);
                lemma_helper_after_restriction(job, command_of(policy), after(seq![], start), r);
            }
        },
        Helper::Restricting { job, command, building } => {
            lemma_restriction_balances(building, call, reply, r);
            lemma_helper_after_restriction(job, command, restriction_next(building, reply), r);
        },
        Helper::Warning { .. } => {},
        Helper::Spawning { job, restriction } => {
            if reply.code != 0 {
                lemma_times_add(close_handle(reply.first), close_handle(reply.second), r);
            } else {
                lemma_helper_failed(
                    job,
                    restriction,
                    None,
                    SandboxError::CreateProcess { last_error: reply.last_error },
                    r,
                );
            }
        },
        Helper::Assigning { running } => {
            lemma_helper_failed(
                running.job,
                running.restriction,
                Some(running.child),
                SandboxError::AssignProcessToJobObject { last_error: reply.last_error },
                r,
            );
        },
        Helper::Resuming { running } => {
            lemma_helper_failed(
                running.job,
                running.restriction,
                Some(running.child),
                SandboxError::ResumeThread { last_error: reply.last_error },
                r,
            );
        },
        Helper::Waiting { .. } => {},
        Helper::ReadingExitCode { running } => {
            lemma_helper_exited(running, exit_status(reply.code) as i32, r);
        },
        Helper::Revoking { ending, at, revoking } => {
            lemma_edit_balances(revoking, call, reply, r);
            let step = edit_next(revoking, reply);
            lemma_revoke_accounts(ending, at + 1, r);
            lemma_times_add(step.releases, revoke_from(ending, at + 1).releases, r);
        },
    }
}

proof fn lemma_run_balances(run: Run, policy: SandboxPolicy, sid: CapabilitySid, k: int, r: Release)
    requires
        run.valid(policy, sid),
        r is CloseHandle || strands_nothing(run),
        0 <= k < run.steps.len(),
    ensures
        times_received(run, k, r) == times_returned(run, k, r) + helper_accounts(run.steps[k], r),
    decreases k,
{
    if k > 0 {
        lemma_run_balances(run, policy, sid, k - 1, r);
        assert(run.follows(k - 1));
        law_state_awaits_its_call(run, policy, sid, k - 1);
        if let NextView::Ask(state, request) = run.steps[k - 1].next {
            lemma_helper_balances(state, request.call, run.replies[k - 1], r);
        }
    }
}

/// At every step, a run has given back each resource at most as often as the
/// calls before had handed it out. Once the run is over it has given back each
/// resource exactly as often: nothing leaks, and nothing is freed or closed
/// twice. For memory that takes failed calls that hand out none but what is
/// looked at.
pub proof fn law_resources_are_given_back(run: Run, policy: SandboxPolicy, sid: CapabilitySid, resource: Release)
    requires
        run.valid(policy, sid),
        resource is CloseHandle || strands_nothing(run),
    ensures
        forall|k: int|
            0 <= k < run.steps.len() ==> times_returned(run, k + 1, resource) <= #[trigger] times_received(
                run,
                k,
                resource,
            ),
        run.ended() ==> times_returned(run, run.steps.len() as int, resource) == times_received(
            run,
            run.replies.len() as int,
            resource,
        ),
{
    assert forall|k: int| 0 <= k < run.steps.len() implies times_returned(run, k + 1, resource)
        <= #[trigger] times_received(run, k, resource) by {
        lemma_run_balances(run, policy, sid, k, resource);
    }
    lemma_run_balances(run, policy, sid, run.replies.len() as int, resource);
}

/// The job that a run in a state has, if it has one.
spec fn job_in(state: Helper) -> Option<KillOnCloseJob> {
    match state {
        Helper::MakingJob { .. } => None,
        Helper::Restricting { job, .. } => Some(job),
        Helper::Warning { job, .. } => Some(job),
        Helper::Spawning { job, .. } => Some(job),
        Helper::Assigning { running } => Some(running.job),
        Helper::Resuming { running } => Some(running.job),
        Helper::Waiting { running } => Some(running.job),
        Helper::ReadingExitCode { running } => Some(running.job),
        Helper::Revoking { ending, .. } => Some(ending.job),
    }
}

/// A run has one job from the moment it is made.
proof fn lemma_job_in(run: Run, policy: SandboxPolicy, sid: CapabilitySid, k: int, job: usize)
    requires
        run.valid(policy, sid),
        made_job(run, job),
        2 <= k < run.steps.len(),
    ensures
        run.steps[k].next matches NextView::Ask(state, _) ==> job_in(state) == Some(
            KillOnCloseJob { handle: OwnedHandle(job) },
        ),
    decreases k,
{
    assert(run.follows(k - 1));
    if k == 2 {
        assert(run.follows(0));
    } else {
        lemma_job_in(run, policy, sid, k - 1, job);
    }
}

/// Whether a run has closed a job by the end of step `k`: it has closed the
/// handle as often as it was handed it.
pub open spec fn job_closed(run: Run, k: int, job: usize) -> bool {
    times_returned(run, k + 1, Release::CloseHandle(job)) == times_received(run, k, Release::CloseHandle(job))
}

/// Whether a run put a process into a job before step `k`.
pub open spec fn put_into_job(run: Run, k: int, job: usize, process: usize) -> bool {
    exists|i: int|
        i < k && run.answered(i) && #[trigger] run.asks(i, Call::AssignProcessToJobObject { job, process })
            && run.replies[i].code != 0
}

/// Whether a process is ended by the end of step `k`, where the system does
/// what the limit of the job asks for: it ends the processes that are in a job,
/// with all that they have started, when the last handle to the job closes.
pub open spec fn ended_with_job(run: Run, k: int, process: usize) -> bool {
    exists|job: usize| #[trigger]
        made_job(run, job) && put_into_job(run, k, job, process) && job_closed(run, k, job)
}

/// The job is open at every step but the last, so that whenever the helper goes
/// away, its handle is the one whose closing ends the command.
pub proof fn law_job_stays_open(run: Run, policy: SandboxPolicy, sid: CapabilitySid, k: int, job: usize)
    requires
        run.valid(policy, sid),
        made_job(run, job),
        2 <= k < run.steps.len(),
    ensures
        run.steps[k].next is Ask <==> !job_closed(run, k, job),
{
    let handle = Release::CloseHandle(job);
    lemma_run_balances(run, policy, sid, k, handle);
    lemma_job_in(run, policy, sid, k, job);
    assert(times(close_handle(job), handle) == 1) by {
        assert(close_handle(job).drop_last() =~= seq![]);
        assert(times(seq![], handle) == 0);
        assert(close_handle(job).last() == handle);
    }
}

/// No command outlives its helper: once a run is over, the process that it had
/// let run is ended, in a system that ends the processes of a job when the job
/// closes.
pub proof fn law_command_ends_with_the_helper(
    run: Run,
    policy: SandboxPolicy,
    sid: CapabilitySid,
    k: int,
    thread: usize,
)
    requires
        run.valid(policy, sid),
        run.ended(),
        run.asks(k, Call::ResumeThread { thread }),
    ensures
        ended_with_job(run, run.steps.len() - 1, run.replies[k - 2].first),
{
    let job = run.replies[0].first;
    let process = run.replies[k - 2].first;
    law_command_is_confined(run, policy, sid, k, thread);
    law_job_stays_open(run, policy, sid, run.steps.len() - 1, job);
    assert(put_into_job(run, run.steps.len() - 1, job, process)) by {
        assert(run.asks(k - 1, Call::AssignProcessToJobObject { job, process }));
    }
}

} // verus!
