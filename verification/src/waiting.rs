//! Which call each state of the helper waits for.

use vstd::prelude::*;

use crate::acl::{edit_next, null_device_next, DaclEdit, DaclStage, NullDevice, NullDeviceStage};
use crate::capability::CapabilitySid;
use crate::job::JobSetup;
use crate::launcher::Helper;
use crate::policy::SandboxPolicy;
use crate::restriction::{restriction_next, Restriction};
use crate::run::Run;
use crate::token::{
    token_next, DefaultDacl, LogonSidStage, Privilege, RestrictedToken, RestrictedTokenStage, WorldSid,
};
use crate::win32::{Call, NextView, Reply};

verus! {

/// Whether an edit can be waiting for the answer to a call.
pub open spec fn edit_awaits(edit: DaclEdit, call: Call) -> bool {
    match edit.stage {
        DaclStage::Opening => call is CreateFile,
        DaclStage::Querying { .. } => call is GetSecurityInfo,
        DaclStage::Merging { .. } => call is SetEntriesInAcl,
        DaclStage::Initializing { .. } => call is InitializeSecurityDescriptor,
        DaclStage::Attaching { .. } => call is SetSecurityDescriptorDacl,
        DaclStage::Applying { .. } => call is SetKernelObjectSecurity,
    }
}

/// Whether the granting of the null device can be waiting for the answer to a
/// call.
pub open spec fn null_device_awaits(grant: NullDevice, call: Call) -> bool {
    match grant.stage {
        NullDeviceStage::Opening => call is CreateFile,
        NullDeviceStage::Querying { .. } => call is GetSecurityInfo,
        NullDeviceStage::Merging { .. } => call is SetEntriesInAcl,
        NullDeviceStage::Applying { .. } => call is SetSecurityInfo,
    }
}

/// Whether the token's building can be waiting for the answer to a call.
pub open spec fn token_awaits(state: RestrictedToken, call: Call) -> bool {
    match state.stage {
        RestrictedTokenStage::Logon(inner) => match inner.stage {
            LogonSidStage::Sizing => call is TokenInformationSize,
            LogonSidStage::Reading => call is TokenInformation,
            LogonSidStage::Measuring { .. } => call is LengthSid,
            LogonSidStage::Copying => call is CopySid,
        },
        RestrictedTokenStage::World(inner) => match inner {
            WorldSid::Sizing => call is WellKnownSidSize,
            WorldSid::Making => call is CreateWellKnownSid,
        },
        RestrictedTokenStage::Creating => call is CreateRestrictedToken,
        RestrictedTokenStage::DefaultDacl { setting, .. } => match setting {
            DefaultDacl::Merging { .. } => call is SetEntriesInAcl,
            DefaultDacl::Setting { .. } => call is SetTokenDefaultDacl,
        },
        RestrictedTokenStage::Privilege { enabling, .. } => match enabling {
            Privilege::LookingUp { .. } => call is LookupPrivilegeValue,
            Privilege::Adjusting => call is AdjustTokenPrivileges,
        },
    }
}

/// Whether the restriction's building can be waiting for the answer to a call.
pub open spec fn restriction_awaits(state: Restriction, call: Call) -> bool {
    match state {
        Restriction::Minting { .. } => call is ConvertStringSidToSid,
        Restriction::Resolving { .. } => call is ResolveRoots,
        Restriction::OpeningToken { .. } => call is OpenProcessToken,
        Restriction::BuildingToken { building, .. } => token_awaits(building, call),
        Restriction::GrantingNull { null_device, .. } => null_device_awaits(null_device, call),
        Restriction::GrantingRoot { granting, .. } => edit_awaits(granting, call),
        Restriction::Undoing { revoking, .. } => edit_awaits(revoking, call),
    }
}

/// Whether a run that waits in a state can be waiting for the answer to a call.
pub open spec fn helper_awaits(state: Helper, call: Call) -> bool {
    match state {
        Helper::MakingJob { making, .. } => match making {
            JobSetup::Creating => call is CreateJobObject,
            JobSetup::Limiting { .. } => call is SetInformationJobObject,
        },
        Helper::Restricting { building, .. } => restriction_awaits(building, call),
        Helper::Warning { .. } => call is WarnUnrestricted,
        Helper::Spawning { .. } => call is CreateProcess,
        Helper::Assigning { .. } => call is AssignProcessToJobObject,
        Helper::Resuming { .. } => call is ResumeThread,
        Helper::Waiting { .. } => call is WaitForSingleObject,
        Helper::ReadingExitCode { .. } => call is GetExitCodeProcess,
        Helper::Revoking { revoking, .. } => edit_awaits(revoking, call),
    }
}

proof fn lemma_edit_awaits(edit: DaclEdit, reply: Reply)
    ensures
        edit_next(edit, reply).next matches NextView::Ask(next, request) ==> edit_awaits(next, request.call),
{
}

proof fn lemma_null_device_awaits(grant: NullDevice, reply: Reply)
    ensures
        null_device_next(grant, reply).next matches NextView::Ask(next, request) ==> null_device_awaits(
            next,
            request.call,
        ),
{
}

proof fn lemma_token_awaits(state: RestrictedToken, reply: Reply)
    ensures
        token_next(state, reply).next matches NextView::Ask(next, request) ==> token_awaits(next, request.call),
{
}

proof fn lemma_restriction_awaits(state: Restriction, reply: Reply)
    ensures
        restriction_next(state, reply).next matches NextView::Ask(next, request) ==> restriction_awaits(
            next,
            request.call,
        ),
{
    match state {
        Restriction::BuildingToken { building, .. } => {
            lemma_token_awaits(building, reply);
        },
        Restriction::GrantingNull { null_device, .. } => {
            lemma_null_device_awaits(null_device, reply);
        },
        Restriction::GrantingRoot { granting, .. } => {
            lemma_edit_awaits(granting, reply);
        },
        Restriction::Undoing { revoking, .. } => {
            lemma_edit_awaits(revoking, reply);
        },
        _ => {},
    }
}

/// Each state that a run waits in is one that waits for the call that was just
/// made.
pub proof fn law_state_awaits_its_call(run: Run, policy: SandboxPolicy, sid: CapabilitySid, k: int)
    requires
        run.valid(policy, sid),
        0 <= k < run.steps.len(),
    ensures
        run.steps[k].next matches NextView::Ask(state, request) ==> helper_awaits(state, request.call),
{
    if k > 0 {
        assert(run.follows(k - 1));
        let reply = run.replies[k - 1];
        if let NextView::Ask(state, _) = run.steps[k - 1].next {
            match state {
                Helper::Restricting { building, .. } => {
                    lemma_restriction_awaits(building, reply);
                },
                Helper::Revoking { revoking, .. } => {
                    lemma_edit_awaits(revoking, reply);
                },
                _ => {},
            }
        }
    }
}

} // verus!
