//! What a run does before, while and after the command runs.
//!
//! The laws here say that the command is confined from its first instruction
//! on, that its writes are restricted unless the policy opted out or the user
//! was warned, and that what was granted for it is revoked.

use vstd::prelude::*;

use crate::acl::{
    edit_next, null_device_entry, null_device_next, open_for_dacl_edit_call, open_null_device_call, query_dacl_call,
    revoke_entry, write_entry, DaclEdit, DaclStage, NullDevice, NullDeviceStage, DACL_SECURITY_INFORMATION,
    SECURITY_DESCRIPTOR_REVISION, SE_KERNEL_OBJECT,
};
use crate::capability::{sid_text, CapabilitySid};
use crate::command_line::{command_line, readable_program, split_command_line};
use crate::error::SandboxError;
use crate::job::{limit_job_call, JobSetup, KillOnCloseJob};
use crate::launcher::{
    close_child, exit_status, helper_exited, helper_failed, helper_next, law_exit_status_keeps_bits, revoke_from, Ending,
    Helper, RunOutcome, Running, EXIT_CODE_PRESET,
};
use crate::policy::{command_of, law_policy_says_what_it_holds, SandboxPolicy};
use crate::process::{
    create_process_call, launch_payload, law_launched_argv_is_read_back, SpawnedChild, RESUME_FAILED,
};
use crate::restriction::{grant_from, restriction_next, AceCleanup, Held, Restriction, WriteRestriction};
use crate::roots::{
    law_roots_cover_without_repetition, lemma_directory_is_covered, lemma_roots_fit, roots_of, Directory, Roots,
};
use crate::run::Run;
use crate::token::{
    create_token_call, default_dacl_sids, full_entries, token_next, DefaultDacl, LocalSid, LogonSidStage, OwnedHandle,
    Privilege, RestrictedToken, RestrictedTokenStage, WorldSid, BASE_TOKEN_ACCESS, SE_CHANGE_NOTIFY_NAME,
    SE_PRIVILEGE_ENABLED, TOKEN_DEFAULT_DACL,
};
use crate::token_groups::{logon_search, LogonSearch};
use crate::waiting::{law_state_awaits_its_call, token_awaits};
use crate::win32::{
    close_handle, opened, Call, ExplicitAccess, NextView, PayloadView, Release, Reply, SidRef, StepView, Target,
    ERROR_SUCCESS, INFINITE,
};
use crate::winutil::{law_wide_text_is_read_back, utf16, utf16_lossy};

verus! {

/// Whether a run made a job that kills its processes when it closes.
pub open spec fn made_job(run: Run, job: usize) -> bool {
    &&& run.asks(0, Call::CreateJobObject)
    &&& run.answered(1)
    &&& run.replies[0].first == job
    &&& job != 0
    &&& run.asks(1, limit_job_call(job))
    &&& run.replies[1].code != 0
}

/// Whether a run turned the capability SID into one at an address.
pub open spec fn minted(run: Run, sid: CapabilitySid, address: usize) -> bool {
    &&& run.asks(2, Call::ConvertStringSidToSid { capability: sid })
    &&& run.brings(2, PayloadView::Text(utf16(sid_text(sid)).push(0)))
    &&& run.answered(2)
    &&& run.replies[2].code != 0
    &&& run.replies[2].first == address
    &&& address != 0
}

/// The numbers of the directories that are the roots of a run, by the answer
/// about the directories.
pub open spec fn roots(run: Run) -> Seq<usize> {
    roots_of(run.replies[3].directories@)
}

/// Whether a run resolved the policy's directories to these roots.
pub open spec fn resolved(run: Run, policy: SandboxPolicy, roots: Roots) -> bool {
    &&& run.asks(3, Call::ResolveRoots)
    &&& run.brings(3, PayloadView::Directories(policy@.writable_directories))
    &&& run.answered(3)
    &&& run.replies[3].directories == roots.found
}

/// Whether a run opened the token of its own process.
pub open spec fn opened_own_token(run: Run, base: usize) -> bool {
    &&& run.asks(4, Call::OpenProcessToken { access: BASE_TOKEN_ACCESS })
    &&& run.answered(4)
    &&& run.replies[4].code != 0
    &&& run.replies[4].first == base
}

/// Whether step `k` created a write-restricted token from `base`, with the
/// capability SID at an address first among its restricting SIDs.
pub open spec fn created_token(run: Run, k: int, base: usize, address: usize, token: usize) -> bool {
    &&& run.asks(k, create_token_call(base, address))
    &&& run.answered(k)
    &&& run.replies[k].code != 0
    &&& run.replies[k].first == token
}

/// Whether the edit of a root's DACL that begins at step `j` came as far as its
/// call of that number, counted from 0.
pub open spec fn edit_reached(run: Run, j: int, root: usize, entry: ExplicitAccess, stage: int) -> bool {
    let handle = run.replies[j].first;
    &&& run.asks(j, open_for_dacl_edit_call(root))
    &&& stage >= 1 ==> edit_goes_on(run, j, 0) && run.asks(j + 1, query_dacl_call(handle))
    &&& stage >= 2 ==> edit_goes_on(run, j, 1) && run.merges(j + 2, run.replies[j + 1].first, entry)
    &&& stage >= 3 ==> edit_goes_on(run, j, 2) && run.asks(
        j + 3,
        Call::InitializeSecurityDescriptor { revision: SECURITY_DESCRIPTOR_REVISION },
    )
    &&& stage >= 4 ==> edit_goes_on(run, j, 3) && run.asks(
        j + 4,
        Call::SetSecurityDescriptorDacl { present: 1, acl: run.replies[j + 2].first, defaulted: 0 },
    )
    &&& stage >= 5 ==> edit_goes_on(run, j, 4) && run.asks(
        j + 5,
        Call::SetKernelObjectSecurity { handle, information: DACL_SECURITY_INFORMATION },
    )
}

/// Whether the call of that number of an edit was answered with success.
pub open spec fn edit_goes_on(run: Run, j: int, stage: int) -> bool {
    &&& run.answered(j + stage)
    &&& if stage == 0 {
        opened(run.replies[j].first)
    } else if stage <= 2 {
        run.replies[j + stage].code == ERROR_SUCCESS
    } else {
        run.replies[j + stage].code != 0
    }
}

/// Whether the edit that begins at step `j` merged an entry into a root's DACL
/// and set the outcome on that root.
pub open spec fn edited(run: Run, j: int, root: usize, entry: ExplicitAccess) -> bool {
    edit_reached(run, j, root, entry, 5) && edit_goes_on(run, j, 5)
}

/// Whether the edit that begins at step `j` was taken as far as the answers to
/// its calls let it be.
pub open spec fn edit_pursued(run: Run, j: int, root: usize, entry: ExplicitAccess) -> bool {
    &&& run.asks(j, open_for_dacl_edit_call(root))
    &&& run.answered(j)
    &&& forall|stage: int|
        0 <= stage < 5 && #[trigger] edit_reached(run, j, root, entry, stage) && edit_goes_on(run, j, stage)
            ==> edit_reached(run, j, root, entry, stage + 1)
}

/// Whether a root had been granted to the SID at an address before step `k`.
pub open spec fn granted(run: Run, k: int, root: usize, address: usize) -> bool {
    exists|j: int| 0 <= j && j + 5 < k && #[trigger] edited(run, j, root, write_entry(SidRef::Pointer(address)))
}

/// The number of an edit's stage.
spec fn stage_number(stage: DaclStage) -> int {
    match stage {
        DaclStage::Opening => 0,
        DaclStage::Querying { .. } => 1,
        DaclStage::Merging { .. } => 2,
        DaclStage::Initializing { .. } => 3,
        DaclStage::Attaching { .. } => 4,
        DaclStage::Applying { .. } => 5,
    }
}

/// Whether step `k` of a run waits in an edit that has gone as it should.
spec fn edit_underway(run: Run, k: int, edit: DaclEdit) -> bool {
    let j = k - stage_number(edit.stage);
    &&& 0 <= j
    &&& edit_reached(run, j, edit.root, edit.entry, stage_number(edit.stage))
    &&& match edit.stage {
        DaclStage::Opening => true,
        DaclStage::Querying { handle } => handle == run.replies[j].first,
        DaclStage::Merging { handle, .. } => handle == run.replies[j].first,
        DaclStage::Initializing { handle, acl, .. } => handle == run.replies[j].first && acl == run.replies[j + 2].first,
        DaclStage::Attaching { handle, acl, .. } => handle == run.replies[j].first && acl == run.replies[j + 2].first,
        DaclStage::Applying { handle, acl, .. } => handle == run.replies[j].first && acl == run.replies[j + 2].first,
    }
}

/// Whether two steps make the same request, or neither makes one.
spec fn same_request<S, T, U, V>(a: StepView<S, T>, b: StepView<U, V>) -> bool {
    match (a.next, b.next) {
        (NextView::Ask(_, x), NextView::Ask(_, y)) => x == y,
        _ => false,
    }
}

/// An edit goes on as it should, or it is over.
proof fn lemma_edit_underway(run: Run, k: int, edit: DaclEdit)
    requires
        0 <= k < run.replies.len(),
        run.steps.len() == run.replies.len() + 1,
        edit_underway(run, k, edit),
        edit_next(edit, run.replies[k]).next is Ask ==> same_request(run.steps[k + 1], edit_next(edit, run.replies[k])),
    ensures
        match edit_next(edit, run.replies[k]).next {
            NextView::Ask(next, _) => edit_underway(run, k + 1, next) && next.root == edit.root && next.entry
                == edit.entry,
            NextView::Done(outcome) => {
                let j = k - stage_number(edit.stage);
                &&& edit_pursued(run, j, edit.root, edit.entry)
                &&& outcome is Ok ==> j == k - 5 && edited(run, j, edit.root, edit.entry)
            },
        },
{
    let j = k - stage_number(edit.stage);
    let step = edit_next(edit, run.replies[k]);
    match step.next {
        NextView::Ask(next, _) => {},
        NextView::Done(_) => {
            assert forall|stage: int|
                0 <= stage < 5 && #[trigger] edit_reached(run, j, edit.root, edit.entry, stage) && edit_goes_on(
                    run,
                    j,
                    stage,
                ) implies edit_reached(run, j, edit.root, edit.entry, stage + 1) by {
                assert(edit_goes_on(run, j, 0) || stage < 1);
                assert(edit_goes_on(run, j, 1) || stage < 2);
                assert(edit_goes_on(run, j, 2) || stage < 3);
                assert(edit_goes_on(run, j, 3) || stage < 4);
            }
        },
    }
}

/// Whether a write-restricted token had been created before step `k`.
pub open spec fn token_exists(run: Run, k: int, base: usize, address: usize, token: usize) -> bool {
    exists|i: int| i < k && #[trigger] created_token(run, i, base, address, token)
}

/// Whether step `k` makes an access list that grants everything to the logon
/// session, to everyone and to the SID at an address.
pub open spec fn lists_default_dacl(run: Run, k: int, address: usize) -> bool {
    &&& run.asks(k, Call::SetEntriesInAcl { old_acl: 0 })
    &&& run.brings(k, PayloadView::Entries(full_entries(default_dacl_sids(address))))
}

/// Whether the list that step `k` made was set as a token's default DACL.
pub open spec fn sets_default_dacl(run: Run, k: int, address: usize, token: usize) -> bool {
    let acl = run.replies[k].first;
    &&& lists_default_dacl(run, k, address)
    &&& run.replies[k].code == ERROR_SUCCESS
    &&& run.asks(k + 1, Call::SetTokenDefaultDacl { token, class: TOKEN_DEFAULT_DACL, acl })
    &&& run.answered(k + 1)
    &&& run.replies[k + 1].code != 0
}

/// Whether a token had its default DACL before step `k`.
pub open spec fn has_default_dacl(run: Run, k: int, address: usize, token: usize) -> bool {
    exists|i: int| i + 1 < k && #[trigger] sets_default_dacl(run, i, address, token)
}

/// Whether step `k` looks up the privilege to be notified of changes, which
/// lets a process pass through directories.
pub open spec fn looks_up_privilege(run: Run, k: int) -> bool {
    run.asks(k, Call::LookupPrivilegeValue) && run.brings(k, PayloadView::Text(utf16(SE_CHANGE_NOTIFY_NAME@).push(0)))
}

/// The call that enables on a token the privilege that step `k` looked up.
pub open spec fn adjust_call(run: Run, k: int, token: usize) -> Call {
    Call::AdjustTokenPrivileges {
        token,
        disable_all: 0,
        low: run.replies[k].first,
        high: run.replies[k].second,
        attributes: SE_PRIVILEGE_ENABLED,
    }
}

/// Whether the privilege that step `k` looked up was enabled on a token.
pub open spec fn enables_privilege(run: Run, k: int, token: usize) -> bool {
    &&& looks_up_privilege(run, k)
    &&& run.replies[k].code != 0
    &&& run.asks(k + 1, adjust_call(run, k, token))
    &&& run.answered(k + 1)
    &&& run.replies[k + 1].code != 0
}

/// Whether a token had its privilege before step `k`.
pub open spec fn has_privilege(run: Run, k: int, token: usize) -> bool {
    exists|i: int| i + 1 < k && #[trigger] enables_privilege(run, i, token)
}

/// Whether a run had begun to grant the null device before step `k`.
pub open spec fn null_device_begun(run: Run, k: int) -> bool {
    exists|j: int| j < k && #[trigger] run.asks(j, open_null_device_call())
}

/// Whether a run that has opened a token came, in reading the SID of the token's
/// logon session, as far as its call of that number, counted from 0.
pub open spec fn logon_sid_reached(run: Run, base: usize, stage: int) -> bool {
    &&& run.asks(5, Call::TokenInformationSize { token: base, class: 2 })
    &&& stage >= 1 ==> {
        &&& run.replies[5].first != 0
        &&& run.asks(6, Call::TokenInformation { token: base, class: 2, size: run.replies[5].first })
    }
    &&& stage >= 2 ==> {
        &&& run.replies[6].code != 0
        &&& run.replies[6].first >= 4
        &&& logon_search(run.replies[6].buffer@, run.replies[6].address) matches LogonSearch::Found(sid)
        &&& run.asks(7, Call::LengthSid { sid })
    }
    &&& stage >= 3 ==> {
        &&& run.replies[7].code != 0
        &&& logon_search(run.replies[6].buffer@, run.replies[6].address) matches LogonSearch::Found(sid)
        &&& run.asks(8, Call::CopySid { length: run.replies[7].code, sid })
    }
}

/// Whether a run copied the SID of the logon session of a token.
pub open spec fn logon_sid_copied(run: Run, base: usize) -> bool {
    logon_sid_reached(run, base, 3) && run.answered(8) && run.replies[8].code != 0
}

/// Whether a run made the SID of everyone.
pub open spec fn everyone_sid_made(run: Run) -> bool {
    &&& run.asks(9, Call::WellKnownSidSize { kind: 1 })
    &&& run.asks(10, Call::CreateWellKnownSid { kind: 1, size: run.replies[9].first })
    &&& run.answered(10)
    &&& run.replies[10].code != 0
}

/// The number of a stage of the logon SID's reading.
spec fn logon_stage_number(stage: LogonSidStage) -> int {
    match stage {
        LogonSidStage::Sizing => 0,
        LogonSidStage::Reading => 1,
        LogonSidStage::Measuring { .. } => 2,
        LogonSidStage::Copying => 3,
    }
}

/// Whether step `k` of a run waits in a token's building that has gone as it
/// should.
spec fn token_underway(run: Run, k: int, state: RestrictedToken) -> bool {
    match state.stage {
        RestrictedTokenStage::Logon(inner) => {
            &&& k == 5 + logon_stage_number(inner.stage)
            &&& inner.token == state.base
            &&& logon_sid_reached(run, state.base, logon_stage_number(inner.stage))
            &&& inner.stage matches LogonSidStage::Measuring { sid } ==> run.asks(7, Call::LengthSid { sid })
        },
        RestrictedTokenStage::World(inner) => {
            &&& logon_sid_copied(run, state.base)
            &&& run.asks(9, Call::WellKnownSidSize { kind: 1 })
            &&& match inner {
                WorldSid::Sizing => k == 9,
                WorldSid::Making => k == 10 && run.asks(
                    10,
                    Call::CreateWellKnownSid { kind: 1, size: run.replies[9].first },
                ),
            }
        },
        RestrictedTokenStage::Creating => {
            &&& logon_sid_copied(run, state.base)
            &&& everyone_sid_made(run)
            &&& run.asks(k, create_token_call(state.base, state.capability))
        },
        RestrictedTokenStage::DefaultDacl { token, setting } => {
            &&& logon_sid_copied(run, state.base)
            &&& everyone_sid_made(run)
            &&& token_exists(run, k, state.base, state.capability, token.0)
            &&& match setting {
                DefaultDacl::Merging { token: t } => t == token.0 && lists_default_dacl(run, k, state.capability),
                DefaultDacl::Setting { acl } => {
                    &&& lists_default_dacl(run, k - 1, state.capability)
                    &&& run.replies[k - 1].code == ERROR_SUCCESS
                    &&& run.asks(k, Call::SetTokenDefaultDacl { token: token.0, class: TOKEN_DEFAULT_DACL, acl })
                    &&& acl == run.replies[k - 1].first
                },
            }
        },
        RestrictedTokenStage::Privilege { token, enabling } => {
            &&& logon_sid_copied(run, state.base)
            &&& everyone_sid_made(run)
            &&& token_exists(run, k, state.base, state.capability, token.0)
            &&& has_default_dacl(run, k, state.capability, token.0)
            &&& match enabling {
                Privilege::LookingUp { token: t } => t == token.0 && looks_up_privilege(run, k),
                Privilege::Adjusting => {
                    &&& looks_up_privilege(run, k - 1)
                    &&& run.replies[k - 1].code != 0
                    &&& run.asks(k, adjust_call(run, k - 1, token.0))
                },
            }
        },
    }
}

proof fn lemma_token_underway(run: Run, k: int, state: RestrictedToken)
    requires
        0 <= k < run.replies.len(),
        run.steps.len() == run.replies.len() + 1,
        token_underway(run, k, state),
        token_next(state, run.replies[k]).next is Ask ==> same_request(
            run.steps[k + 1],
            token_next(state, run.replies[k]),
        ),
    ensures
        match token_next(state, run.replies[k]).next {
            NextView::Ask(next, _) => token_underway(run, k + 1, next) && next.base == state.base && next.capability
                == state.capability,
            NextView::Done(Ok(token)) => {
                &&& logon_sid_copied(run, state.base)
                &&& everyone_sid_made(run)
                &&& token_exists(run, k + 1, state.base, state.capability, token.0)
                &&& has_default_dacl(run, k + 1, state.capability, token.0)
                &&& has_privilege(run, k + 1, token.0)
            },
            NextView::Done(Err(_)) => true,
        },
{
    match state.stage {
        RestrictedTokenStage::Creating => {
            assert(run.replies[k].code != 0 ==> created_token(
                run,
                k,
                state.base,
                state.capability,
                run.replies[k].first,
            ));
        },
        RestrictedTokenStage::DefaultDacl { token, setting } => {
            if setting is Setting && run.replies[k].code != 0 {
                assert(sets_default_dacl(run, k - 1, state.capability, token.0));
            }
        },
        RestrictedTokenStage::Privilege { token, enabling } => {
            let i = choose|i: int| i + 1 < k && #[trigger] sets_default_dacl(run, i, state.capability, token.0);
            assert(sets_default_dacl(run, i, state.capability, token.0));
            if enabling is Adjusting && run.replies[k].code != 0 {
                assert(enables_privilege(run, k - 1, token.0));
            }
        },
        _ => {},
    }
}

/// Whether a write restriction was built before step `k`: the SIDs of the logon
/// session and of everyone are there, the token's first restricting SID is the
/// capability SID, it has its default DACL and its privilege, the granting of
/// the null device was begun, and the capability SID was granted every root.
pub open spec fn in_force(
    run: Run,
    k: int,
    policy: SandboxPolicy,
    sid: CapabilitySid,
    restriction: WriteRestriction,
) -> bool {
    let address = restriction.cleanup.cap_sid.psid;
    let token = restriction.token.0;
    &&& minted(run, sid, address)
    &&& resolved(run, policy, restriction.cleanup.roots)
    &&& opened_own_token(run, run.replies[4].first)
    &&& logon_sid_copied(run, run.replies[4].first)
    &&& everyone_sid_made(run)
    &&& token_exists(run, k, run.replies[4].first, address, token)
    &&& has_default_dacl(run, k, address, token)
    &&& has_privilege(run, k, token)
    &&& null_device_begun(run, k)
    &&& forall|i: int| 0 <= i < roots(run).len() ==> granted(run, k, #[trigger] roots(run)[i], address)
}

/// What the building has done when it grants.
spec fn held_underway(run: Run, k: int, policy: SandboxPolicy, sid: CapabilitySid, held: Held) -> bool {
    &&& 5 <= k
    &&& minted(run, sid, held.cap_sid.psid)
    &&& resolved(run, policy, held.roots)
    &&& opened_own_token(run, held.base.0)
    &&& logon_sid_copied(run, held.base.0)
    &&& everyone_sid_made(run)
    &&& token_exists(run, k, held.base.0, held.cap_sid.psid, held.token.0)
    &&& has_default_dacl(run, k, held.cap_sid.psid, held.token.0)
    &&& has_privilege(run, k, held.token.0)
}

/// The number of a stage of the null device's granting.
spec fn null_stage_number(stage: NullDeviceStage) -> int {
    match stage {
        NullDeviceStage::Opening => 0,
        NullDeviceStage::Querying { .. } => 1,
        NullDeviceStage::Merging { .. } => 2,
        NullDeviceStage::Applying { .. } => 3,
    }
}

/// Whether the granting of the null device that begins at step `j` came as far
/// as its call of that number, counted from 0.
pub open spec fn null_device_reached(run: Run, j: int, sid: SidRef, stage: int) -> bool {
    let handle = run.replies[j].first;
    &&& run.asks(j, open_null_device_call())
    &&& stage >= 1 ==> edit_goes_on(run, j, 0) && run.asks(j + 1, query_dacl_call(handle))
    &&& stage >= 2 ==> edit_goes_on(run, j, 1) && run.merges(j + 2, run.replies[j + 1].first, null_device_entry(sid))
    &&& stage >= 3 ==> edit_goes_on(run, j, 2) && run.asks(
        j + 3,
        Call::SetSecurityInfo {
            handle,
            object_type: SE_KERNEL_OBJECT,
            information: DACL_SECURITY_INFORMATION,
            acl: run.replies[j + 2].first,
        },
    )
}

/// Whether step `k` of a run waits in a granting of the null device that has
/// gone as it should.
spec fn null_device_underway(run: Run, k: int, grant: NullDevice) -> bool {
    let j = k - null_stage_number(grant.stage);
    &&& 0 <= j
    &&& null_device_reached(run, j, grant.sid, null_stage_number(grant.stage))
    &&& match grant.stage {
        NullDeviceStage::Opening => true,
        NullDeviceStage::Querying { handle } => handle == run.replies[j].first,
        NullDeviceStage::Merging { handle, .. } => handle == run.replies[j].first,
        NullDeviceStage::Applying { handle, .. } => handle == run.replies[j].first,
    }
}

proof fn lemma_null_device_underway(run: Run, k: int, grant: NullDevice)
    requires
        0 <= k < run.replies.len(),
        run.steps.len() == run.replies.len() + 1,
        null_device_underway(run, k, grant),
        null_device_next(grant, run.replies[k]).next is Ask ==> same_request(
            run.steps[k + 1],
            null_device_next(grant, run.replies[k]),
        ),
    ensures
        null_device_next(grant, run.replies[k]).next matches NextView::Ask(next, _) ==> null_device_underway(
            run,
            k + 1,
            next,
        ) && next.sid == grant.sid,
{
}

/// Whether an answer refuses a call that a write restriction cannot do without,
/// and that is the error.
pub open spec fn refuses(call: Call, reply: Reply, error: SandboxError) -> bool {
    let last_error = reply.last_error;
    let code = reply.code;
    match call {
        Call::ConvertStringSidToSid { .. } => (code == 0 || reply.first == 0) && error is InvalidSidString,
        Call::OpenProcessToken { .. } => code == 0 && error == (SandboxError::OpenProcessToken { last_error }),
        Call::TokenInformationSize { .. } => reply.first == 0 && error is TokenGroupsSize,
        Call::TokenInformation { .. } => if code == 0 || reply.first < 4 {
            error is TokenGroups
        } else {
            match logon_search(reply.buffer@, reply.address) {
                LogonSearch::Found(_) => false,
                LogonSearch::Absent => error is LogonSidMissing,
                LogonSearch::Truncated => error is TokenGroupsTruncated,
            }
        },
        Call::LengthSid { .. } => code == 0 && error is LogonSidLength,
        Call::CopySid { .. } => code == 0 && error is LogonSidCopy,
        Call::CreateWellKnownSid { .. } => code == 0 && error == (SandboxError::CreateWellKnownSid { last_error }),
        Call::CreateRestrictedToken { .. } => code == 0 && error == (SandboxError::CreateRestrictedToken {
            last_error,
        }),
        Call::SetTokenDefaultDacl { .. } => code == 0 && error == (SandboxError::SetTokenDefaultDacl { last_error }),
        Call::LookupPrivilegeValue => code == 0 && error == (SandboxError::LookupPrivilegeValue { last_error }),
        Call::AdjustTokenPrivileges { .. } => code == 0 && error == (SandboxError::AdjustTokenPrivileges {
            last_error,
        }),
        Call::CreateFile { target, .. } => {
            &&& !opened(reply.first)
            &&& target matches Target::Root(root)
            &&& error == (SandboxError::CreateFile { root, last_error })
        },
        Call::GetSecurityInfo { .. } => {
            &&& code != ERROR_SUCCESS
            &&& error matches SandboxError::GetSecurityInfo { code: status, .. }
            &&& status == code
        },
        Call::SetEntriesInAcl { .. } => {
            &&& code != ERROR_SUCCESS
            &&& match error {
                SandboxError::SetEntriesInAcl { code: status, .. } => status == code,
                SandboxError::DefaultDaclEntries { code: status } => status == code,
                _ => false,
            }
        },
        Call::InitializeSecurityDescriptor { .. } => {
            &&& code == 0
            &&& error == (SandboxError::InitializeSecurityDescriptor { last_error })
        },
        Call::SetSecurityDescriptorDacl { .. } => code == 0 && error == (SandboxError::SetSecurityDescriptorDacl {
            last_error,
        }),
        Call::SetKernelObjectSecurity { .. } => {
            &&& code == 0
            &&& error matches SandboxError::SetKernelObjectSecurity { last_error: status, .. }
            &&& status == last_error
        },
        _ => false,
    }
}

/// Whether the call of step `k` was refused, and that is the error.
pub open spec fn refused_at(run: Run, k: int, error: SandboxError) -> bool {
    &&& run.answered(k)
    &&& run.steps[k].next matches NextView::Ask(_, request)
    &&& refuses(request.call, run.replies[k], error)
}

/// Whether a call before step `k` was refused, and that is the error.
pub open spec fn refused_before(run: Run, k: int, error: SandboxError) -> bool {
    exists|i: int| i < k && #[trigger] refused_at(run, i, error)
}

/// Whether step `k` of a run waits in a restriction's building that has gone as
/// it should.
spec fn restriction_underway(run: Run, k: int, policy: SandboxPolicy, sid: CapabilitySid, state: Restriction) -> bool {
    match state {
        Restriction::Minting { directories } => {
            &&& k == 2
            &&& directories == policy.writable_directories
            &&& run.asks(2, Call::ConvertStringSidToSid { capability: sid })
            &&& run.brings(2, PayloadView::Text(utf16(sid_text(sid)).push(0)))
        },
        Restriction::Resolving { cap_sid } => {
            &&& k == 3
            &&& minted(run, sid, cap_sid.psid)
            &&& run.asks(3, Call::ResolveRoots)
            &&& run.brings(3, PayloadView::Directories(policy@.writable_directories))
        },
        Restriction::OpeningToken { cap_sid, roots } => {
            &&& k == 4
            &&& minted(run, sid, cap_sid.psid)
            &&& resolved(run, policy, roots)
            &&& run.asks(4, Call::OpenProcessToken { access: BASE_TOKEN_ACCESS })
        },
        Restriction::BuildingToken { cap_sid, roots, base, building } => {
            &&& 5 <= k
            &&& minted(run, sid, cap_sid.psid)
            &&& resolved(run, policy, roots)
            &&& opened_own_token(run, base.0)
            &&& building.base == base.0
            &&& building.capability == cap_sid.psid
            &&& token_underway(run, k, building)
        },
        Restriction::GrantingNull { held, null_device } => {
            &&& held_underway(run, k, policy, sid, held)
            &&& null_device.sid == SidRef::Pointer(held.cap_sid.psid)
            &&& null_device_underway(run, k, null_device)
        },
        Restriction::GrantingRoot { held, at, granting } => {
            &&& held_underway(run, k, policy, sid, held)
            &&& null_device_begun(run, k)
            &&& at < roots(run).len()
            &&& granting.root == roots(run)[at as int]
            &&& granting.entry == write_entry(SidRef::Pointer(held.cap_sid.psid))
            &&& edit_underway(run, k, granting)
            &&& forall|i: int| 0 <= i < at ==> granted(run, k, #[trigger] roots(run)[i], held.cap_sid.psid)
        },
        Restriction::Undoing { undo, at, revoking } => {
            &&& 5 <= k
            &&& minted(run, sid, undo.cap_sid.psid)
            &&& resolved(run, policy, undo.roots)
            &&& at < undo.granted < roots(run).len()
            &&& revoking.root == roots(run)[at as int]
            &&& revoking.entry == revoke_entry(SidRef::Pointer(undo.cap_sid.psid))
            &&& edit_underway(run, k, revoking)
            &&& refused_before(run, k, undo.error)
        },
    }
}

/// The step that grants the next root goes on as it should, if all roots before
/// have been granted.
proof fn lemma_grant_underway(run: Run, k: int, policy: SandboxPolicy, sid: CapabilitySid, held: Held, place: int)
    requires
        0 <= k < run.steps.len(),
        0 <= place <= roots(run).len(),
        held_underway(run, k, policy, sid, held),
        null_device_begun(run, k),
        forall|i: int| 0 <= i < place ==> granted(run, k, #[trigger] roots(run)[i], held.cap_sid.psid),
        grant_from(held, place).next is Ask ==> same_request(run.steps[k], grant_from(held, place)),
    ensures
        match grant_from(held, place).next {
            NextView::Ask(next, _) => restriction_underway(run, k, policy, sid, next),
            NextView::Done(Ok(restriction)) => in_force(run, k, policy, sid, restriction),
            NextView::Done(Err(_)) => true,
        },
{
    lemma_roots_fit(held.roots);
}

/// What had happened before a step has happened before a later one.
proof fn lemma_still_held(run: Run, k: int, policy: SandboxPolicy, sid: CapabilitySid, held: Held)
    requires
        held_underway(run, k, policy, sid, held),
    ensures
        held_underway(run, k + 1, policy, sid, held),
{
    let address = held.cap_sid.psid;
    let token = held.token.0;
    let i = choose|i: int| i < k && #[trigger] created_token(run, i, held.base.0, address, token);
    assert(created_token(run, i, held.base.0, address, token));
    let i = choose|i: int| i + 1 < k && #[trigger] sets_default_dacl(run, i, address, token);
    assert(sets_default_dacl(run, i, address, token));
    let i = choose|i: int| i + 1 < k && #[trigger] enables_privilege(run, i, token);
    assert(enables_privilege(run, i, token));
}

proof fn lemma_granted_later(run: Run, k: int, later: int, root: usize, address: usize)
    requires
        granted(run, k, root, address),
        k <= later,
    ensures
        granted(run, later, root, address),
{
}

proof fn lemma_restriction_underway(run: Run, k: int, policy: SandboxPolicy, sid: CapabilitySid, state: Restriction)
    requires
        0 <= k < run.replies.len(),
        run.steps.len() == run.replies.len() + 1,
        restriction_underway(run, k, policy, sid, state),
        restriction_next(state, run.replies[k]).next is Ask ==> same_request(
            run.steps[k + 1],
            restriction_next(state, run.replies[k]),
        ),
    ensures
        match restriction_next(state, run.replies[k]).next {
            NextView::Ask(next, _) => restriction_underway(run, k + 1, policy, sid, next),
            NextView::Done(Ok(restriction)) => in_force(run, k + 1, policy, sid, restriction),
            NextView::Done(Err(_)) => true,
        },
{
    let reply = run.replies[k];
    match state {
        Restriction::Minting { .. } => {},
        Restriction::Resolving { .. } => {},
        Restriction::OpeningToken { .. } => {},
        Restriction::BuildingToken { cap_sid, roots, base, building } => {
            lemma_token_underway(run, k, building);
        },
        Restriction::GrantingNull { held, null_device } => {
            lemma_null_device_underway(run, k, null_device);
            lemma_still_held(run, k, policy, sid, held);
            assert(run.asks(k - null_stage_number(null_device.stage), open_null_device_call()));
            if null_device_next(null_device, reply).next is Done {
                lemma_grant_underway(run, k + 1, policy, sid, held, 0);
            }
        },
        Restriction::GrantingRoot { held, at, granting } => {
            lemma_edit_underway(run, k, granting);
            lemma_still_held(run, k, policy, sid, held);
            assert(null_device_begun(run, k + 1)) by {
                let j = choose|j: int| j < k && #[trigger] run.asks(j, open_null_device_call());
                assert(run.asks(j, open_null_device_call()));
            }
            let step = edit_next(granting, reply);
            assert forall|i: int| 0 <= i < at implies granted(
                run,
                k + 1,
                #[trigger] roots(run)[i],
                held.cap_sid.psid,
            ) by {
                lemma_granted_later(run, k, k + 1, roots(run)[i], held.cap_sid.psid);
            }
            if step.next matches NextView::Done(Ok(_)) {
                assert(granted(run, k + 1, roots(run)[at as int], held.cap_sid.psid));
                lemma_grant_underway(run, k + 1, policy, sid, held, at + 1);
            }
            if let NextView::Done(Err(error)) = step.next {
                assert(refused_at(run, k, error));
            }
        },
        Restriction::Undoing { undo, at, revoking } => {
            lemma_roots_fit(undo.roots);
            lemma_edit_underway(run, k, revoking);
            assert(refused_before(run, k + 1, undo.error)) by {
                let i = choose|i: int| i < k && #[trigger] refused_at(run, i, undo.error);
                assert(refused_at(run, i, undo.error));
            }
        },
    }
}

/// Whether the user was told, at step `k`, that the command runs without its
/// write restriction.
pub open spec fn warned(run: Run, k: int) -> bool {
    exists|error: SandboxError| #[trigger] run.asks(k, Call::WarnUnrestricted { error })
}

/// Whether step `k` creates the command's process as it should, with the
/// restriction that is in force.
spec fn spawns(
    run: Run,
    k: int,
    policy: SandboxPolicy,
    sid: CapabilitySid,
    restriction: Option<WriteRestriction>,
) -> bool {
    match restriction {
        None => {
            &&& run.asks(k, create_process_call(None))
            &&& run.brings(k, launch_payload(command_of(policy)@))
            &&& policy.allow_fs_write ==> k == 2
            &&& !policy.allow_fs_write ==> warned(run, k - 1)
        },
        Some(w) => {
            &&& run.asks(k, create_process_call(Some(w.token.0)))
            &&& run.brings(k, launch_payload(command_of(policy)@))
            &&& !policy.allow_fs_write
            &&& in_force(run, k, policy, sid, w)
        },
    }
}

/// Whether step `p` created the command's process, which the helper now has.
spec fn spawned_at(run: Run, p: int, policy: SandboxPolicy, sid: CapabilitySid, running: Running) -> bool {
    &&& made_job(run, running.job.handle.0)
    &&& spawns(run, p, policy, sid, running.restriction)
    &&& run.answered(p)
    &&& run.replies[p].code != 0
    &&& run.replies[p].first == running.child.process.0
    &&& run.replies[p].second == running.child.thread.0
}

/// Whether step `k` of a run waits in a state that the run has reached as it
/// should.
spec fn helper_underway(run: Run, k: int, policy: SandboxPolicy, sid: CapabilitySid, state: Helper) -> bool {
    match state {
        Helper::MakingJob { policy: p, sid: s, making } => {
            &&& p == policy
            &&& s == sid
            &&& run.asks(0, Call::CreateJobObject)
            &&& match making {
                JobSetup::Creating => k == 0,
                JobSetup::Limiting { handle } => {
                    &&& k == 1
                    &&& run.replies[0].first == handle.0
                    &&& handle.0 != 0
                    &&& run.asks(1, limit_job_call(handle.0))
                },
            }
        },
        Helper::Restricting { job, command, building } => {
            &&& !policy.allow_fs_write
            &&& command == command_of(policy)
            &&& made_job(run, job.handle.0)
            &&& restriction_underway(run, k, policy, sid, building)
        },
        Helper::Warning { job, command } => {
            &&& !policy.allow_fs_write
            &&& command == command_of(policy)
            &&& made_job(run, job.handle.0)
            &&& warned(run, k)
        },
        Helper::Spawning { job, restriction } => made_job(run, job.handle.0) && spawns(
            run,
            k,
            policy,
            sid,
            restriction,
        ),
        Helper::Assigning { running } => {
            &&& spawned_at(run, k - 1, policy, sid, running)
            &&& run.asks(
                k,
                Call::AssignProcessToJobObject { job: running.job.handle.0, process: running.child.process.0 },
            )
        },
        Helper::Resuming { running } => {
            &&& spawned_at(run, k - 2, policy, sid, running)
            &&& run.asks(
                k - 1,
                Call::AssignProcessToJobObject { job: running.job.handle.0, process: running.child.process.0 },
            )
            &&& run.replies[k - 1].code != 0
            &&& run.asks(k, Call::ResumeThread { thread: running.child.thread.0 })
        },
        Helper::Waiting { running } => {
            &&& spawned_at(run, k - 3, policy, sid, running)
            &&& run.asks(k, Call::WaitForSingleObject { handle: running.child.process.0, timeout: INFINITE })
        },
        Helper::ReadingExitCode { running } => {
            &&& spawned_at(run, k - 4, policy, sid, running)
            &&& run.asks(
                k,
                Call::GetExitCodeProcess { process: running.child.process.0, preset: EXIT_CODE_PRESET },
            )
        },
        Helper::Revoking { ending, at, revoking } => {
            &&& !policy.allow_fs_write
            &&& minted(run, sid, ending.cleanup.cap_sid.psid)
            &&& resolved(run, policy, ending.cleanup.roots)
            &&& at < roots(run).len()
            &&& revoking.root == roots(run)[at as int]
            &&& revoking.entry == revoke_entry(SidRef::Pointer(ending.cleanup.cap_sid.psid))
            &&& edit_underway(run, k, revoking)
            &&& spawned_before(run, k)
        },
    }
}

/// Whether a step before step `k` created the command's process.
spec fn spawned_before(run: Run, k: int) -> bool {
    exists|p: int, token: Option<usize>| p < k && #[trigger] run.asks(p, create_process_call(token))
}

/// Whether step `k` of a run is one that the run has reached as it should.
spec fn step_underway(run: Run, k: int, policy: SandboxPolicy, sid: CapabilitySid) -> bool {
    match run.steps[k].next {
        NextView::Ask(state, _) => helper_underway(run, k, policy, sid, state),
        NextView::Done(outcome) => spawned_before(run, k) || jobless(run, k, outcome),
    }
}

/// Whether a run is over at step `k` because there is no job.
spec fn jobless(run: Run, k: int, outcome: RunOutcome) -> bool {
    ||| {
        &&& k == 1
        &&& run.replies[0].first == 0
        &&& outcome == Err::<i32, _>(SandboxError::CreateJobObject { last_error: run.replies[0].last_error })
    }
    ||| {
        &&& k == 2
        &&& run.replies[0].first != 0
        &&& run.replies[1].code == 0
        &&& outcome == Err::<i32, _>(SandboxError::SetInformationJobObject { last_error: run.replies[1].last_error })
    }
}

proof fn lemma_helper_underway(run: Run, k: int, policy: SandboxPolicy, sid: CapabilitySid)
    requires
        run.valid(policy, sid),
        0 <= k < run.steps.len(),
    ensures
        step_underway(run, k, policy, sid),
    decreases k,
{
    if k > 0 {
        lemma_helper_underway(run, k - 1, policy, sid);
        assert(run.follows(k - 1));
        let reply = run.replies[k - 1];
        if let NextView::Ask(state, _) = run.steps[k - 1].next {
            match state {
                Helper::MakingJob { making, .. } => {},
                Helper::Restricting { building, .. } => {
                    lemma_restriction_underway(run, k - 1, policy, sid, building);
                    let step = restriction_next(building, reply);
                    if let NextView::Done(Err(error)) = step.next {
                        assert(run.asks(k, Call::WarnUnrestricted { error }));
                    }
                },
                Helper::Warning { .. } => {},
                Helper::Spawning { .. } => {},
                Helper::Assigning { .. } => {},
                Helper::Resuming { .. } => {},
                Helper::Waiting { .. } => {},
                Helper::ReadingExitCode { .. } => {},
                Helper::Revoking { ending, revoking, .. } => {
                    lemma_roots_fit(ending.cleanup.roots);
                    lemma_edit_underway(run, k - 1, revoking);
                },
            }
        }
    }
}

/// The command's process is always created suspended, and it runs only once it
/// is in a job that kills it when the helper goes away: step `k` resumes a
/// thread only if the step before put its process into that job, and the step
/// before that created both.
pub proof fn law_command_is_confined(run: Run, policy: SandboxPolicy, sid: CapabilitySid, k: int, thread: usize)
    requires
        run.valid(policy, sid),
        run.asks(k, Call::ResumeThread { thread }),
    ensures
        4 <= k,
        made_job(run, run.replies[0].first),
        exists|token: Option<usize>| #[trigger] run.asks(k - 2, create_process_call(token)),
        run.replies[k - 2].code != 0,
        run.replies[k - 2].second == thread,
        run.asks(
            k - 1,
            Call::AssignProcessToJobObject { job: run.replies[0].first, process: run.replies[k - 2].first },
        ),
        run.replies[k - 1].code != 0,
{
    law_state_awaits_its_call(run, policy, sid, k);
    lemma_helper_underway(run, k, policy, sid);
}

/// A restriction that a token and an address stand for.
pub open spec fn restriction_of(run: Run, token: usize) -> WriteRestriction {
    WriteRestriction {
        token: OwnedHandle(token),
        cleanup: AceCleanup {
            cap_sid: LocalSid { psid: run.replies[2].first },
            roots: Roots { found: run.replies[3].directories },
        },
    }
}

/// The command's writes are restricted by default. Its process is created
/// suspended, in one of three ways:
/// - under a token whose first restricting SID is the capability SID, after
///   that SID was granted write access to each writable root;
/// - under the helper's own token, if the policy allows all writes, and then
///   nothing of the restriction was built;
/// - under the helper's own token, if the restriction cannot be had, and then
///   the user has just been warned.
pub proof fn law_writes_are_restricted(run: Run, policy: SandboxPolicy, sid: CapabilitySid, k: int, call: Call)
    requires
        run.valid(policy, sid),
        run.asks(k, call),
        call is CreateProcess,
    ensures
        call == create_process_call(call->primary_token),
        made_job(run, run.replies[0].first),
        match call->primary_token {
            Some(token) => !policy.allow_fs_write && in_force(run, k, policy, sid, restriction_of(run, token)),
            None => if policy.allow_fs_write {
                k == 2
            } else {
                warned(run, k - 1)
            },
        },
{
    law_state_awaits_its_call(run, policy, sid, k);
    lemma_helper_underway(run, k, policy, sid);
}

/// The process that is created runs the policy's program with the policy's
/// arguments, and no run creates two: what it is launched with is the command
/// line of them all, ending in a 0. Where the program's name can be read at all,
/// what stands before the 0 is UTF-16 for a line that is split into exactly the
/// program and all of its arguments.
pub proof fn law_policy_command_is_launched(run: Run, policy: SandboxPolicy, sid: CapabilitySid, k: int, call: Call)
    requires
        run.valid(policy, sid),
        run.asks(k, call),
        call is CreateProcess,
    ensures
        run.brings(k, launch_payload(seq![policy@.program] + policy@.args)),
        run.steps[k].next matches NextView::Ask(_, request) && (request.payload matches PayloadView::Launch {
            command_line: line,
            desktop,
        } && {
            &&& line == utf16(command_line(seq![policy@.program] + policy@.args)).push(0)
            &&& line.len() > 0
            &&& line.last() == 0
            &&& readable_program(policy@.program) ==> split_command_line(utf16_lossy(line.drop_last()))
                == seq![policy@.program] + policy@.args
            &&& desktop.len() > 0
            &&& desktop.last() == 0
            &&& utf16_lossy(desktop.drop_last()) == "Winsta0\\Default"@
        }),
        forall|other: int, again: Call| #[trigger] run.asks(other, again) && again is CreateProcess ==> other == k,
{
    let argv = seq![policy@.program] + policy@.args;
    law_state_awaits_its_call(run, policy, sid, k);
    lemma_helper_underway(run, k, policy, sid);
    assert(argv[0] == policy@.program);
    if readable_program(policy@.program) {
        law_launched_argv_is_read_back(argv);
    }
    law_wide_text_is_read_back("Winsta0\\Default"@);
    assert(utf16("Winsta0\\Default"@).push(0).drop_last() =~= utf16("Winsta0\\Default"@));
    assert forall|other: int, again: Call| #[trigger] run.asks(other, again) && again is CreateProcess implies other
        == k by {
        law_state_awaits_its_call(run, policy, sid, other);
        lemma_helper_underway(run, other, policy, sid);
        if other > k {
            lemma_launch(run, policy, sid, k, call->primary_token, other);
        } else if other < k {
            lemma_launch(run, policy, sid, other, again->primary_token, k);
        }
    }
}

proof fn lemma_token_fails_by_refusal(state: RestrictedToken, call: Call, reply: Reply)
    requires
        token_awaits(state, call),
    ensures
        token_next(state, reply).next matches NextView::Done(Err(error)) ==> refuses(call, reply, error),
{
}

/// The command is not run without its write restriction for nothing: when the
/// user is warned, a call that the restriction cannot do without was refused
/// before, and that is what the warning tells.
pub proof fn law_warning_tells_refusal(
    run: Run,
    policy: SandboxPolicy,
    sid: CapabilitySid,
    k: int,
    error: SandboxError,
)
    requires
        run.valid(policy, sid),
        run.asks(k, Call::WarnUnrestricted { error }),
    ensures
        refused_before(run, k, error),
{
    law_state_awaits_its_call(run, policy, sid, k);
    lemma_helper_underway(run, k, policy, sid);
    law_state_awaits_its_call(run, policy, sid, k - 1);
    lemma_helper_underway(run, k - 1, policy, sid);
    assert(run.follows(k - 1));
    let reply = run.replies[k - 1];
    if let NextView::Ask(Helper::Restricting { building, .. }, request) = run.steps[k - 1].next {
        match building {
            Restriction::BuildingToken { building, .. } => {
                lemma_token_fails_by_refusal(building, request.call, reply);
            },
            Restriction::Undoing { undo, .. } => {
                let i = choose|i: int| i < k - 1 && #[trigger] refused_at(run, i, undo.error);
                assert(refused_at(run, i, error));
            },
            _ => {},
        }
        assert(refused_at(run, k - 1, error) || building is Undoing);
    }
}

proof fn lemma_edited_root(run: Run, policy: SandboxPolicy, sid: CapabilitySid, k: int, root: usize)
    requires
        run.valid(policy, sid),
        run.asks(k, open_for_dacl_edit_call(root)),
    ensures
        !policy.allow_fs_write,
        resolved(run, policy, Roots { found: run.replies[3].directories }),
        roots(run).contains(root),
{
    law_state_awaits_its_call(run, policy, sid, k);
    lemma_helper_underway(run, k, policy, sid);
}

/// A root is a directory that exists, and no other root is the same path.
proof fn lemma_root_is_single(found: Seq<Directory>, root: usize)
    requires
        found.len() <= usize::MAX,
        roots_of(found).contains(root),
    ensures
        root < found.len(),
        found[root as int].exists,
        forall|other: usize|
            #![trigger found[other as int]]
            roots_of(found).contains(other) && other != root ==> found[other as int].first != found[root as int].first,
{
    let roots = roots_of(found);
    law_roots_cover_without_repetition(found);
    let place = choose|place: int| 0 <= place < roots.len() && roots[place] == root;
    assert forall|other: usize|
        #![trigger found[other as int]]
        roots.contains(other) && other != root implies found[other as int].first != found[root as int].first by {
        let second = choose|second: int| 0 <= second < roots.len() && roots[second] == other;
        if place < second {
            assert(roots[place] < roots[second]);
        } else {
            assert(roots[second] < roots[place]);
        }
    }
}

/// An object whose DACL a run edits is a writable root, and there is none if the
/// policy allows all writes. A root is the number of one of the policy's
/// directories that exists, and no two roots are the same path. For the null
/// device, the one other object whose DACL is set, see
/// [`law_null_device_is_granted_to_the_capability`].
pub proof fn law_only_roots_are_edited(run: Run, policy: SandboxPolicy, sid: CapabilitySid, k: int, root: usize)
    requires
        run.valid(policy, sid),
        run.asks(k, open_for_dacl_edit_call(root)),
    ensures
        !policy.allow_fs_write,
        ({
            let found = run.replies[3].directories;
            let directories = policy@.writable_directories;
            &&& resolved(run, policy, Roots { found })
            &&& roots(run).contains(root)
            &&& root < found@.len()
            &&& found@.len() == directories.len() ==> root < directories.len()
            &&& found@[root as int].exists
            &&& forall|other: usize|
                #![trigger found@[other as int]]
                roots(run).contains(other) && other != root ==> found@[other as int].first != found@[root as int].first
        }),
{
    let found = run.replies[3].directories;
    lemma_edited_root(run, policy, sid, k, root);
    assert(found.len() == found@.len());
    lemma_root_is_single(found@, root);
}

/// Whether the edit that begins at step `j` grants a root to the SID at an
/// address, or revokes that, and has come to its last call.
pub open spec fn edits_for(run: Run, j: int, root: usize, address: usize) -> bool {
    ||| edit_reached(run, j, root, write_entry(SidRef::Pointer(address)), 5)
    ||| edit_reached(run, j, root, revoke_entry(SidRef::Pointer(address)), 5)
}

/// The only identity whose access to a root is ever changed is the capability
/// SID: whenever a run sets a DACL on a root, what it has merged into it is the
/// entry that grants that SID write access, or the one that revokes it.
pub proof fn law_only_the_capability_is_granted(
    run: Run,
    policy: SandboxPolicy,
    sid: CapabilitySid,
    k: int,
    handle: usize,
    information: u32,
)
    requires
        run.valid(policy, sid),
        run.asks(k, Call::SetKernelObjectSecurity { handle, information }),
    ensures
        minted(run, sid, run.replies[2].first),
        information == DACL_SECURITY_INFORMATION,
        handle == run.replies[k - 5].first,
        exists|root: usize|
            roots(run).contains(root) && #[trigger] edits_for(run, k - 5, root, run.replies[2].first),
{
    law_state_awaits_its_call(run, policy, sid, k);
    lemma_helper_underway(run, k, policy, sid);
    if let NextView::Ask(state, _) = run.steps[k].next {
        match state {
            Helper::Restricting { building, .. } => {
                if let Restriction::GrantingRoot { granting, .. } = building {
                    assert(edits_for(run, k - 5, granting.root, run.replies[2].first));
                }
                if let Restriction::Undoing { revoking, .. } = building {
                    assert(edits_for(run, k - 5, revoking.root, run.replies[2].first));
                }
            },
            Helper::Revoking { revoking, .. } => {
                assert(edits_for(run, k - 5, revoking.root, run.replies[2].first));
            },
            _ => {},
        }
    }
}

/// Besides the roots, the one object whose DACL a run sets is the null device:
/// whenever it sets one through `SetSecurityInfo`, that is on the handle of the
/// null device, with the capability SID's entry merged into it. That entry
/// stays.
pub proof fn law_null_device_is_granted_to_the_capability(
    run: Run,
    policy: SandboxPolicy,
    sid: CapabilitySid,
    k: int,
    call: Call,
)
    requires
        run.valid(policy, sid),
        run.asks(k, call),
        call is SetSecurityInfo,
    ensures
        !policy.allow_fs_write,
        minted(run, sid, run.replies[2].first),
        call->SetSecurityInfo_handle == run.replies[k - 3].first,
        null_device_reached(run, k - 3, SidRef::Pointer(run.replies[2].first), 3),
{
    law_state_awaits_its_call(run, policy, sid, k);
    lemma_helper_underway(run, k, policy, sid);
}

/// What comes of a command that is launched at step `p`, by the answers to the
/// calls from there on: the exit code of the process, or the first call that
/// failed.
pub open spec fn launch_outcome(run: Run, p: int) -> RunOutcome {
    if run.replies[p].code == 0 {
        Err(SandboxError::CreateProcess { last_error: run.replies[p].last_error })
    } else if run.replies[p + 1].code == 0 {
        Err(SandboxError::AssignProcessToJobObject { last_error: run.replies[p + 1].last_error })
    } else if run.replies[p + 2].code == 0xFFFF_FFFF {
        Err(SandboxError::ResumeThread { last_error: run.replies[p + 2].last_error })
    } else {
        Ok(exit_status(run.replies[p + 4].code) as i32)
    }
}

/// Whether the ACE of a root was revoked after step `p` and before step `k`, as
/// far as the answers let it be.
pub open spec fn revoked(run: Run, p: int, k: int, root: usize, address: usize) -> bool {
    exists|j: int| p < j < k && #[trigger] edit_pursued(run, j, root, revoke_entry(SidRef::Pointer(address)))
}

/// Whether step `k` of a run follows as it should from the launch at step `p`.
spec fn launch_underway(
    run: Run,
    p: int,
    k: int,
    job: KillOnCloseJob,
    restriction: Option<WriteRestriction>,
) -> bool {
    match run.steps[k].next {
        NextView::Ask(Helper::Assigning { running }, _) => k == p + 1 && running_since(run, p, job, restriction, running),
        NextView::Ask(Helper::Resuming { running }, _) => {
            &&& k == p + 2
            &&& running_since(run, p, job, restriction, running)
            &&& run.replies[p + 1].code != 0
        },
        NextView::Ask(Helper::Waiting { running }, request) => {
            &&& k == p + 3
            &&& running_since(run, p, job, restriction, running)
            &&& run.replies[p + 1].code != 0
            &&& run.replies[p + 2].code != RESUME_FAILED
            &&& run.asks(k, Call::WaitForSingleObject { handle: run.replies[p].first, timeout: INFINITE })
        },
        NextView::Ask(Helper::ReadingExitCode { running }, _) => {
            &&& k == p + 4
            &&& running_since(run, p, job, restriction, running)
            &&& run.replies[p + 1].code != 0
            &&& run.replies[p + 2].code != RESUME_FAILED
            &&& run.asks(p + 3, Call::WaitForSingleObject { handle: run.replies[p].first, timeout: INFINITE })
            &&& run.asks(k, Call::GetExitCodeProcess { process: run.replies[p].first, preset: EXIT_CODE_PRESET })
        },
        NextView::Ask(Helper::Revoking { ending, at, revoking }, _) => {
            &&& restriction matches Some(w)
            &&& ending.cleanup == w.cleanup
            &&& ending.job == job
            &&& ending.outcome == launch_outcome(run, p)
            &&& launch_done(run, p, k, w.token.0)
            &&& at < w.cleanup.roots@.len()
            &&& revoking.root == w.cleanup.roots@[at as int]
            &&& revoking.entry == revoke_entry(SidRef::Pointer(w.cleanup.cap_sid.psid))
            &&& edit_underway(run, k, revoking)
            &&& p < k - stage_number(revoking.stage)
            &&& forall|i: int|
                0 <= i < at ==> revoked(run, p, k, #[trigger] w.cleanup.roots@[i], w.cleanup.cap_sid.psid)
        },
        NextView::Ask(..) => false,
        NextView::Done(outcome) => {
            &&& outcome == launch_outcome(run, p)
            &&& job.handle.0 != 0 ==> ends_with_job(run.steps[k], job.handle.0)
            &&& restriction matches Some(w) ==> {
                &&& launch_done(run, p, k, w.token.0)
                &&& forall|i: int|
                    0 <= i < w.cleanup.roots@.len() ==> revoked(
                        run,
                        p,
                        k,
                        #[trigger] w.cleanup.roots@[i],
                        w.cleanup.cap_sid.psid,
                    )
            }
            &&& outcome is Ok ==> waited(run, p)
        },
    }
}

/// Whether the helper waited without limit for the process that step `p`
/// created, and then read its exit code.
pub open spec fn waited(run: Run, p: int) -> bool {
    let process = run.replies[p].first;
    &&& run.asks(p + 3, Call::WaitForSingleObject { handle: process, timeout: 0xFFFF_FFFF })
    &&& run.asks(p + 4, Call::GetExitCodeProcess { process, preset: 127 })
    &&& run.answered(p + 4)
}

/// Whether closing a job is the last thing that a step does.
pub open spec fn ends_with_job(step: StepView<Helper, RunOutcome>, job: usize) -> bool {
    step.releases.len() > 0 && step.releases.last() == Release::CloseHandle(job)
}

/// Whether the launch at step `p` is over at step `k`. If the command ran, the
/// token was closed first.
spec fn launch_done(run: Run, p: int, k: int, token: usize) -> bool {
    launch_outcome(run, p) is Ok ==> {
        &&& p + 5 <= k
        &&& waited(run, p)
        &&& close_handle(token).is_prefix_of(run.steps[p + 5].releases)
    }
}

spec fn running_since(
    run: Run,
    p: int,
    job: KillOnCloseJob,
    restriction: Option<WriteRestriction>,
    running: Running,
) -> bool {
    &&& running.job == job
    &&& running.restriction == restriction
    &&& run.answered(p)
    &&& run.replies[p].code != 0
    &&& run.replies[p].first == running.child.process.0
}

/// The step that revokes the next ACE goes on as it should, if all before have
/// been revoked.
proof fn lemma_revoke_underway(
    run: Run,
    p: int,
    k: int,
    job: KillOnCloseJob,
    w: WriteRestriction,
    ending: Ending,
    place: int,
)
    requires
        0 <= p < k < run.steps.len(),
        0 <= place <= w.cleanup.roots@.len(),
        ending.cleanup == w.cleanup,
        ending.job == job,
        ending.outcome == launch_outcome(run, p),
        launch_done(run, p, k, w.token.0),
        run.steps[k].next == revoke_from(ending, place).next,
        revoke_from(ending, place).releases.is_suffix_of(run.steps[k].releases),
        forall|i: int|
            0 <= i < place ==> revoked(run, p, k, #[trigger] w.cleanup.roots@[i], w.cleanup.cap_sid.psid),
    ensures
        launch_underway(run, p, k, job, Some(w)),
{
    let step = revoke_from(ending, place);
    lemma_roots_fit(w.cleanup.roots);
    if place < w.cleanup.roots@.len() {
        assert(run.asks(k, open_for_dacl_edit_call(w.cleanup.roots@[place])));
    } else if job.handle.0 != 0 {
        assert(step.releases.last() == Release::CloseHandle(job.handle.0));
    }
}

/// A launch that failed is over, but for the revoking.
proof fn lemma_failed_underway(
    run: Run,
    p: int,
    k: int,
    job: KillOnCloseJob,
    restriction: Option<WriteRestriction>,
    child: Option<SpawnedChild>,
    error: SandboxError,
)
    requires
        0 <= p < k < run.steps.len(),
        launch_outcome(run, p) == Err::<i32, _>(error),
        run.steps[k] == helper_failed(job, restriction, child, error),
    ensures
        launch_underway(run, p, k, job, restriction),
{
    match restriction {
        None => {
            if job.handle.0 != 0 {
                assert(run.steps[k].releases.last() == Release::CloseHandle(job.handle.0));
            }
        },
        Some(w) => {
            let ending = Ending { job, cleanup: w.cleanup, token: Some(w.token), child: None, outcome: Err(error) };
            let rest = revoke_from(ending, 0).releases;
            assert(rest =~= (close_child(child) + rest).subrange(
                close_child(child).len() as int,
                (close_child(child) + rest).len() as int,
            ));
            lemma_revoke_underway(run, p, k, job, w, ending, 0);
        },
    }
}

/// A launch whose command has exited is over, but for the revoking.
proof fn lemma_exited_underway(
    run: Run,
    p: int,
    job: KillOnCloseJob,
    restriction: Option<WriteRestriction>,
    running: Running,
    status: i32,
)
    requires
        0 <= p,
        p + 5 < run.steps.len(),
        running.job == job,
        running.restriction == restriction,
        launch_outcome(run, p) == Ok::<_, SandboxError>(status),
        waited(run, p),
        run.steps[p + 5] == helper_exited(running, status),
    ensures
        launch_underway(run, p, p + 5, job, restriction),
{
    let child = Some(running.child);
    let k = p + 5;
    match restriction {
        None => {
            if job.handle.0 != 0 {
                assert(run.steps[k].releases.last() == Release::CloseHandle(job.handle.0));
            }
        },
        Some(w) => {
            let ending = Ending { job, cleanup: w.cleanup, token: None, child, outcome: Ok(status) };
            let first = close_handle(w.token.0);
            let rest = revoke_from(ending, 0).releases;
            assert(rest =~= (first + rest).subrange(first.len() as int, (first + rest).len() as int));
            assert(first =~= (first + rest).subrange(0, first.len() as int));
            lemma_revoke_underway(run, p, k, job, w, ending, 0);
        },
    }
}

/// The revoking goes on as it should.
proof fn lemma_revoking_underway(
    run: Run,
    p: int,
    k: int,
    job: KillOnCloseJob,
    w: WriteRestriction,
    ending: Ending,
    at: usize,
    revoking: DaclEdit,
)
    requires
        run.steps.len() == run.replies.len() + 1,
        0 <= p < k < run.replies.len(),
        run.steps[k].next matches NextView::Ask(state, _) && state == (Helper::Revoking { ending, at, revoking }),
        launch_underway(run, p, k, job, Some(w)),
        run.follows(k),
    ensures
        launch_underway(run, p, k + 1, job, Some(w)),
{
    let reply = run.replies[k];
    let address = w.cleanup.cap_sid.psid;
    let step = edit_next(revoking, reply);
    lemma_edit_underway(run, k, revoking);
    lemma_roots_fit(w.cleanup.roots);
    assert forall|i: int| 0 <= i < at implies revoked(run, p, k + 1, #[trigger] w.cleanup.roots@[i], address) by {
        assert(revoked(run, p, k, w.cleanup.roots@[i], address));
    }
    if step.next is Done {
        assert(revoked(run, p, k + 1, w.cleanup.roots@[at as int], address));
        let rest = revoke_from(ending, at + 1).releases;
        assert(rest =~= (step.releases + rest).subrange(
            step.releases.len() as int,
            (step.releases + rest).len() as int,
        ));
        lemma_revoke_underway(run, p, k + 1, job, w, ending, at + 1);
    }
}

proof fn lemma_launch_underway(run: Run, p: int, k: int, job: KillOnCloseJob, restriction: Option<WriteRestriction>)
    requires
        run.steps.len() == run.replies.len() + 1,
        forall|k: int| 0 <= k < run.replies.len() ==> #[trigger] run.follows(k),
        0 <= p < k < run.steps.len(),
        run.steps[p].next matches NextView::Ask(state, _) && state == (Helper::Spawning { job, restriction }),
    ensures
        launch_underway(run, p, k, job, restriction),
    decreases k,
{
    assert(run.follows(k - 1));
    let reply = run.replies[k - 1];
    let last_error = reply.last_error;
    if k > p + 1 {
        lemma_launch_underway(run, p, k - 1, job, restriction);
    }
    if let NextView::Ask(state, _) = run.steps[k - 1].next {
        match state {
            Helper::Spawning { .. } => {
                if reply.code == 0 {
                    let error = SandboxError::CreateProcess { last_error };
                    lemma_failed_underway(run, p, k, job, restriction, None, error);
                }
            },
            Helper::Assigning { running } => {
                if reply.code == 0 {
                    let error = SandboxError::AssignProcessToJobObject { last_error };
                    lemma_failed_underway(run, p, k, job, restriction, Some(running.child), error);
                }
            },
            Helper::Resuming { running } => {
                if reply.code == RESUME_FAILED {
                    let error = SandboxError::ResumeThread { last_error };
                    lemma_failed_underway(run, p, k, job, restriction, Some(running.child), error);
                }
            },
            Helper::Waiting { .. } => {},
            Helper::ReadingExitCode { running } => {
                lemma_exited_underway(run, p, job, restriction, running, exit_status(reply.code) as i32);
            },
            Helper::Revoking { ending, at, revoking } => {
                lemma_revoking_underway(run, p, k - 1, job, restriction->0, ending, at, revoking);
            },
            _ => {},
        }
    }
}

/// Whether step `p` creates the command's process.
pub open spec fn launches(run: Run, p: int) -> bool {
    exists|token: Option<usize>| #[trigger] run.asks(p, create_process_call(token))
}

/// The restriction that a process is created under.
spec fn launch_restriction(run: Run, token: Option<usize>) -> Option<WriteRestriction> {
    match token {
        Some(token) => Some(restriction_of(run, token)),
        None => None,
    }
}

spec fn launch_job(run: Run) -> KillOnCloseJob {
    KillOnCloseJob { handle: OwnedHandle(run.replies[0].first) }
}

/// Every step after a launch follows from it as it should.
proof fn lemma_launch(run: Run, policy: SandboxPolicy, sid: CapabilitySid, p: int, token: Option<usize>, k: int)
    requires
        run.valid(policy, sid),
        run.asks(p, create_process_call(token)),
        p < k < run.steps.len(),
    ensures
        made_job(run, run.replies[0].first),
        launch_underway(run, p, k, launch_job(run), launch_restriction(run, token)),
{
    law_state_awaits_its_call(run, policy, sid, p);
    lemma_helper_underway(run, p, policy, sid);
    lemma_launch_underway(run, p, k, launch_job(run), launch_restriction(run, token));
}

/// A run that launched the command comes to what the launch came to: the exit
/// code of the process, bit for bit, for which it waited without limit, or the
/// first of the launch's calls that failed. Closing the job is the last thing
/// that it does.
pub proof fn law_launch_decides_outcome(run: Run, policy: SandboxPolicy, sid: CapabilitySid, p: int)
    requires
        run.valid(policy, sid),
        run.ended(),
        launches(run, p),
    ensures
        run.outcome() == launch_outcome(run, p),
        run.outcome() is Ok ==> waited(run, p),
        run.outcome() matches Ok(status) ==> status as u32 == run.replies[p + 4].code,
        ends_with_job(run.steps.last(), run.replies[0].first),
{
    let token = choose|token: Option<usize>| #[trigger] run.asks(p, create_process_call(token));
    assert(p != run.steps.len() - 1);
    lemma_launch(run, policy, sid, p, token, run.steps.len() - 1);
    law_exit_status_keeps_bits(run.replies[p + 4].code, 0);
}

proof fn lemma_place_is_granted(
    run: Run,
    policy: SandboxPolicy,
    sid: CapabilitySid,
    p: int,
    token: usize,
    place: int,
)
    requires
        run.valid(policy, sid),
        run.asks(p, create_process_call(Some(token))),
        0 <= place < roots(run).len(),
    ensures
        granted(run, p, roots(run)[place], run.replies[2].first),
        run.ended() ==> revoked(run, p, run.steps.len() as int, roots(run)[place], run.replies[2].first),
{
    law_writes_are_restricted(run, policy, sid, p, create_process_call(Some(token)));
    if run.ended() {
        law_token_is_closed_before_revoking(run, policy, sid, p, token);
    }
}

/// When the command is launched under its restricted token, every directory of
/// the policy that exists has been granted to the capability SID: it, or one
/// before it with the same path. Once the run is over, that grant has been
/// revoked, as far as the answers let it be.
pub proof fn law_every_existing_directory_is_granted(
    run: Run,
    policy: SandboxPolicy,
    sid: CapabilitySid,
    p: int,
    token: usize,
    i: int,
)
    requires
        run.valid(policy, sid),
        run.asks(p, create_process_call(Some(token))),
        0 <= i < run.replies[3].directories@.len(),
        run.replies[3].directories@[i].exists,
    ensures
        ({
            let found = run.replies[3].directories@;
            let address = run.replies[2].first;
            exists|root: usize|
                root <= i && found[root as int].first == found[i].first && #[trigger] granted(run, p, root, address) && (
                run.ended() ==> revoked(run, p, run.steps.len() as int, root, address))
        }),
{
    let found = run.replies[3].directories;
    let address = run.replies[2].first;
    assert(found.len() == found@.len());
    let place = lemma_directory_is_covered(found@, found@.len(), i);
    let root = roots(run)[place];
    lemma_place_is_granted(run, policy, sid, p, token, place);
    assert(granted(run, p, root, address));
}

/// What the system is given of the policy and of the capability SID: all
/// directories of the policy, in their order, and the SID's text, which ends in
/// a 0.
pub proof fn law_directories_and_sid_are_handed_over(
    run: Run,
    policy: SandboxPolicy,
    sid: CapabilitySid,
    k: int,
    call: Call,
)
    requires
        run.valid(policy, sid),
        run.asks(k, call),
    ensures
        call is ResolveRoots ==> k == 3 && (run.steps[k].next matches NextView::Ask(_, request) && (
        request.payload matches PayloadView::Directories(directories) && {
            &&& directories.len() == policy.writable_directories@.len()
            &&& forall|i: int|
                0 <= i < directories.len() ==> #[trigger] directories[i] == policy.writable_directories@[i]@
        })),
        call matches Call::ConvertStringSidToSid { capability } ==> k == 2 && capability == sid && (
        run.steps[k].next matches NextView::Ask(_, request) && (request.payload matches PayloadView::Text(text) && {
            &&& text.len() > 0
            &&& text.last() == 0
            &&& utf16_lossy(text.drop_last()) == sid_text(sid)
        })),
{
    law_state_awaits_its_call(run, policy, sid, k);
    lemma_helper_underway(run, k, policy, sid);
    law_policy_says_what_it_holds(policy);
    law_wide_text_is_read_back(sid_text(sid));
    assert(utf16(sid_text(sid)).push(0).drop_last() =~= utf16(sid_text(sid)));
}

/// A run that is over either had no job, which is then its error, or it
/// launched the command. So it never fails for want of a write restriction.
pub proof fn law_run_fails_only_without_job_or_launch(run: Run, policy: SandboxPolicy, sid: CapabilitySid)
    requires
        run.valid(policy, sid),
        run.ended(),
    ensures
        run.answered(0),
        if run.replies[0].first == 0 {
            run.outcome() == Err::<i32, _>(SandboxError::CreateJobObject { last_error: run.replies[0].last_error })
        } else if run.replies[1].code == 0 {
            run.outcome() == Err::<i32, _>(
                SandboxError::SetInformationJobObject { last_error: run.replies[1].last_error },
            )
        } else {
            exists|p: int| #[trigger] launches(run, p) && run.outcome() == launch_outcome(run, p)
        },
{
    let k = run.steps.len() - 1;
    lemma_helper_underway(run, k, policy, sid);
    if spawned_before(run, k) {
        let (p, token) = choose|p: int, token: Option<usize>|
            p < k && #[trigger] run.asks(p, create_process_call(token));
        assert(launches(run, p));
        law_launch_decides_outcome(run, policy, sid, p);
        lemma_launch(run, policy, sid, p, token, k);
    }
}

/// Once a launch under the restricted token is over, the ACE of every root is
/// revoked, as far as the answers let it be. If the command ran, its token is
/// closed before the first ACE is revoked.
pub proof fn law_token_is_closed_before_revoking(run: Run, policy: SandboxPolicy, sid: CapabilitySid, p: int, token: usize)
    requires
        run.valid(policy, sid),
        run.ended(),
        run.asks(p, create_process_call(Some(token))),
    ensures
        in_force(run, p, policy, sid, restriction_of(run, token)),
        forall|i: int|
            0 <= i < roots(run).len() ==> revoked(
                run,
                p,
                run.steps.len() as int,
                #[trigger] roots(run)[i],
                run.replies[2].first,
            ),
        run.outcome() is Ok ==> {
            &&& p + 5 < run.steps.len()
            &&& close_handle(token).is_prefix_of(run.steps[p + 5].releases)
            &&& forall|j: int, root: usize| p < j && #[trigger] run.asks(j, open_for_dacl_edit_call(root)) ==> p + 5 <= j
        },
{
    let k = run.steps.len() - 1;
    let address = run.replies[2].first;
    law_state_awaits_its_call(run, policy, sid, p);
    lemma_helper_underway(run, p, policy, sid);
    assert(p != k);
    lemma_launch(run, policy, sid, p, Some(token), k);
    assert forall|i: int| 0 <= i < roots(run).len() implies revoked(
        run,
        p,
        run.steps.len() as int,
        #[trigger] roots(run)[i],
        address,
    ) by {
        assert(restriction_of(run, token).cleanup.roots@[i] == roots(run)[i]);
        assert(revoked(run, p, k, roots(run)[i], address));
    }
    if run.outcome() is Ok {
        assert forall|j: int, root: usize|
            p < j && #[trigger] run.asks(j, open_for_dacl_edit_call(root)) implies p + 5 <= j by {
            law_state_awaits_its_call(run, policy, sid, j);
            lemma_helper_underway(run, j, policy, sid);
            lemma_launch(run, policy, sid, p, Some(token), j);
        }
    }
}

/// Whether a root is one of those of the places from `low` up to `high`.
spec fn is_among(roots: Seq<usize>, low: int, high: int, root: usize) -> bool {
    exists|i: int| low <= i < high && 0 <= i < roots.len() && #[trigger] roots[i] == root
}

/// The roots of a restriction, if there is one.
spec fn roots_within(restriction: Option<WriteRestriction>) -> Seq<usize> {
    match restriction {
        Some(w) => w.cleanup.roots@,
        None => seq![],
    }
}

spec fn is_within(restriction: Option<WriteRestriction>, root: usize) -> bool {
    is_among(roots_within(restriction), 0, roots_within(restriction).len() as int, root)
}

/// Whether a run that waits in a state has still to revoke the grant on a root.
spec fn grant_pending(state: Helper, root: usize) -> bool {
    match state {
        Helper::MakingJob { .. } => false,
        Helper::Restricting { building, .. } => match building {
            Restriction::GrantingRoot { held, at, .. } => is_among(held.roots@, 0, at as int, root),
            Restriction::Undoing { undo, at, .. } => is_among(undo.roots@, at as int, undo.granted as int, root),
            _ => false,
        },
        Helper::Warning { .. } => false,
        Helper::Spawning { restriction, .. } => is_within(restriction, root),
        Helper::Assigning { running } => is_within(running.restriction, root),
        Helper::Resuming { running } => is_within(running.restriction, root),
        Helper::Waiting { running } => is_within(running.restriction, root),
        Helper::ReadingExitCode { running } => is_within(running.restriction, root),
        Helper::Revoking { ending, at, .. } => is_among(
            ending.cleanup.roots@,
            at as int,
            ending.cleanup.roots@.len() as int,
            root,
        ),
    }
}

/// A step that goes on in an edit is in the edit that begins there.
proof fn lemma_edit_is(run: Run, k: int, edit: DaclEdit, j: int, root: usize, entry: ExplicitAccess)
    requires
        edit_underway(run, k, edit),
        edited(run, j, root, entry),
        j + 5 == k,
    ensures
        edit.stage is Applying,
        edit.root == root,
        edit.entry == entry,
{
    assert(run.asks(k, Call::SetKernelObjectSecurity {
        handle: run.replies[j].first,
        information: DACL_SECURITY_INFORMATION,
    }));
    assert(edit.stage is Applying);
    assert(run.asks(j, open_for_dacl_edit_call(edit.root)));
    assert(run.brings(j + 2, PayloadView::Entries(seq![entry])));
    assert(run.brings(j + 2, PayloadView::Entries(seq![edit.entry])));
    assert(seq![entry][0] == seq![edit.entry][0]);
}

/// A revocation that ends at step `k` began after an edit that was over by then.
proof fn lemma_revoked_by(run: Run, k: int, edit: DaclEdit, j: int, address: usize)
    requires
        0 <= k < run.replies.len(),
        run.steps.len() == run.replies.len() + 1,
        edit_underway(run, k, edit),
        edit_next(edit, run.replies[k]).next is Done,
        edit.entry == revoke_entry(SidRef::Pointer(address)),
        j + 5 < k,
    ensures
        revoked(run, j, k + 1, edit.root, address),
{
    lemma_edit_underway(run, k, edit);
    let begin = k - stage_number(edit.stage);
    assert(edit_pursued(run, begin, edit.root, revoke_entry(SidRef::Pointer(address))));
}

proof fn lemma_among_more(roots: Seq<usize>, low: int, high: int, higher: int, root: usize)
    ensures
        is_among(roots, low, high, root) && high <= higher ==> is_among(roots, low, higher, root),
{
}

proof fn lemma_among_rest(roots: Seq<usize>, low: int, high: int, root: usize)
    ensures
        is_among(roots, low, high, root) && 0 <= low < roots.len() && roots[low] != root ==> is_among(
            roots,
            low + 1,
            high,
            root,
        ),
{
}

/// A grant that was made just now, or that was still to be revoked, is still to
/// be revoked after the next answer, or has been.
proof fn lemma_grant_stays_pending(
    run: Run,
    policy: SandboxPolicy,
    sid: CapabilitySid,
    k: int,
    j: int,
    root: usize,
)
    requires
        run.valid(policy, sid),
        0 <= k < run.replies.len(),
        edited(run, j, root, write_entry(SidRef::Pointer(run.replies[2].first))),
        j + 5 <= k,
        j + 5 < k ==> (run.steps[k].next matches NextView::Ask(state, _) && grant_pending(state, root)),
    ensures
        ({
            let revoked = revoked(run, j, k + 1, root, run.replies[2].first);
            match run.steps[k + 1].next {
                NextView::Ask(state, _) => grant_pending(state, root) || revoked,
                NextView::Done(_) => revoked,
            }
        }),
{
    let address = run.replies[2].first;
    let entry = write_entry(SidRef::Pointer(address));
    let reply = run.replies[k];
    assert(run.follows(k));
    law_state_awaits_its_call(run, policy, sid, k);
    lemma_helper_underway(run, k, policy, sid);
    if let NextView::Ask(state, _) = run.steps[k].next {
        match state {
            Helper::Restricting { building, .. } => match building {
                Restriction::GrantingRoot { held, at, granting } => {
                    lemma_roots_fit(held.roots);
                    if j + 5 == k {
                        lemma_edit_is(run, k, granting, j, root, entry);
                        assert(held.roots@[at as int] == root);
                        assert(is_among(held.roots@, 0, at + 1, root));
                    } else {
                        lemma_among_more(held.roots@, 0, at as int, at + 1, root);
                    }
                    lemma_among_more(held.roots@, 0, at + 1, held.roots@.len() as int, root);
                },
                Restriction::Undoing { undo, at, revoking } => {
                    lemma_roots_fit(undo.roots);
                    if j + 5 == k {
                        lemma_edit_is(run, k, revoking, j, root, entry);
                    } else if root == revoking.root && edit_next(revoking, reply).next is Done {
                        lemma_revoked_by(run, k, revoking, j, address);
                    } else {
                        lemma_among_rest(undo.roots@, at as int, undo.granted as int, root);
                    }
                },
                _ => {},
            },
            Helper::Revoking { ending, at, revoking } => {
                lemma_roots_fit(ending.cleanup.roots);
                if j + 5 == k {
                    lemma_edit_is(run, k, revoking, j, root, entry);
                } else if root == revoking.root && edit_next(revoking, reply).next is Done {
                    lemma_revoked_by(run, k, revoking, j, address);
                } else {
                    lemma_among_rest(ending.cleanup.roots@, at as int, ending.cleanup.roots@.len() as int, root);
                }
            },
            _ => {},
        }
    }
}

proof fn lemma_grant_pending(run: Run, policy: SandboxPolicy, sid: CapabilitySid, k: int, j: int, root: usize)
    requires
        run.valid(policy, sid),
        0 <= k < run.steps.len(),
        edited(run, j, root, write_entry(SidRef::Pointer(run.replies[2].first))),
        j + 5 < k,
    ensures
        ({
            let revoked = revoked(run, j, k, root, run.replies[2].first);
            match run.steps[k].next {
                NextView::Ask(state, _) => grant_pending(state, root) || revoked,
                NextView::Done(_) => revoked,
            }
        }),
    decreases k,
{
    let address = run.replies[2].first;
    assert(run.follows(k - 1));
    if j + 5 < k - 1 {
        lemma_grant_pending(run, policy, sid, k - 1, j, root);
    }
    if j + 5 < k - 1 && revoked(run, j, k - 1, root, address) {
        assert(revoked(run, j, k, root, address));
    } else {
        lemma_grant_stays_pending(run, policy, sid, k - 1, j, root);
    }
}

/// Whatever a run grants on a root it revokes before it is over, as far as the
/// answers let it: whether the command ran, its launch failed, or a later grant
/// did.
pub proof fn law_grants_are_revoked(run: Run, policy: SandboxPolicy, sid: CapabilitySid, j: int, root: usize)
    requires
        run.valid(policy, sid),
        run.ended(),
        edited(run, j, root, write_entry(SidRef::Pointer(run.replies[2].first))),
    ensures
        revoked(run, j, run.steps.len() as int, root, run.replies[2].first),
{
    let k = run.steps.len() - 1;
    lemma_grant_pending(run, policy, sid, k, j, root);
    assert(revoked(run, j, k, root, run.replies[2].first));
}

/// Whether a state is one in which nothing has been revoked yet.
spec fn before_revoking(state: Helper) -> bool {
    match state {
        Helper::MakingJob { .. } => true,
        Helper::Restricting { building, .. } => !(building is Undoing),
        Helper::Spawning { restriction, .. } => restriction is Some,
        _ => false,
    }
}

proof fn lemma_nothing_revoked(run: Run, policy: SandboxPolicy, sid: CapabilitySid, k: int, j: int, root: usize)
    requires
        run.valid(policy, sid),
        0 <= k < run.steps.len(),
        run.steps[k].next matches NextView::Ask(state, _) && before_revoking(state),
        edited(run, j, root, revoke_entry(SidRef::Pointer(run.replies[2].first))),
    ensures
        k <= j + 5,
    decreases k,
{
    if k > 0 && j + 5 < k {
        let entry = revoke_entry(SidRef::Pointer(run.replies[2].first));
        assert(run.follows(k - 1));
        law_state_awaits_its_call(run, policy, sid, k - 1);
        lemma_helper_underway(run, k - 1, policy, sid);
        if let NextView::Ask(state, _) = run.steps[k - 1].next {
            assert(before_revoking(state));
            lemma_nothing_revoked(run, policy, sid, k - 1, j, root);
            if let Helper::Restricting { building, .. } = state {
                if let Restriction::GrantingRoot { granting, .. } = building {
                    lemma_edit_is(run, k - 1, granting, j, root, entry);
                }
            }
        }
    }
}

/// No grant is revoked before the command that it is for is launched.
pub proof fn law_nothing_is_revoked_before_launch(
    run: Run,
    policy: SandboxPolicy,
    sid: CapabilitySid,
    p: int,
    token: usize,
    j: int,
    root: usize,
)
    requires
        run.valid(policy, sid),
        run.asks(p, create_process_call(Some(token))),
        edited(run, j, root, revoke_entry(SidRef::Pointer(run.replies[2].first))),
    ensures
        p < j,
{
    law_state_awaits_its_call(run, policy, sid, p);
    lemma_helper_underway(run, p, policy, sid);
    lemma_nothing_revoked(run, policy, sid, p, j, root);
}

/// How many calls a token's building still makes at most.
spec fn token_left(state: RestrictedToken) -> int {
    match state.stage {
        RestrictedTokenStage::Logon(inner) => 7 + match inner.stage {
            LogonSidStage::Sizing => 4int,
            LogonSidStage::Reading => 3,
            LogonSidStage::Measuring { .. } => 2,
            LogonSidStage::Copying => 1,
        },
        RestrictedTokenStage::World(inner) => 5 + match inner {
            WorldSid::Sizing => 2int,
            WorldSid::Making => 1,
        },
        RestrictedTokenStage::Creating => 5,
        RestrictedTokenStage::DefaultDacl { setting, .. } => match setting {
            DefaultDacl::Merging { .. } => 4,
            DefaultDacl::Setting { .. } => 3,
        },
        RestrictedTokenStage::Privilege { enabling, .. } => match enabling {
            Privilege::LookingUp { .. } => 2,
            Privilege::Adjusting => 1,
        },
    }
}

/// How many calls a run still makes at most once a restriction is in force.
spec fn restricted_left(roots: Roots) -> int {
    5int + 6 * roots@.len()
}

/// How many calls a run still makes at most while it builds the restriction
/// and knows the roots.
spec fn restriction_left(state: Restriction) -> int {
    match state {
        Restriction::Minting { .. } => 0,
        Restriction::Resolving { .. } => 0,
        Restriction::OpeningToken { roots, .. } => 16 + 6 * roots@.len() + restricted_left(roots),
        Restriction::BuildingToken { roots, building, .. } => token_left(building) + 4 + 6 * roots@.len()
            + restricted_left(roots),
        Restriction::GrantingNull { held, null_device } => 4 - null_stage_number(null_device.stage) + 6
            * held.roots@.len() + restricted_left(held.roots),
        Restriction::GrantingRoot { held, at, granting } => 6 * (held.roots@.len() - at) - stage_number(granting.stage)
            + restricted_left(held.roots),
        Restriction::Undoing { undo, at, revoking } => 6 * (undo.granted - at) - stage_number(revoking.stage) + 6,
    }
}

/// How many calls a run that waits in a state still makes at most, with the
/// one that it waits for.
spec fn calls_left(state: Helper) -> int {
    match state {
        Helper::MakingJob { .. } => 0,
        Helper::Restricting { building, .. } => restriction_left(building),
        Helper::Warning { .. } => 6,
        Helper::Spawning { restriction, .. } => 5int + 6 * roots_within(restriction).len(),
        Helper::Assigning { running } => 4int + 6 * roots_within(running.restriction).len(),
        Helper::Resuming { running } => 3int + 6 * roots_within(running.restriction).len(),
        Helper::Waiting { running } => 2int + 6 * roots_within(running.restriction).len(),
        Helper::ReadingExitCode { running } => 1int + 6 * roots_within(running.restriction).len(),
        Helper::Revoking { ending, at, revoking } => 6 * (ending.cleanup.roots@.len() - at) - stage_number(
            revoking.stage,
        ),
    }
}

proof fn lemma_token_left(state: RestrictedToken, reply: Reply)
    ensures
        token_left(state) >= 1,
        token_next(state, reply).next matches NextView::Ask(next, _) ==> token_left(next) < token_left(state),
{
}

proof fn lemma_edit_left(edit: DaclEdit, reply: Reply)
    ensures
        0 <= stage_number(edit.stage) <= 5,
        edit_next(edit, reply).next matches NextView::Ask(next, _) ==> stage_number(next.stage) == stage_number(
            edit.stage,
        ) + 1,
{
}

proof fn lemma_restriction_left(state: Restriction, reply: Reply)
    requires
        !(state is Minting),
        !(state is Resolving),
        state matches Restriction::GrantingRoot { held, at, .. } ==> at < held.roots@.len(),
        state matches Restriction::Undoing { undo, at, .. } ==> at < undo.granted,
    ensures
        match restriction_next(state, reply).next {
            NextView::Ask(next, _) => restriction_left(next) < restriction_left(state),
            NextView::Done(Ok(w)) => restricted_left(w.cleanup.roots) < restriction_left(state),
            NextView::Done(Err(_)) => 6 < restriction_left(state),
        },
{
    match state {
        Restriction::BuildingToken { building, .. } => {
            lemma_token_left(building, reply);
        },
        Restriction::GrantingRoot { held, granting, .. } => {
            lemma_roots_fit(held.roots);
            lemma_edit_left(granting, reply);
        },
        Restriction::Undoing { undo, revoking, .. } => {
            lemma_roots_fit(undo.roots);
            lemma_edit_left(revoking, reply);
        },
        _ => {},
    }
}

/// Whether the limit of a state's calls is known: it knows the roots, and is at
/// one of them where it edits.
spec fn limit_known(state: Helper) -> bool {
    match state {
        Helper::MakingJob { .. } => false,
        Helper::Restricting { building, .. } => match building {
            Restriction::Minting { .. } => false,
            Restriction::Resolving { .. } => false,
            Restriction::GrantingRoot { held, at, .. } => at < held.roots@.len(),
            Restriction::Undoing { undo, at, .. } => at < undo.granted,
            _ => true,
        },
        Helper::Revoking { ending, at, .. } => at < ending.cleanup.roots@.len(),
        _ => true,
    }
}

/// With every answer there is at least one call less to make.
proof fn lemma_calls_decrease(state: Helper, reply: Reply)
    requires
        limit_known(state),
    ensures
        match helper_next(state, reply).next {
            NextView::Ask(next, _) => calls_left(next) < calls_left(state),
            NextView::Done(_) => 1 <= calls_left(state),
        },
{
    match state {
        Helper::Restricting { building, .. } => {
            lemma_restriction_left(building, reply);
        },
        Helper::Revoking { ending, revoking, .. } => {
            lemma_roots_fit(ending.cleanup.roots);
            lemma_edit_left(revoking, reply);
        },
        _ => {},
    }
}

/// What is known of a run's state once the roots are.
proof fn lemma_limit_known(run: Run, policy: SandboxPolicy, sid: CapabilitySid, k: int)
    requires
        run.valid(policy, sid),
        4 <= k < run.steps.len(),
    ensures
        run.steps[k].next matches NextView::Ask(state, _) ==> limit_known(state) && (k == 4 ==> calls_left(state) <= 21
            + 12 * roots(run).len()),
{
    lemma_helper_underway(run, k, policy, sid);
    if k == 4 {
        lemma_helper_underway(run, 3, policy, sid);
        assert(run.follows(3));
    }
}

proof fn lemma_calls_left(run: Run, policy: SandboxPolicy, sid: CapabilitySid, k: int)
    requires
        run.valid(policy, sid),
        4 <= k < run.steps.len(),
    ensures
        match run.steps[k].next {
            NextView::Ask(state, _) => k + calls_left(state) <= 25 + 12 * roots(run).len(),
            NextView::Done(_) => k <= 25 + 12 * roots(run).len(),
        },
    decreases k,
{
    lemma_limit_known(run, policy, sid, k);
    if k > 4 {
        lemma_calls_left(run, policy, sid, k - 1);
        lemma_limit_known(run, policy, sid, k - 1);
        assert(run.follows(k - 1));
        if let NextView::Ask(state, _) = run.steps[k - 1].next {
            lemma_calls_decrease(state, run.replies[k - 1]);
        }
    }
}

proof fn lemma_calls_positive(state: Helper)
    requires
        limit_known(state),
    ensures
        0 <= calls_left(state),
{
}

/// Every run comes to an end: there is a limit to the calls that it makes,
/// which grows with the number of writable roots alone.
pub proof fn law_run_makes_few_calls(run: Run, policy: SandboxPolicy, sid: CapabilitySid)
    requires
        run.valid(policy, sid),
    ensures
        run.replies.len() <= 25 + 12 * if run.replies.len() > 3 {
            roots(run).len() as int
        } else {
            0
        },
{
    if run.replies.len() > 3 {
        let k = run.steps.len() - 1;
        lemma_calls_left(run, policy, sid, k);
        lemma_limit_known(run, policy, sid, k);
        if let NextView::Ask(state, _) = run.steps[k].next {
            lemma_calls_positive(state);
        }
    }
}

} // verus!
