//! DACL mutation for the sandbox.
//!
//! Writable roots get an inheritable allow-ACE for the per-session capability
//! SID so the `WRITE_RESTRICTED` token can write there. Because the capability
//! SID is random per session, there is no need to check for an existing ACE,
//! and stale ACEs left behind by a crash are harmless: no live token references
//! that SID. They are still revoked on a clean exit ([`revoke_ace`]). The ACE is set with
//! `SetKernelObjectSecurity` on a handle to the root: the high-level
//! `Set*SecurityInfo` functions would rewrite the DACL of every descendant,
//! which is slow on large trees. New entries created under the root still
//! inherit the ACE.

use vstd::prelude::*;

use crate::error::SandboxError;
use crate::win32::{
    asking, finishing, local_free, merging, opened, push_local_free, Call, ExplicitAccess, NextView, PayloadView,
    Release, Reply, SidRef, Step, StepView, Target, Trustee, ERROR_SUCCESS, INVALID_HANDLE_VALUE,
};

verus! {

/// The path of the null device.
pub const NULL_DEVICE_PATH: &'static str = "\\\\.\\NUL";

/// The kind of object that a file or directory handle is.
pub const SE_KERNEL_OBJECT: i32 = 6;

pub const DACL_SECURITY_INFORMATION: u32 = 4;

pub const SECURITY_DESCRIPTOR_REVISION: u32 = 1;

pub const OBJECT_INHERIT_ACE: u32 = 0x1;

pub const CONTAINER_INHERIT_ACE: u32 = 0x2;

pub const GRANT_ACCESS: i32 = 1;

pub const SET_ACCESS: i32 = 2;

pub const REVOKE_ACCESS: i32 = 4;

pub const TRUSTEE_IS_SID: i32 = 0;

pub const TRUSTEE_IS_UNKNOWN: i32 = 0;

pub const DELETE: u32 = 0x1_0000;

pub const READ_CONTROL: u32 = 0x2_0000;

pub const WRITE_DAC: u32 = 0x4_0000;

pub const WRITE_OWNER: u32 = 0x8_0000;

pub const FILE_DELETE_CHILD: u32 = 0x40;

pub const FILE_GENERIC_READ: u32 = 0x12_0089;

pub const FILE_GENERIC_WRITE: u32 = 0x12_0116;

pub const FILE_GENERIC_EXECUTE: u32 = 0x12_00A0;

pub const FILE_SHARE_READ: u32 = 1;

pub const FILE_SHARE_WRITE: u32 = 2;

pub const FILE_SHARE_DELETE: u32 = 4;

pub const OPEN_EXISTING: u32 = 3;

pub const FILE_ATTRIBUTE_NORMAL: u32 = 0x80;

pub const FILE_FLAG_BACKUP_SEMANTICS: u32 = 0x200_0000;

/// The rights to read and rewrite an object's DACL.
pub const DACL_EDIT_ACCESS: u32 = READ_CONTROL | WRITE_DAC;

/// What the capability SID may do with a writable root.
pub const WRITE_ALLOW_MASK: u32 = FILE_GENERIC_READ | FILE_GENERIC_WRITE | FILE_GENERIC_EXECUTE | DELETE
    | FILE_DELETE_CHILD;

/// What the capability SID may do with the null device.
pub const NULL_DEVICE_MASK: u32 = FILE_GENERIC_READ | FILE_GENERIC_WRITE | FILE_GENERIC_EXECUTE;

/// Everything below a root inherits its ACE.
pub const INHERITANCE: u32 = CONTAINER_INHERIT_ACE | OBJECT_INHERIT_ACE;

/// The numbers behind the combined masks.
pub proof fn law_masks()
    ensures
        DACL_EDIT_ACCESS == 0x6_0000,
        WRITE_ALLOW_MASK == 0x13_01FF,
        NULL_DEVICE_MASK == 0x12_01BF,
        INHERITANCE == 3,
{
    assert(DACL_EDIT_ACCESS == 0x6_0000) by (bit_vector);
    assert(WRITE_ALLOW_MASK == 0x13_01FF) by (bit_vector);
    assert(NULL_DEVICE_MASK == 0x12_01BF) by (bit_vector);
    assert(INHERITANCE == 3) by (bit_vector);
}

/// The trustee that an identifier is.
pub open spec fn sid_trustee(sid: SidRef) -> Trustee {
    Trustee { form: TRUSTEE_IS_SID, kind: TRUSTEE_IS_UNKNOWN, sid }
}

/// The trustee that an identifier is.
pub fn trustee_for_sid(sid: SidRef) -> (r: Trustee)
    ensures
        r == sid_trustee(sid),
{
    Trustee { form: TRUSTEE_IS_SID, kind: TRUSTEE_IS_UNKNOWN, sid }
}

/// The entry that lets an identifier write to a root and what comes below it.
pub open spec fn write_entry(sid: SidRef) -> ExplicitAccess {
    ExplicitAccess {
        permissions: WRITE_ALLOW_MASK,
        mode: SET_ACCESS,
        inheritance: INHERITANCE,
        trustee: sid_trustee(sid),
    }
}

/// The entry that takes every right from an identifier.
pub open spec fn revoke_entry(sid: SidRef) -> ExplicitAccess {
    ExplicitAccess { permissions: 0, mode: REVOKE_ACCESS, inheritance: INHERITANCE, trustee: sid_trustee(sid) }
}

/// The entry that lets an identifier use the null device.
pub open spec fn null_device_entry(sid: SidRef) -> ExplicitAccess {
    ExplicitAccess { permissions: NULL_DEVICE_MASK, mode: SET_ACCESS, inheritance: 0, trustee: sid_trustee(sid) }
}

/// An edit of one root's DACL that waits for the answer to its last call. It
/// merges one entry into the DACL and sets the root's security descriptor
/// directly, without touching what lies below the root.
#[derive(Clone, Copy, Debug, PartialEq, Eq)]
pub struct DaclEdit {
    pub root: usize,
    pub entry: ExplicitAccess,
    pub stage: DaclStage,
}

/// How far an edit is: what it waits for, and what it holds.
#[derive(Clone, Copy, Debug, PartialEq, Eq)]
pub enum DaclStage {
    Opening,
    Querying { handle: usize },
    Merging { handle: usize, descriptor: usize },
    Initializing { handle: usize, descriptor: usize, acl: usize },
    Attaching { handle: usize, descriptor: usize, acl: usize },
    Applying { handle: usize, descriptor: usize, acl: usize },
}

/// What comes of an edit.
pub type DaclOutcome = Result<(), SandboxError>;

/// The call that opens an object to read and rewrite its DACL. The flag is
/// what a handle to a directory takes; it does no harm to files.
pub open spec fn open_for_dacl_edit_call(root: usize) -> Call {
    Call::CreateFile {
        target: Target::Root(root),
        access: DACL_EDIT_ACCESS,
        share: FILE_SHARE_READ | FILE_SHARE_WRITE | FILE_SHARE_DELETE,
        disposition: OPEN_EXISTING,
        flags: FILE_FLAG_BACKUP_SEMANTICS,
    }
}

/// Opens a root to read and rewrite its DACL.
fn open_for_dacl_edit(root: usize) -> (r: Call)
    ensures
        r == open_for_dacl_edit_call(root),
{
    Call::CreateFile {
        target: Target::Root(root),
        access: DACL_EDIT_ACCESS,
        share: FILE_SHARE_READ | FILE_SHARE_WRITE | FILE_SHARE_DELETE,
        disposition: OPEN_EXISTING,
        flags: FILE_FLAG_BACKUP_SEMANTICS,
    }
}

/// The call that reads an object's DACL.
pub open spec fn query_dacl_call(handle: usize) -> Call {
    Call::GetSecurityInfo { handle, object_type: SE_KERNEL_OBJECT, information: DACL_SECURITY_INFORMATION }
}

/// What an edit gives back at its end: the new access list, the descriptor of
/// the old one, and the handle.
pub open spec fn edit_releases(handle: usize, descriptor: usize, acl: usize) -> Seq<Release> {
    local_free(acl) + local_free(descriptor) + seq![Release::CloseHandle(handle)]
}

fn edit_release_list(handle: usize, descriptor: usize, acl: usize) -> (r: Vec<Release>)
    ensures
        r@ == edit_releases(handle, descriptor, acl),
{
    let mut releases: Vec<Release> = Vec::new();
    push_local_free(&mut releases, acl);
    push_local_free(&mut releases, descriptor);
    releases.push(Release::CloseHandle(handle));
    assert(releases@ =~= edit_releases(handle, descriptor, acl));
    releases
}

/// The first step of an edit.
pub open spec fn edit_start(root: usize, entry: ExplicitAccess) -> StepView<DaclEdit, DaclOutcome> {
    asking(seq![], DaclEdit { root, entry, stage: DaclStage::Opening }, open_for_dacl_edit_call(root))
}

/// The step of an edit that follows an answer.
pub open spec fn edit_next(edit: DaclEdit, reply: Reply) -> StepView<DaclEdit, DaclOutcome> {
    let root = edit.root;
    match edit.stage {
        DaclStage::Opening => if opened(reply.first) {
            asking(
                seq![],
                DaclEdit { stage: DaclStage::Querying { handle: reply.first }, ..edit },
                query_dacl_call(reply.first),
            )
        } else {
            finishing(seq![], Err(SandboxError::CreateFile { root, last_error: reply.last_error }))
        },
        DaclStage::Querying { handle } => if reply.code == ERROR_SUCCESS {
            merging(
                seq![],
                DaclEdit { stage: DaclStage::Merging { handle, descriptor: reply.second }, ..edit },
                reply.first,
                seq![edit.entry],
            )
        } else {
            finishing(
                seq![Release::CloseHandle(handle)],
                Err(SandboxError::GetSecurityInfo { root, code: reply.code }),
            )
        },
        DaclStage::Merging { handle, descriptor } => if reply.code == ERROR_SUCCESS {
            asking(
                seq![],
                DaclEdit { stage: DaclStage::Initializing { handle, descriptor, acl: reply.first }, ..edit },
                Call::InitializeSecurityDescriptor { revision: SECURITY_DESCRIPTOR_REVISION },
            )
        } else {
            finishing(
                edit_releases(handle, descriptor, reply.first),
                Err(SandboxError::SetEntriesInAcl { root, code: reply.code }),
            )
        },
        DaclStage::Initializing { handle, descriptor, acl } => if reply.code != 0 {
            asking(
                seq![],
                DaclEdit { stage: DaclStage::Attaching { handle, descriptor, acl }, ..edit },
                Call::SetSecurityDescriptorDacl { present: 1, acl, defaulted: 0 },
            )
        } else {
            finishing(
                edit_releases(handle, descriptor, acl),
                Err(SandboxError::InitializeSecurityDescriptor { last_error: reply.last_error }),
            )
        },
        DaclStage::Attaching { handle, descriptor, acl } => if reply.code != 0 {
            asking(
                seq![],
                DaclEdit { stage: DaclStage::Applying { handle, descriptor, acl }, ..edit },
                Call::SetKernelObjectSecurity { handle, information: DACL_SECURITY_INFORMATION },
            )
        } else {
            finishing(
                edit_releases(handle, descriptor, acl),
                Err(SandboxError::SetSecurityDescriptorDacl { last_error: reply.last_error }),
            )
        },
        DaclStage::Applying { handle, descriptor, acl } => finishing(
            edit_releases(handle, descriptor, acl),
            if reply.code != 0 {
                Ok(())
            } else {
                Err(SandboxError::SetKernelObjectSecurity { root, last_error: reply.last_error })
            },
        ),
    }
}

/// Starts to merge `entry` into the DACL of a root, without recursive
/// inheritance propagation.
pub fn modify_dacl_no_propagate(root: usize, entry: ExplicitAccess) -> (r: Step<DaclEdit, DaclOutcome>)
    ensures
        r@ == edit_start(root, entry),
{
    Step::ask(DaclEdit { root, entry, stage: DaclStage::Opening }, open_for_dacl_edit(root))
}

/// Starts to add an inheritable allow-ACE granting write access to `sid` on a
/// root. New entries created under the root inherit it; existing descendants
/// are left untouched.
pub fn add_allow_write_ace(root: usize, sid: SidRef) -> (r: Step<DaclEdit, DaclOutcome>)
    ensures
        r@ == edit_start(root, write_entry(sid)),
{
    let entry = ExplicitAccess {
        permissions: WRITE_ALLOW_MASK,
        mode: SET_ACCESS,
        inheritance: INHERITANCE,
        trustee: trustee_for_sid(sid),
    };
    modify_dacl_no_propagate(root, entry)
}

/// Starts to remove all ACEs for `sid` from a root's DACL. This is best-effort
/// cleanup: a leftover ACE for a per-session SID is harmless, so its outcome
/// may be ignored.
pub fn revoke_ace(root: usize, sid: SidRef) -> (r: Step<DaclEdit, DaclOutcome>)
    ensures
        r@ == edit_start(root, revoke_entry(sid)),
{
    let entry = ExplicitAccess {
        permissions: 0,
        mode: REVOKE_ACCESS,
        inheritance: INHERITANCE,
        trustee: trustee_for_sid(sid),
    };
    modify_dacl_no_propagate(root, entry)
}

impl DaclEdit {
    /// Goes on with the answer to the edit's last call.
    pub fn resume(self, reply: &Reply) -> (r: Step<DaclEdit, DaclOutcome>)
        ensures
            r@ == edit_next(self, *reply),
    {
        let root = self.root;
        let entry = self.entry;
        match self.stage {
            DaclStage::Opening => {
                let handle = reply.first;
                if handle == 0 || handle == INVALID_HANDLE_VALUE {
                    return Step::done(
                        Vec::new(),
                        Err(SandboxError::CreateFile { root, last_error: reply.last_error }),
                    );
                }
                Step::ask(
                    DaclEdit { root, entry, stage: DaclStage::Querying { handle } },
                    Call::GetSecurityInfo {
                        handle,
                        object_type: SE_KERNEL_OBJECT,
                        information: DACL_SECURITY_INFORMATION,
                    },
                )
            },
            DaclStage::Querying { handle } => {
                if reply.code != ERROR_SUCCESS {
                    let mut releases: Vec<Release> = Vec::new();
                    releases.push(Release::CloseHandle(handle));
                    return Step::done(releases, Err(SandboxError::GetSecurityInfo { root, code: reply.code }));
                }
                let mut entries: Vec<ExplicitAccess> = Vec::new();
                entries.push(entry);
                assert(entries@ =~= seq![entry]);
                let stage = DaclStage::Merging { handle, descriptor: reply.second };
                Step::merge(DaclEdit { root, entry, stage }, reply.first, entries)
            },
            DaclStage::Merging { handle, descriptor } => {
                let acl = reply.first;
                if reply.code != ERROR_SUCCESS {
                    return Step::done(
                        edit_release_list(handle, descriptor, acl),
                        Err(SandboxError::SetEntriesInAcl { root, code: reply.code }),
                    );
                }
                Step::ask(
                    DaclEdit { root, entry, stage: DaclStage::Initializing { handle, descriptor, acl } },
                    Call::InitializeSecurityDescriptor { revision: SECURITY_DESCRIPTOR_REVISION },
                )
            },
            DaclStage::Initializing { handle, descriptor, acl } => {
                if reply.code == 0 {
                    return Step::done(
                        edit_release_list(handle, descriptor, acl),
                        Err(SandboxError::InitializeSecurityDescriptor { last_error: reply.last_error }),
                    );
                }
                Step::ask(
                    DaclEdit { root, entry, stage: DaclStage::Attaching { handle, descriptor, acl } },
                    Call::SetSecurityDescriptorDacl { present: 1, acl, defaulted: 0 },
                )
            },
            DaclStage::Attaching { handle, descriptor, acl } => {
                if reply.code == 0 {
                    return Step::done(
                        edit_release_list(handle, descriptor, acl),
                        Err(SandboxError::SetSecurityDescriptorDacl { last_error: reply.last_error }),
                    );
                }
                Step::ask(
                    DaclEdit { root, entry, stage: DaclStage::Applying { handle, descriptor, acl } },
                    Call::SetKernelObjectSecurity { handle, information: DACL_SECURITY_INFORMATION },
                )
            },
            DaclStage::Applying { handle, descriptor, acl } => {
                let outcome = if reply.code == 0 {
                    Err(SandboxError::SetKernelObjectSecurity { root, last_error: reply.last_error })
                } else {
                    Ok(())
                };
                Step::done(edit_release_list(handle, descriptor, acl), outcome)
            },
        }
    }
}

/// The granting of the null device, waiting for the answer to its last call.
#[derive(Clone, Copy, Debug, PartialEq, Eq)]
pub struct NullDevice {
    pub sid: SidRef,
    pub stage: NullDeviceStage,
}

/// How far the granting is: what it waits for, and what it holds.
#[derive(Clone, Copy, Debug, PartialEq, Eq)]
pub enum NullDeviceStage {
    Opening,
    Querying { handle: usize },
    Merging { handle: usize, descriptor: usize },
    Applying { handle: usize, descriptor: usize, acl: usize },
}

/// The call that opens the null device to read and rewrite its DACL.
pub open spec fn open_null_device_call() -> Call {
    Call::CreateFile {
        target: Target::NullDevice,
        access: DACL_EDIT_ACCESS,
        share: FILE_SHARE_READ | FILE_SHARE_WRITE,
        disposition: OPEN_EXISTING,
        flags: FILE_ATTRIBUTE_NORMAL,
    }
}

/// The first step of the granting.
pub open spec fn null_device_start(sid: SidRef) -> StepView<NullDevice, ()> {
    asking(seq![], NullDevice { sid, stage: NullDeviceStage::Opening }, open_null_device_call())
}

/// The step of the granting that follows an answer.
pub open spec fn null_device_next(grant: NullDevice, reply: Reply) -> StepView<NullDevice, ()> {
    match grant.stage {
        NullDeviceStage::Opening => if opened(reply.first) {
            asking(
                seq![],
                NullDevice { stage: NullDeviceStage::Querying { handle: reply.first }, ..grant },
                query_dacl_call(reply.first),
            )
        } else {
            finishing(seq![], ())
        },
        NullDeviceStage::Querying { handle } => if reply.code == ERROR_SUCCESS {
            merging(
                seq![],
                NullDevice { stage: NullDeviceStage::Merging { handle, descriptor: reply.second }, ..grant },
                reply.first,
                seq![null_device_entry(grant.sid)],
            )
        } else {
            finishing(edit_releases(handle, reply.second, 0), ())
        },
        NullDeviceStage::Merging { handle, descriptor } => if reply.code == ERROR_SUCCESS {
            asking(
                seq![],
                NullDevice { stage: NullDeviceStage::Applying { handle, descriptor, acl: reply.first }, ..grant },
                Call::SetSecurityInfo {
                    handle,
                    object_type: SE_KERNEL_OBJECT,
                    information: DACL_SECURITY_INFORMATION,
                    acl: reply.first,
                },
            )
        } else {
            finishing(edit_releases(handle, descriptor, 0), ())
        },
        NullDeviceStage::Applying { handle, descriptor, acl } => finishing(
            edit_releases(handle, descriptor, acl),
            (),
        ),
    }
}

/// Starts to grant the capability SID write access to the null device so
/// redirections like `2>NUL` work under the restricted token. Best-effort.
pub fn allow_null_device(sid: SidRef) -> (r: Step<NullDevice, ()>)
    ensures
        r@ == null_device_start(sid),
{
    Step::ask(
        NullDevice { sid, stage: NullDeviceStage::Opening },
        Call::CreateFile {
            target: Target::NullDevice,
            access: DACL_EDIT_ACCESS,
            share: FILE_SHARE_READ | FILE_SHARE_WRITE,
            disposition: OPEN_EXISTING,
            flags: FILE_ATTRIBUTE_NORMAL,
        },
    )
}

impl NullDevice {
    /// Goes on with the answer to the last call.
    pub fn resume(self, reply: &Reply) -> (r: Step<NullDevice, ()>)
        ensures
            r@ == null_device_next(self, *reply),
    {
        let sid = self.sid;
        match self.stage {
            NullDeviceStage::Opening => {
                let handle = reply.first;
                if handle == 0 || handle == INVALID_HANDLE_VALUE {
                    return Step::done(Vec::new(), ());
                }
                Step::ask(
                    NullDevice { sid, stage: NullDeviceStage::Querying { handle } },
                    Call::GetSecurityInfo {
                        handle,
                        object_type: SE_KERNEL_OBJECT,
                        information: DACL_SECURITY_INFORMATION,
                    },
                )
            },
            NullDeviceStage::Querying { handle } => {
                let descriptor = reply.second;
                if reply.code != ERROR_SUCCESS {
                    return Step::done(edit_release_list(handle, descriptor, 0), ());
                }
                let mut entries: Vec<ExplicitAccess> = Vec::new();
                entries.push(
                    ExplicitAccess {
                        permissions: NULL_DEVICE_MASK,
                        mode: SET_ACCESS,
                        inheritance: 0,
                        trustee: trustee_for_sid(sid),
                    },
                );
                assert(entries@ =~= seq![null_device_entry(sid)]);
                Step::merge(
                    NullDevice { sid, stage: NullDeviceStage::Merging { handle, descriptor } },
                    reply.first,
                    entries,
                )
            },
            NullDeviceStage::Merging { handle, descriptor } => {
                if reply.code != ERROR_SUCCESS {
                    return Step::done(edit_release_list(handle, descriptor, 0), ());
                }
                let acl = reply.first;
                Step::ask(
                    NullDevice { sid, stage: NullDeviceStage::Applying { handle, descriptor, acl } },
                    Call::SetSecurityInfo {
                        handle,
                        object_type: SE_KERNEL_OBJECT,
                        information: DACL_SECURITY_INFORMATION,
                        acl,
                    },
                )
            },
            NullDeviceStage::Applying { handle, descriptor, acl } => {
                Step::done(edit_release_list(handle, descriptor, acl), ())
            },
        }
    }
}

/// What the entries grant or revoke, to the SID that they are made for: on a
/// root to read, write, execute and delete, inherited by what is made in it; on
/// the null device to read, write and execute.
pub proof fn law_entries_are_for_their_sid(sid: SidRef)
    ensures
        ({
            let trustee = Trustee { form: 0, kind: 0, sid };
            &&& sid_trustee(sid) == trustee
            &&& write_entry(sid) == (ExplicitAccess { permissions: 0x13_01FF, mode: 2, inheritance: 3, trustee })
            &&& revoke_entry(sid) == (ExplicitAccess { permissions: 0, mode: 4, inheritance: 3, trustee })
            &&& null_device_entry(sid) == (ExplicitAccess { permissions: 0x12_01BF, mode: 2, inheritance: 0, trustee })
        }),
{
    law_masks();
}

/// What is opened for an edit: exactly that root, or the null device, if it
/// exists, with the right to read and rewrite its DACL and no other.
pub proof fn law_only_the_dacl_is_opened(root: usize, handle: usize)
    ensures
        open_for_dacl_edit_call(root) == (Call::CreateFile {
            target: Target::Root(root),
            access: 0x6_0000,
            share: 7,
            disposition: 3,
            flags: 0x200_0000,
        }),
        open_null_device_call() == (Call::CreateFile {
            target: Target::NullDevice,
            access: 0x6_0000,
            share: 3,
            disposition: 3,
            flags: 0x80,
        }),
        query_dacl_call(handle) == (Call::GetSecurityInfo { handle, object_type: 6, information: 4 }),
{
    law_masks();
    assert(1u32 | 2u32 | 4u32 == 7) by (bit_vector);
    assert(1u32 | 2u32 == 3) by (bit_vector);
}

/// What memory at addresses that are not null, and a handle, are given back as.
pub open spec fn freed(first: usize, second: usize, handle: usize) -> Seq<Release> {
    if first != 0 && second != 0 {
        seq![Release::LocalFree(first), Release::LocalFree(second), Release::CloseHandle(handle)]
    } else if first != 0 {
        seq![Release::LocalFree(first), Release::CloseHandle(handle)]
    } else if second != 0 {
        seq![Release::LocalFree(second), Release::CloseHandle(handle)]
    } else {
        seq![Release::CloseHandle(handle)]
    }
}

proof fn lemma_edit_releases(handle: usize, descriptor: usize, acl: usize)
    ensures
        edit_releases(handle, descriptor, acl) == freed(acl, descriptor, handle),
{
    assert(edit_releases(handle, descriptor, acl) =~= freed(acl, descriptor, handle));
}

/// How an edit of a DACL goes: the root is opened, its list is read, the one
/// entry is merged into exactly that list, and the new list is attached to a
/// descriptor that is set on the opened root. Each call that fails ends the edit
/// with its error, which tells the root and the code. Whatever was handed out is
/// given back at the end.
pub proof fn law_edit_sets_the_merged_list(
    root: usize,
    entry: ExplicitAccess,
    opening: Reply,
    query: Reply,
    merge: Reply,
    initialization: Reply,
    attachment: Reply,
    application: Reply,
)
    ensures
        edit_start(root, entry).next matches NextView::Ask(state, request) && request.call
            == open_for_dacl_edit_call(root) && {
            let step = edit_next(state, opening);
            let handle = opening.first;
            if handle == 0 || handle == usize::MAX {
                step.releases.len() == 0 && step.next == NextView::<DaclEdit, DaclOutcome>::Done(
                    Err(SandboxError::CreateFile { root, last_error: opening.last_error }),
                )
            } else {
                &&& step.releases.len() == 0
                &&& step.next matches NextView::Ask(state, request)
                &&& request.call == query_dacl_call(handle)
                &&& {
                    let step = edit_next(state, query);
                    if query.code != 0 {
                        step.releases == seq![Release::CloseHandle(handle)] && step.next == NextView::<
                            DaclEdit,
                            DaclOutcome,
                        >::Done(Err(SandboxError::GetSecurityInfo { root, code: query.code }))
                    } else {
                        &&& step.releases.len() == 0
                        &&& step.next matches NextView::Ask(state, request)
                        &&& request.call == (Call::SetEntriesInAcl { old_acl: query.first })
                        &&& request.payload == PayloadView::Entries(seq![entry])
                        &&& edit_goes_on_from_merging(
                            state,
                            root,
                            handle,
                            query.second,
                            merge,
                            initialization,
                            attachment,
                            application,
                        )
                    }
                }
            }
        },
{
    lemma_edit_releases(opening.first, query.second, merge.first);
}

/// How an edit goes that waits for the merging.
pub open spec fn edit_goes_on_from_merging(
    state: DaclEdit,
    root: usize,
    handle: usize,
    descriptor: usize,
    merge: Reply,
    initialization: Reply,
    attachment: Reply,
    application: Reply,
) -> bool {
    let step = edit_next(state, merge);
    let releases = freed(merge.first, descriptor, handle);
    if merge.code != 0 {
        step.releases == releases && step.next == NextView::<DaclEdit, DaclOutcome>::Done(
            Err(SandboxError::SetEntriesInAcl { root, code: merge.code }),
        )
    } else {
        &&& step.releases.len() == 0
        &&& step.next matches NextView::Ask(state, request)
        &&& request.call == (Call::InitializeSecurityDescriptor { revision: 1 })
        &&& {
            let step = edit_next(state, initialization);
            if initialization.code == 0 {
                step.releases == releases && step.next == NextView::<DaclEdit, DaclOutcome>::Done(
                    Err(SandboxError::InitializeSecurityDescriptor { last_error: initialization.last_error }),
                )
            } else {
                &&& step.releases.len() == 0
                &&& step.next matches NextView::Ask(state, request)
                &&& request.call == (Call::SetSecurityDescriptorDacl { present: 1, acl: merge.first, defaulted: 0 })
                &&& {
                    let step = edit_next(state, attachment);
                    if attachment.code == 0 {
                        step.releases == releases && step.next == NextView::<DaclEdit, DaclOutcome>::Done(
                            Err(SandboxError::SetSecurityDescriptorDacl { last_error: attachment.last_error }),
                        )
                    } else {
                        &&& step.releases.len() == 0
                        &&& step.next matches NextView::Ask(state, request)
                        &&& request.call == (Call::SetKernelObjectSecurity { handle, information: 4 })
                        &&& {
                            let step = edit_next(state, application);
                            let last_error = application.last_error;
                            step.releases == releases && step.next == NextView::<DaclEdit, DaclOutcome>::Done(
                                if application.code == 0 {
                                    Err(SandboxError::SetKernelObjectSecurity { root, last_error })
                                } else {
                                    Ok(())
                                },
                            )
                        }
                    }
                }
            }
        }
    }
}

/// How the null device is granted: it is opened, its list is read, the entry is
/// merged into exactly that list, and the new list is set on the device. Where a
/// call fails, that is the end of it. Whatever was handed out is given back at
/// the end, but for what a failed merge may have handed out.
pub proof fn law_null_device_gets_the_merged_list(
    sid: SidRef,
    opening: Reply,
    query: Reply,
    merge: Reply,
    application: Reply,
)
    ensures
        null_device_start(sid).next matches NextView::Ask(state, request) && request.call == open_null_device_call()
            && {
            let step = null_device_next(state, opening);
            let handle = opening.first;
            if handle == 0 || handle == usize::MAX {
                step.releases.len() == 0 && step.next is Done
            } else {
                &&& step.releases.len() == 0
                &&& step.next matches NextView::Ask(state, request)
                &&& request.call == query_dacl_call(handle)
                &&& {
                    let step = null_device_next(state, query);
                    if query.code != 0 {
                        step.releases == freed(0, query.second, handle) && step.next is Done
                    } else {
                        &&& step.releases.len() == 0
                        &&& step.next matches NextView::Ask(state, request)
                        &&& request.call == (Call::SetEntriesInAcl { old_acl: query.first })
                        &&& request.payload == PayloadView::Entries(
                            seq![
                                ExplicitAccess {
                                    permissions: 0x12_01BF,
                                    mode: 2,
                                    inheritance: 0,
                                    trustee: Trustee { form: 0, kind: 0, sid },
                                },
                            ],
                        )
                        &&& {
                            let step = null_device_next(state, merge);
                            if merge.code != 0 {
                                step.releases == freed(0, query.second, handle) && step.next is Done
                            } else {
                                &&& step.releases.len() == 0
                                &&& step.next matches NextView::Ask(state, request)
                                &&& request.call == (Call::SetSecurityInfo {
                                    handle,
                                    object_type: 6,
                                    information: 4,
                                    acl: merge.first,
                                })
                                &&& {
                                    let step = null_device_next(state, application);
                                    step.releases == freed(merge.first, query.second, handle) && step.next is Done
                                }
                            }
                        }
                    }
                }
            }
        },
{
    law_entries_are_for_their_sid(sid);
    lemma_edit_releases(opening.first, query.second, merge.first);
    lemma_edit_releases(opening.first, query.second, 0);
}

} // verus!
