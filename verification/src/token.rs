//! Restricted-token construction for the sandbox.
//!
//! The key piece is [`create_write_restricted_token`], which builds a
//! `WRITE_RESTRICTED` token from the current process token. Restricting SIDs on
//! such a token are consulted only for write-access checks, so reads keep using
//! the user's normal identity (read everywhere) while writes succeed only where
//! the DACL also grants one of the restricting SIDs.

use vstd::prelude::*;

use crate::acl::{sid_trustee, trustee_for_sid, GRANT_ACCESS};
use crate::error::SandboxError;
use crate::token_groups::{find_logon_sid, logon_search, LogonSearch};
use crate::win32::{
    after, asking, bringing, close_handle, finishing, local_free, merging, push_close_handle, push_local_free, Call,
    ExplicitAccess, Next, NextView, Payload, PayloadView, Release, Reply, RestrictingSids, SidRef, Step, StepView,
    ERROR_SUCCESS,
};
use crate::winutil::{law_wide_text_is_read_back, to_wide, utf16, utf16_lossy};

verus! {

pub const DISABLE_MAX_PRIVILEGE: u32 = 0x01;

pub const LUA_TOKEN: u32 = 0x04;

pub const WRITE_RESTRICTED: u32 = 0x08;

pub const GENERIC_ALL: u32 = 0x1000_0000;

/// The kind of the well-known SID of everyone.
pub const WIN_WORLD_SID: i32 = 1;

pub const SE_PRIVILEGE_ENABLED: u32 = 0x0000_0002;

/// The privilege that a sandboxed command keeps.
pub const SE_CHANGE_NOTIFY_NAME: &'static str = "SeChangeNotifyPrivilege";

pub const TOKEN_ASSIGN_PRIMARY: u32 = 0x1;

pub const TOKEN_DUPLICATE: u32 = 0x2;

pub const TOKEN_QUERY: u32 = 0x8;

pub const TOKEN_ADJUST_PRIVILEGES: u32 = 0x20;

pub const TOKEN_ADJUST_DEFAULT: u32 = 0x80;

pub const TOKEN_ADJUST_SESSIONID: u32 = 0x100;

/// The information class of a token's groups.
pub const TOKEN_GROUPS: i32 = 2;

/// The information class of a token's default DACL.
pub const TOKEN_DEFAULT_DACL: i32 = 6;

/// The rights needed to derive a restricted token from a token.
pub const BASE_TOKEN_ACCESS: u32 = TOKEN_DUPLICATE | TOKEN_QUERY | TOKEN_ASSIGN_PRIMARY | TOKEN_ADJUST_DEFAULT
    | TOKEN_ADJUST_SESSIONID | TOKEN_ADJUST_PRIVILEGES;

/// How the restricted token differs from the one that it is made of.
pub const RESTRICTION_FLAGS: u32 = DISABLE_MAX_PRIVILEGE | LUA_TOKEN | WRITE_RESTRICTED;

/// The numbers behind the combined flags. Only writes are restricted.
pub proof fn law_token_flags()
    ensures
        BASE_TOKEN_ACCESS == 0x1AB,
        RESTRICTION_FLAGS == 0xD,
        RESTRICTION_FLAGS & WRITE_RESTRICTED == WRITE_RESTRICTED,
{
    assert(BASE_TOKEN_ACCESS == 0x1AB) by (bit_vector);
    assert(RESTRICTION_FLAGS == 0xD) by (bit_vector);
    assert(RESTRICTION_FLAGS & WRITE_RESTRICTED == WRITE_RESTRICTED) by (bit_vector);
}

/// Owns a Win32 `HANDLE`, which is closed when it is given up.
#[derive(Debug, PartialEq, Eq)]
pub struct OwnedHandle(pub usize);

impl OwnedHandle {
    /// Wrap a raw handle. The handle must be valid and owned by the caller.
    pub fn new(handle: usize) -> (r: Self)
        ensures
            r == OwnedHandle(handle),
    {
        OwnedHandle(handle)
    }

    pub fn raw(&self) -> (r: usize)
        ensures
            r == self.0,
    {
        self.0
    }

    /// Gives the handle up: it is closed, unless it is null.
    pub fn release(self, releases: &mut Vec<Release>)
        ensures
            final(releases)@ == old(releases)@ + close_handle(self.0),
    {
        push_close_handle(releases, self.0);
    }
}

/// Owns a SID allocated by `ConvertStringSidToSidW`, which is released with
/// `LocalFree` when it is given up.
#[derive(Debug, PartialEq, Eq)]
pub struct LocalSid {
    pub psid: usize,
}

impl LocalSid {
    /// The SID that `ConvertStringSidToSidW` made of a string.
    pub fn from_string(reply: &Reply) -> (r: Result<LocalSid, SandboxError>)
        ensures
            r == sid_from_string(*reply),
    {
        if reply.code == 0 || reply.first == 0 {
            return Err(SandboxError::InvalidSidString);
        }
        Ok(LocalSid { psid: reply.first })
    }

    pub fn as_ptr(&self) -> (r: usize)
        ensures
            r == self.psid,
    {
        self.psid
    }

    /// Gives the SID up: its memory is freed, unless it is null.
    pub fn release(self, releases: &mut Vec<Release>)
        ensures
            final(releases)@ == old(releases)@ + local_free(self.psid),
    {
        push_local_free(releases, self.psid);
    }
}

/// What `ConvertStringSidToSidW` made of a string.
pub open spec fn sid_from_string(reply: Reply) -> Result<LocalSid, SandboxError> {
    if reply.code != 0 && reply.first != 0 {
        Ok(LocalSid { psid: reply.first })
    } else {
        Err(SandboxError::InvalidSidString)
    }
}

/// The call that opens the current process token with the access rights needed
/// to derive a restricted token from it.
pub fn open_current_process_token() -> (r: Call)
    ensures
        r == (Call::OpenProcessToken { access: BASE_TOKEN_ACCESS }),
{
    Call::OpenProcessToken { access: BASE_TOKEN_ACCESS }
}

/// What comes of opening the current process token.
pub open spec fn process_token(reply: Reply) -> Result<OwnedHandle, SandboxError> {
    if reply.code != 0 {
        Ok(OwnedHandle(reply.first))
    } else {
        Err(SandboxError::OpenProcessToken { last_error: reply.last_error })
    }
}

/// The token that [`open_current_process_token`] opened.
pub fn opened_process_token(reply: &Reply) -> (r: Result<OwnedHandle, SandboxError>)
    ensures
        r == process_token(*reply),
{
    if reply.code == 0 {
        return Err(SandboxError::OpenProcessToken { last_error: reply.last_error });
    }
    Ok(OwnedHandle::new(reply.first))
}

/// What comes of a procedure that yields nothing else.
pub type Outcome = Result<(), SandboxError>;

/// The reading of the logon session's SID, waiting for the answer to its last
/// call.
#[derive(Debug, PartialEq, Eq)]
pub struct LogonSid {
    pub token: usize,
    pub stage: LogonSidStage,
}

/// How far the reading is.
#[derive(Debug, PartialEq, Eq)]
pub enum LogonSidStage {
    Sizing,
    Reading,
    Measuring { sid: usize },
    Copying,
}

/// The first step of the reading.
pub open spec fn logon_sid_start(token: usize) -> StepView<LogonSid, Outcome> {
    asking(
        seq![],
        LogonSid { token, stage: LogonSidStage::Sizing },
        Call::TokenInformationSize { token, class: TOKEN_GROUPS },
    )
}

/// The step of the reading that follows an answer.
pub open spec fn logon_sid_next(state: LogonSid, reply: Reply) -> StepView<LogonSid, Outcome> {
    let token = state.token;
    match state.stage {
        LogonSidStage::Sizing => if reply.first != 0 {
            asking(
                seq![],
                LogonSid { token, stage: LogonSidStage::Reading },
                Call::TokenInformation { token, class: TOKEN_GROUPS, size: reply.first },
            )
        } else {
            finishing(seq![], Err(SandboxError::TokenGroupsSize))
        },
        LogonSidStage::Reading => if reply.code == 0 || reply.first < 4 {
            finishing(seq![], Err(SandboxError::TokenGroups))
        } else {
            match logon_search(reply.buffer@, reply.address) {
                LogonSearch::Found(sid) => asking(
                    seq![],
                    LogonSid { token, stage: LogonSidStage::Measuring { sid } },
                    Call::LengthSid { sid },
                ),
                LogonSearch::Absent => finishing(seq![], Err(SandboxError::LogonSidMissing)),
                LogonSearch::Truncated => finishing(seq![], Err(SandboxError::TokenGroupsTruncated)),
            }
        },
        LogonSidStage::Measuring { sid } => if reply.code != 0 {
            asking(
                seq![],
                LogonSid { token, stage: LogonSidStage::Copying },
                Call::CopySid { length: reply.code, sid },
            )
        } else {
            finishing(seq![], Err(SandboxError::LogonSidLength))
        },
        LogonSidStage::Copying => finishing(
            seq![],
            if reply.code != 0 {
                Ok(())
            } else {
                Err(SandboxError::LogonSidCopy)
            },
        ),
    }
}

/// Starts to copy the logon session's SID out of a token's groups.
pub fn get_logon_sid_bytes(token: usize) -> (r: Step<LogonSid, Outcome>)
    ensures
        r@ == logon_sid_start(token),
{
    Step::ask(
        LogonSid { token, stage: LogonSidStage::Sizing },
        Call::TokenInformationSize { token, class: TOKEN_GROUPS },
    )
}

impl LogonSid {
    /// Goes on with the answer to the last call.
    pub fn resume(self, reply: &Reply) -> (r: Step<LogonSid, Outcome>)
        ensures
            r@ == logon_sid_next(self, *reply),
    {
        let token = self.token;
        match self.stage {
            LogonSidStage::Sizing => {
                let needed = reply.first;
                if needed == 0 {
                    return Step::done(Vec::new(), Err(SandboxError::TokenGroupsSize));
                }
                Step::ask(
                    LogonSid { token, stage: LogonSidStage::Reading },
                    Call::TokenInformation { token, class: TOKEN_GROUPS, size: needed },
                )
            },
            LogonSidStage::Reading => {
                if reply.code == 0 || reply.first < 4 {
                    return Step::done(Vec::new(), Err(SandboxError::TokenGroups));
                }
                match find_logon_sid(&reply.buffer, reply.address) {
                    LogonSearch::Found(sid) => Step::ask(
                        LogonSid { token, stage: LogonSidStage::Measuring { sid } },
                        Call::LengthSid { sid },
                    ),
                    LogonSearch::Absent => Step::done(Vec::new(), Err(SandboxError::LogonSidMissing)),
                    LogonSearch::Truncated => Step::done(Vec::new(), Err(SandboxError::TokenGroupsTruncated)),
                }
            },
            LogonSidStage::Measuring { sid } => {
                let length = reply.code;
                if length == 0 {
                    return Step::done(Vec::new(), Err(SandboxError::LogonSidLength));
                }
                Step::ask(LogonSid { token, stage: LogonSidStage::Copying }, Call::CopySid { length, sid })
            },
            LogonSidStage::Copying => {
                if reply.code == 0 {
                    return Step::done(Vec::new(), Err(SandboxError::LogonSidCopy));
                }
                Step::done(Vec::new(), Ok(()))
            },
        }
    }
}

/// The making of the SID of everyone, waiting for the answer to its last call.
#[derive(Debug, PartialEq, Eq)]
pub enum WorldSid {
    Sizing,
    Making,
}

/// The first step of the making.
pub open spec fn world_sid_start() -> StepView<WorldSid, Outcome> {
    asking(seq![], WorldSid::Sizing, Call::WellKnownSidSize { kind: WIN_WORLD_SID })
}

/// The step of the making that follows an answer.
pub open spec fn world_sid_next(state: WorldSid, reply: Reply) -> StepView<WorldSid, Outcome> {
    match state {
        WorldSid::Sizing => asking(
            seq![],
            WorldSid::Making,
            Call::CreateWellKnownSid { kind: WIN_WORLD_SID, size: reply.first },
        ),
        WorldSid::Making => finishing(
            seq![],
            if reply.code != 0 {
                Ok(())
            } else {
                Err(SandboxError::CreateWellKnownSid { last_error: reply.last_error })
            },
        ),
    }
}

/// Starts to make the SID of everyone.
pub fn world_sid() -> (r: Step<WorldSid, Outcome>)
    ensures
        r@ == world_sid_start(),
{
    Step::ask(WorldSid::Sizing, Call::WellKnownSidSize { kind: WIN_WORLD_SID })
}

impl WorldSid {
    /// Goes on with the answer to the last call.
    pub fn resume(self, reply: &Reply) -> (r: Step<WorldSid, Outcome>)
        ensures
            r@ == world_sid_next(self, *reply),
    {
        match self {
            WorldSid::Sizing => Step::ask(
                WorldSid::Making,
                Call::CreateWellKnownSid { kind: WIN_WORLD_SID, size: reply.first },
            ),
            WorldSid::Making => {
                if reply.code == 0 {
                    return Step::done(
                        Vec::new(),
                        Err(SandboxError::CreateWellKnownSid { last_error: reply.last_error }),
                    );
                }
                Step::done(Vec::new(), Ok(()))
            },
        }
    }
}

/// The entry that grants everything to an identifier.
pub open spec fn full_entry(sid: SidRef) -> ExplicitAccess {
    ExplicitAccess { permissions: GENERIC_ALL, mode: GRANT_ACCESS, inheritance: 0, trustee: sid_trustee(sid) }
}

/// The entries that grant everything to each of the identifiers.
pub open spec fn full_entries(sids: Seq<SidRef>) -> Seq<ExplicitAccess> {
    sids.map_values(|sid: SidRef| full_entry(sid))
}

/// The setting of a token's default DACL, waiting for the answer to its last
/// call.
#[derive(Debug, PartialEq, Eq)]
pub enum DefaultDacl {
    Merging { token: usize },
    Setting { acl: usize },
}

/// The first step of the setting.
pub open spec fn default_dacl_start(token: usize, sids: Seq<SidRef>) -> StepView<DefaultDacl, Outcome> {
    if sids.len() == 0 {
        finishing(seq![], Ok(()))
    } else {
        merging(seq![], DefaultDacl::Merging { token }, 0, full_entries(sids))
    }
}

/// The step of the setting that follows an answer.
pub open spec fn default_dacl_next(state: DefaultDacl, reply: Reply) -> StepView<DefaultDacl, Outcome> {
    match state {
        DefaultDacl::Merging { token } => if reply.code == ERROR_SUCCESS {
            asking(
                seq![],
                DefaultDacl::Setting { acl: reply.first },
                Call::SetTokenDefaultDacl { token, class: TOKEN_DEFAULT_DACL, acl: reply.first },
            )
        } else {
            finishing(seq![], Err(SandboxError::DefaultDaclEntries { code: reply.code }))
        },
        DefaultDacl::Setting { acl } => finishing(
            local_free(acl),
            if reply.code != 0 {
                Ok(())
            } else {
                Err(SandboxError::SetTokenDefaultDacl { last_error: reply.last_error })
            },
        ),
    }
}

/// Starts to set a permissive default DACL on a token so sandboxed processes
/// can create pipes/IPC objects without `ACCESS_DENIED`.
pub fn set_default_dacl(token: usize, sids: &Vec<SidRef>) -> (r: Step<DefaultDacl, Outcome>)
    ensures
        r@ == default_dacl_start(token, sids@),
{
    if sids.len() == 0 {
        return Step::done(Vec::new(), Ok(()));
    }
    let mut entries: Vec<ExplicitAccess> = Vec::new();
    for i in 0..sids.len()
        invariant
            entries@ == full_entries(sids@).take(i as int),
    {
        entries.push(
            ExplicitAccess {
                permissions: GENERIC_ALL,
                mode: GRANT_ACCESS,
                inheritance: 0,
                trustee: trustee_for_sid(sids[i]),
            },
        );
        assert(full_entries(sids@).take(i as int).push(full_entry(sids@[i as int])) =~= full_entries(sids@).take(
            i + 1,
        ));
    }
    assert(entries@ =~= full_entries(sids@));
    Step::merge(DefaultDacl::Merging { token }, 0, entries)
}

impl DefaultDacl {
    /// Goes on with the answer to the last call.
    pub fn resume(self, reply: &Reply) -> (r: Step<DefaultDacl, Outcome>)
        ensures
            r@ == default_dacl_next(self, *reply),
    {
        match self {
            DefaultDacl::Merging { token } => {
                if reply.code != ERROR_SUCCESS {
                    return Step::done(Vec::new(), Err(SandboxError::DefaultDaclEntries { code: reply.code }));
                }
                let acl = reply.first;
                Step::ask(
                    DefaultDacl::Setting { acl },
                    Call::SetTokenDefaultDacl { token, class: TOKEN_DEFAULT_DACL, acl },
                )
            },
            DefaultDacl::Setting { acl } => {
                let outcome = if reply.code == 0 {
                    Err(SandboxError::SetTokenDefaultDacl { last_error: reply.last_error })
                } else {
                    Ok(())
                };
                let mut releases: Vec<Release> = Vec::new();
                push_local_free(&mut releases, acl);
                assert(releases@ =~= local_free(acl));
                Step::done(releases, outcome)
            },
        }
    }
}

/// The enabling of one privilege, waiting for the answer to its last call.
#[derive(Debug, PartialEq, Eq)]
pub enum Privilege {
    LookingUp { token: usize },
    Adjusting,
}

/// The first step of the enabling.
pub open spec fn privilege_start(token: usize, name: Seq<char>) -> StepView<Privilege, Outcome> {
    bringing(
        seq![],
        Privilege::LookingUp { token },
        Call::LookupPrivilegeValue,
        PayloadView::Text(utf16(name).push(0)),
    )
}

/// The step of the enabling that follows an answer.
pub open spec fn privilege_next(state: Privilege, reply: Reply) -> StepView<Privilege, Outcome> {
    match state {
        Privilege::LookingUp { token } => if reply.code != 0 {
            asking(
                seq![],
                Privilege::Adjusting,
                Call::AdjustTokenPrivileges {
                    token,
                    disable_all: 0,
                    low: reply.first,
                    high: reply.second,
                    attributes: SE_PRIVILEGE_ENABLED,
                },
            )
        } else {
            finishing(seq![], Err(SandboxError::LookupPrivilegeValue { last_error: reply.last_error }))
        },
        Privilege::Adjusting => finishing(
            seq![],
            if reply.code != 0 {
                Ok(())
            } else {
                Err(SandboxError::AdjustTokenPrivileges { last_error: reply.last_error })
            },
        ),
    }
}

/// Starts to enable the privilege of that name on a token.
pub fn enable_single_privilege(token: usize, name: &str) -> (r: Step<Privilege, Outcome>)
    ensures
        r@ == privilege_start(token, name@),
{
    Step::bring(Privilege::LookingUp { token }, Call::LookupPrivilegeValue, Payload::Text(to_wide(name)))
}

impl Privilege {
    /// Goes on with the answer to the last call.
    pub fn resume(self, reply: &Reply) -> (r: Step<Privilege, Outcome>)
        ensures
            r@ == privilege_next(self, *reply),
    {
        match self {
            Privilege::LookingUp { token } => {
                if reply.code == 0 {
                    return Step::done(
                        Vec::new(),
                        Err(SandboxError::LookupPrivilegeValue { last_error: reply.last_error }),
                    );
                }
                Step::ask(
                    Privilege::Adjusting,
                    Call::AdjustTokenPrivileges {
                        token,
                        disable_all: 0,
                        low: reply.first,
                        high: reply.second,
                        attributes: SE_PRIVILEGE_ENABLED,
                    },
                )
            },
            Privilege::Adjusting => {
                if reply.code == 0 {
                    return Step::done(
                        Vec::new(),
                        Err(SandboxError::AdjustTokenPrivileges { last_error: reply.last_error }),
                    );
                }
                Step::done(Vec::new(), Ok(()))
            },
        }
    }
}

/// What comes of building a restricted token.
pub type TokenOutcome = Result<OwnedHandle, SandboxError>;

/// The building of a write-restricted token, waiting for the answer to its
/// last call.
#[derive(Debug, PartialEq, Eq)]
pub struct RestrictedToken {
    pub base: usize,
    pub capability: usize,
    pub stage: RestrictedTokenStage,
}

/// How far the building is, and the token that it holds.
#[derive(Debug, PartialEq, Eq)]
pub enum RestrictedTokenStage {
    Logon(LogonSid),
    World(WorldSid),
    Creating,
    DefaultDacl { token: OwnedHandle, setting: DefaultDacl },
    Privilege { token: OwnedHandle, enabling: Privilege },
}

/// The restricting SIDs, in their exact order: capability, logon, everyone.
pub open spec fn restricting_sids(capability: usize) -> RestrictingSids {
    RestrictingSids { first: SidRef::Pointer(capability), second: SidRef::Logon, third: SidRef::Everyone }
}

/// The identifiers that the token's default DACL grants everything to.
pub open spec fn default_dacl_sids(capability: usize) -> Seq<SidRef> {
    seq![SidRef::Logon, SidRef::Everyone, SidRef::Pointer(capability)]
}

/// The call that creates the restricted token.
pub open spec fn create_token_call(base: usize, capability: usize) -> Call {
    Call::CreateRestrictedToken {
        base,
        flags: RESTRICTION_FLAGS,
        disabled_sids: 0,
        deleted_privileges: 0,
        sids: restricting_sids(capability),
    }
}

/// The step of the building that follows a step of the logon SID's reading.
pub open spec fn token_after_logon(
    base: usize,
    capability: usize,
    step: StepView<LogonSid, Outcome>,
) -> StepView<RestrictedToken, TokenOutcome> {
    match step.next {
        NextView::Ask(inner, request) => StepView {
            releases: step.releases,
            next: NextView::Ask(
                RestrictedToken { base, capability, stage: RestrictedTokenStage::Logon(inner) },
                request,
            ),
        },
        NextView::Done(Err(error)) => finishing(step.releases, Err(error)),
        NextView::Done(Ok(_)) => token_after_world(
            base,
            capability,
            after(step.releases, world_sid_start()),
        ),
    }
}

/// The step of the building that follows a step of the world SID's making.
pub open spec fn token_after_world(base: usize, capability: usize, step: StepView<WorldSid, Outcome>) -> StepView<
    RestrictedToken,
    TokenOutcome,
> {
    match step.next {
        NextView::Ask(inner, request) => StepView {
            releases: step.releases,
            next: NextView::Ask(
                RestrictedToken { base, capability, stage: RestrictedTokenStage::World(inner) },
                request,
            ),
        },
        NextView::Done(Err(error)) => finishing(step.releases, Err(error)),
        NextView::Done(Ok(_)) => asking(
            step.releases,
            RestrictedToken { base, capability, stage: RestrictedTokenStage::Creating },
            create_token_call(base, capability),
        ),
    }
}

/// The step of the building that follows a step of the default DACL's setting.
pub open spec fn token_after_default_dacl(
    base: usize,
    capability: usize,
    token: OwnedHandle,
    step: StepView<DefaultDacl, Outcome>,
) -> StepView<RestrictedToken, TokenOutcome> {
    match step.next {
        NextView::Ask(inner, request) => StepView {
            releases: step.releases,
            next: NextView::Ask(
                RestrictedToken {
                    base,
                    capability,
                    stage: RestrictedTokenStage::DefaultDacl { token, setting: inner },
                },
                request,
            ),
        },
        NextView::Done(Err(error)) => finishing(step.releases + close_handle(token.0), Err(error)),
        NextView::Done(Ok(_)) => token_after_privilege(
            base,
            capability,
            token,
            after(step.releases, privilege_start(token.0, SE_CHANGE_NOTIFY_NAME@)),
        ),
    }
}

/// The step of the building that follows a step of the privilege's enabling.
pub open spec fn token_after_privilege(
    base: usize,
    capability: usize,
    token: OwnedHandle,
    step: StepView<Privilege, Outcome>,
) -> StepView<RestrictedToken, TokenOutcome> {
    match step.next {
        NextView::Ask(inner, request) => StepView {
            releases: step.releases,
            next: NextView::Ask(
                RestrictedToken {
                    base,
                    capability,
                    stage: RestrictedTokenStage::Privilege { token, enabling: inner },
                },
                request,
            ),
        },
        NextView::Done(Err(error)) => finishing(step.releases + close_handle(token.0), Err(error)),
        NextView::Done(Ok(_)) => finishing(step.releases, Ok(token)),
    }
}

/// The first step of the building.
pub open spec fn token_start(base: usize, capability: usize) -> StepView<RestrictedToken, TokenOutcome> {
    token_after_logon(base, capability, logon_sid_start(base))
}

/// The step of the building that follows an answer.
pub open spec fn token_next(state: RestrictedToken, reply: Reply) -> StepView<RestrictedToken, TokenOutcome> {
    let base = state.base;
    let capability = state.capability;
    match state.stage {
        RestrictedTokenStage::Logon(inner) => token_after_logon(base, capability, logon_sid_next(inner, reply)),
        RestrictedTokenStage::World(inner) => token_after_world(base, capability, world_sid_next(inner, reply)),
        RestrictedTokenStage::Creating => if reply.code != 0 {
            token_after_default_dacl(
                base,
                capability,
                OwnedHandle(reply.first),
                default_dacl_start(reply.first, default_dacl_sids(capability)),
            )
        } else {
            finishing(seq![], Err(SandboxError::CreateRestrictedToken { last_error: reply.last_error }))
        },
        RestrictedTokenStage::DefaultDacl { token, setting } => token_after_default_dacl(
            base,
            capability,
            token,
            default_dacl_next(setting, reply),
        ),
        RestrictedTokenStage::Privilege { token, enabling } => token_after_privilege(
            base,
            capability,
            token,
            privilege_next(enabling, reply),
        ),
    }
}

/// Starts to build a `WRITE_RESTRICTED` primary token from `base`, with
/// `capability` plus the logon-session SID and the Everyone SID as restricting
/// SIDs. Writes then succeed only on objects whose DACL grants one of those
/// SIDs; the per-session capability SID is what is added to writable roots.
pub fn create_write_restricted_token(base: usize, capability: usize) -> (r: Step<RestrictedToken, TokenOutcome>)
    ensures
        r@ == token_start(base, capability),
{
    RestrictedToken::after_logon(base, capability, get_logon_sid_bytes(base))
}

impl RestrictedToken {
    fn after_logon(base: usize, capability: usize, step: Step<LogonSid, Outcome>) -> (r: Step<
        RestrictedToken,
        TokenOutcome,
    >)
        ensures
            r@ == token_after_logon(base, capability, step@),
    {
        let releases = step.releases;
        match step.next {
            Next::Ask(inner, request) => {
                let state = RestrictedToken { base, capability, stage: RestrictedTokenStage::Logon(inner) };
                Step { releases, next: Next::Ask(state, request) }
            },
            Next::Done(Err(error)) => Step::done(releases, Err(error)),
            Next::Done(Ok(_)) => RestrictedToken::after_world(base, capability, world_sid().after(releases)),
        }
    }

    fn after_world(base: usize, capability: usize, step: Step<WorldSid, Outcome>) -> (r: Step<
        RestrictedToken,
        TokenOutcome,
    >)
        ensures
            r@ == token_after_world(base, capability, step@),
    {
        let releases = step.releases;
        match step.next {
            Next::Ask(inner, request) => {
                let state = RestrictedToken { base, capability, stage: RestrictedTokenStage::World(inner) };
                Step { releases, next: Next::Ask(state, request) }
            },
            Next::Done(Err(error)) => Step::done(releases, Err(error)),
            Next::Done(Ok(_)) => {
                // Exact restricting-SID order: capability, logon, everyone.
                let sids = RestrictingSids {
                    first: SidRef::Pointer(capability),
                    second: SidRef::Logon,
                    third: SidRef::Everyone,
                };
                Step::ask_after(
                    releases,
                    RestrictedToken { base, capability, stage: RestrictedTokenStage::Creating },
                    Call::CreateRestrictedToken {
                        base,
                        flags: RESTRICTION_FLAGS,
                        disabled_sids: 0,
                        deleted_privileges: 0,
                        sids,
                    },
                )
            },
        }
    }

    fn after_default_dacl(
        base: usize,
        capability: usize,
        token: OwnedHandle,
        step: Step<DefaultDacl, Outcome>,
    ) -> (r: Step<RestrictedToken, TokenOutcome>)
        ensures
            r@ == token_after_default_dacl(base, capability, token, step@),
    {
        let mut releases = step.releases;
        match step.next {
            Next::Ask(setting, request) => {
                let stage = RestrictedTokenStage::DefaultDacl { token, setting };
                Step { releases, next: Next::Ask(RestrictedToken { base, capability, stage }, request) }
            },
            Next::Done(Err(error)) => {
                token.release(&mut releases);
                Step::done(releases, Err(error))
            },
            Next::Done(Ok(_)) => {
                let privilege = enable_single_privilege(token.raw(), SE_CHANGE_NOTIFY_NAME);
                RestrictedToken::after_privilege(base, capability, token, privilege.after(releases))
            },
        }
    }

    fn after_privilege(
        base: usize,
        capability: usize,
        token: OwnedHandle,
        step: Step<Privilege, Outcome>,
    ) -> (r: Step<RestrictedToken, TokenOutcome>)
        ensures
            r@ == token_after_privilege(base, capability, token, step@),
    {
        let mut releases = step.releases;
        match step.next {
            Next::Ask(enabling, request) => {
                let stage = RestrictedTokenStage::Privilege { token, enabling };
                Step { releases, next: Next::Ask(RestrictedToken { base, capability, stage }, request) }
            },
            Next::Done(Err(error)) => {
                token.release(&mut releases);
                Step::done(releases, Err(error))
            },
            Next::Done(Ok(_)) => Step::done(releases, Ok(token)),
        }
    }

    /// Goes on with the answer to the last call.
    pub fn resume(self, reply: &Reply) -> (r: Step<RestrictedToken, TokenOutcome>)
        ensures
            r@ == token_next(self, *reply),
    {
        let base = self.base;
        let capability = self.capability;
        match self.stage {
            RestrictedTokenStage::Logon(inner) => RestrictedToken::after_logon(base, capability, inner.resume(reply)),
            RestrictedTokenStage::World(inner) => RestrictedToken::after_world(base, capability, inner.resume(reply)),
            RestrictedTokenStage::Creating => {
                if reply.code == 0 {
                    return Step::done(
                        Vec::new(),
                        Err(SandboxError::CreateRestrictedToken { last_error: reply.last_error }),
                    );
                }
                let token = OwnedHandle::new(reply.first);
                // A permissive default DACL lets the sandboxed process create
                // the pipe/IPC objects that shells rely on.
                let mut sids: Vec<SidRef> = Vec::new();
                sids.push(SidRef::Logon);
                sids.push(SidRef::Everyone);
                sids.push(SidRef::Pointer(capability));
                assert(sids@ =~= default_dacl_sids(capability));
                let step = set_default_dacl(token.raw(), &sids);
                RestrictedToken::after_default_dacl(base, capability, token, step)
            },
            RestrictedTokenStage::DefaultDacl { token, setting } => RestrictedToken::after_default_dacl(
                base,
                capability,
                token,
                setting.resume(reply),
            ),
            RestrictedTokenStage::Privilege { token, enabling } => RestrictedToken::after_privilege(
                base,
                capability,
                token,
                enabling.resume(reply),
            ),
        }
    }
}

/// The call that creates a restricted token: it is made of the base token, with
/// the flags of a write-restricted one, with nothing disabled or deleted by
/// name, and restricted to the capability SID, the logon session and everyone.
pub proof fn law_token_is_restricted_to_three_sids(base: usize, capability: usize)
    ensures
        create_token_call(base, capability) == (Call::CreateRestrictedToken {
            base,
            flags: 0xD,
            disabled_sids: 0,
            deleted_privileges: 0,
            sids: RestrictingSids { first: SidRef::Pointer(capability), second: SidRef::Logon, third: SidRef::Everyone },
        }),
{
    law_token_flags();
}

/// How the logon session's SID is read: the token's groups are read into a
/// buffer of the size that was asked for, and the SID that is found there is
/// copied, with its length. Each call that fails ends the reading with its
/// error.
pub proof fn law_logon_sid_is_copied(token: usize, sized: Reply, read: Reply, measured: Reply, copied: Reply)
    ensures
        logon_sid_start(token).next matches NextView::Ask(state, request) && request.call
            == (Call::TokenInformationSize { token, class: 2 }) && {
            let step = logon_sid_next(state, sized);
            if sized.first == 0 {
                step.next == NextView::<LogonSid, Outcome>::Done(Err(SandboxError::TokenGroupsSize))
            } else {
                &&& step.next matches NextView::Ask(state, request)
                &&& request.call == (Call::TokenInformation { token, class: 2, size: sized.first })
                &&& {
                    let step = logon_sid_next(state, read);
                    if read.code == 0 || read.first < 4 {
                        step.next == NextView::<LogonSid, Outcome>::Done(Err(SandboxError::TokenGroups))
                    } else {
                        match logon_search(read.buffer@, read.address) {
                            LogonSearch::Absent => step.next == NextView::<LogonSid, Outcome>::Done(
                                Err(SandboxError::LogonSidMissing),
                            ),
                            LogonSearch::Truncated => step.next == NextView::<LogonSid, Outcome>::Done(
                                Err(SandboxError::TokenGroupsTruncated),
                            ),
                            LogonSearch::Found(sid) => {
                                &&& step.next matches NextView::Ask(state, request)
                                &&& request.call == (Call::LengthSid { sid })
                                &&& {
                                    let step = logon_sid_next(state, measured);
                                    if measured.code == 0 {
                                        step.next == NextView::<LogonSid, Outcome>::Done(
                                            Err(SandboxError::LogonSidLength),
                                        )
                                    } else {
                                        &&& step.next matches NextView::Ask(state, request)
                                        &&& request.call == (Call::CopySid { length: measured.code, sid })
                                        &&& logon_sid_next(state, copied).next == NextView::<LogonSid, Outcome>::Done(
                                            if copied.code == 0 {
                                                Err(SandboxError::LogonSidCopy)
                                            } else {
                                                Ok(())
                                            },
                                        )
                                    }
                                }
                            },
                        }
                    }
                }
            }
        },
{
}

/// How the SID of everyone is made: in a buffer of the size that was asked for.
pub proof fn law_everyone_sid_is_made(sized: Reply, made: Reply)
    ensures
        world_sid_start().next matches NextView::Ask(state, request) && request.call == (Call::WellKnownSidSize {
            kind: 1,
        }) && {
            let step = world_sid_next(state, sized);
            &&& step.next matches NextView::Ask(state, request)
            &&& request.call == (Call::CreateWellKnownSid { kind: 1, size: sized.first })
            &&& world_sid_next(state, made).next == NextView::<WorldSid, Outcome>::Done(
                if made.code == 0 {
                    Err(SandboxError::CreateWellKnownSid { last_error: made.last_error })
                } else {
                    Ok(())
                },
            )
        },
{
}

/// How a token's default DACL is set: a new list is made that grants each of the
/// SIDs everything, one entry for each, in their order; it is set on that token
/// and then freed. Where there are no SIDs, nothing is done.
pub proof fn law_default_dacl_grants_each_sid(token: usize, sids: Seq<SidRef>, merged: Reply, set: Reply)
    ensures
        sids.len() == 0 ==> default_dacl_start(token, sids).next == NextView::<DefaultDacl, Outcome>::Done(Ok(())),
        sids.len() > 0 ==> (default_dacl_start(token, sids).next matches NextView::Ask(state, request) && request.call
            == (Call::SetEntriesInAcl { old_acl: 0 }) && (request.payload matches PayloadView::Entries(entries) && {
            &&& entries.len() == sids.len()
            &&& forall|i: int|
                0 <= i < sids.len() ==> {
                    &&& (#[trigger] entries[i]).permissions == 0x1000_0000
                    &&& entries[i].mode == 1
                    &&& entries[i].inheritance == 0
                    &&& entries[i].trustee.form == 0
                    &&& entries[i].trustee.kind == 0
                    &&& entries[i].trustee.sid == sids[i]
                }
        }) && {
            let step = default_dacl_next(state, merged);
            if merged.code != 0 {
                step.releases.len() == 0 && step.next == NextView::<DefaultDacl, Outcome>::Done(
                    Err(SandboxError::DefaultDaclEntries { code: merged.code }),
                )
            } else {
                &&& step.releases.len() == 0
                &&& step.next matches NextView::Ask(state, request)
                &&& request.call == (Call::SetTokenDefaultDacl { token, class: 6, acl: merged.first })
                &&& {
                    let last = default_dacl_next(state, set);
                    &&& merged.first != 0 ==> last.releases == seq![Release::LocalFree(merged.first)]
                    &&& last.next == NextView::<DefaultDacl, Outcome>::Done(
                        if set.code == 0 {
                            Err(SandboxError::SetTokenDefaultDacl { last_error: set.last_error })
                        } else {
                            Ok(())
                        },
                    )
                }
            }
        }),
{
}

/// How a privilege is enabled: its name, which ends in a 0, is looked up, and
/// the number that comes back is enabled on that token.
pub proof fn law_named_privilege_is_enabled(token: usize, name: Seq<char>, found: Reply, adjusted: Reply)
    ensures
        privilege_start(token, name).next matches NextView::Ask(state, request) && request.call is LookupPrivilegeValue
            && (request.payload matches PayloadView::Text(text) && text.len() > 0 && text.last() == 0 && utf16_lossy(
            text.drop_last(),
        ) == name) && {
            let step = privilege_next(state, found);
            if found.code == 0 {
                step.next == NextView::<Privilege, Outcome>::Done(
                    Err(SandboxError::LookupPrivilegeValue { last_error: found.last_error }),
                )
            } else {
                &&& step.next matches NextView::Ask(state, request)
                &&& request.call == (Call::AdjustTokenPrivileges {
                    token,
                    disable_all: 0,
                    low: found.first,
                    high: found.second,
                    attributes: 2,
                })
                &&& privilege_next(state, adjusted).next == NextView::<Privilege, Outcome>::Done(
                    if adjusted.code == 0 {
                        Err(SandboxError::AdjustTokenPrivileges { last_error: adjusted.last_error })
                    } else {
                        Ok(())
                    },
                )
            }
        },
{
    law_wide_text_is_read_back(name);
    assert(utf16(name).push(0).drop_last() =~= utf16(name));
}

/// The SID of a string, and the token of the process, are there if and only if
/// the system says so, and they are what the system gave.
pub proof fn law_given_sid_and_token_are_kept(reply: Reply)
    ensures
        match sid_from_string(reply) {
            Ok(sid) => reply.code != 0 && reply.first != 0 && sid.psid == reply.first,
            Err(error) => (reply.code == 0 || reply.first == 0) && error is InvalidSidString,
        },
        match process_token(reply) {
            Ok(token) => reply.code != 0 && token.0 == reply.first,
            Err(error) => reply.code == 0 && error == (SandboxError::OpenProcessToken { last_error: reply.last_error }),
        },
{
}

} // verus!
