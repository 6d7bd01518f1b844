//! The vocabulary of the system calls that the sandbox makes.
//!
//! The library decides which call comes next and what follows from its answer;
//! it makes none itself. A procedure is a value that waits for an answer: each
//! [`Step`] names the resources to give back and then either the next call,
//! with the state that waits for its answer, or the outcome. Handles and
//! pointers are numbers here, with 0 for null.

use vstd::prelude::*;

use crate::capability::CapabilitySid;
use crate::command_line::texts;
use crate::error::SandboxError;
use crate::roots::Directory;

verus! {

/// What the functions that return a status return when they succeed.
pub const ERROR_SUCCESS: u32 = 0;

/// What `CreateFileW` returns when it fails: all bits set.
pub const INVALID_HANDLE_VALUE: usize = usize::MAX;

/// Waiting without a limit.
pub const INFINITE: u32 = 0xFFFF_FFFF;

/// A system resource that is given back by the call that the variant names.
#[derive(Clone, Copy, Debug, PartialEq, Eq, Structural)]
pub enum Release {
    CloseHandle(usize),
    LocalFree(usize),
}

/// A security identifier: one at an address, or one of the two whose bytes the
/// caller keeps once they have been asked for.
#[derive(Clone, Copy, Debug, PartialEq, Eq, Structural)]
pub enum SidRef {
    Pointer(usize),
    Logon,
    Everyone,
}

/// The restricting identifiers of a token, in their order.
#[derive(Clone, Copy, Debug, PartialEq, Eq, Structural)]
pub struct RestrictingSids {
    pub first: SidRef,
    pub second: SidRef,
    pub third: SidRef,
}

/// Whom an access entry is for (`TRUSTEE_W`).
#[derive(Clone, Copy, Debug, PartialEq, Eq, Structural)]
pub struct Trustee {
    pub form: i32,
    pub kind: i32,
    pub sid: SidRef,
}

/// An entry to merge into an access list (`EXPLICIT_ACCESS_W`).
#[derive(Clone, Copy, Debug, PartialEq, Eq, Structural)]
pub struct ExplicitAccess {
    pub permissions: u32,
    pub mode: i32,
    pub inheritance: u32,
    pub trustee: Trustee,
}

/// What `CreateFileW` opens: a writable root, which is the policy's directory of
/// that number, canonicalized, or the null device.
#[derive(Clone, Copy, Debug, PartialEq, Eq, Structural)]
pub enum Target {
    Root(usize),
    NullDevice,
}

/// A call, with the arguments that are decided here. Where the comments say
/// nothing else, `Reply::code` is what the call returns.
#[derive(Clone, Copy, Debug, PartialEq, Eq, Structural)]
pub enum Call {
    /// `CreateFileW`. `first` is the handle.
    CreateFile { target: Target, access: u32, share: u32, disposition: u32, flags: u32 },
    /// `GetSecurityInfo`. `first` is the access list, `second` the descriptor
    /// that holds it.
    GetSecurityInfo { handle: usize, object_type: i32, information: u32 },
    /// `SetEntriesInAclW` with the entries of the request. `first` is the new
    /// access list.
    SetEntriesInAcl { old_acl: usize },
    /// `InitializeSecurityDescriptor`, on a descriptor that the caller keeps.
    InitializeSecurityDescriptor { revision: u32 },
    /// `SetSecurityDescriptorDacl`, on that descriptor.
    SetSecurityDescriptorDacl { present: i32, acl: usize, defaulted: i32 },
    /// `SetKernelObjectSecurity`, with that descriptor.
    SetKernelObjectSecurity { handle: usize, information: u32 },
    /// `SetSecurityInfo`.
    SetSecurityInfo { handle: usize, object_type: i32, information: u32, acl: usize },
    /// `ConvertStringSidToSidW`, on the text that the request brings. `first` is
    /// the identifier's address.
    ConvertStringSidToSid { capability: CapabilitySid },
    /// Canonicalizes the directories that the request brings. `directories`
    /// tells what was found of each.
    ResolveRoots,
    /// `OpenProcessToken`, for the current process. `first` is the token.
    OpenProcessToken { access: u32 },
    /// `GetTokenInformation` without a buffer. `first` is the size that it asks
    /// for.
    TokenInformationSize { token: usize, class: i32 },
    /// `GetTokenInformation` into a zeroed buffer of `size` bytes. `first` is
    /// the size that it reports, `buffer` what the buffer then holds, and
    /// `address` where the buffer is.
    TokenInformation { token: usize, class: i32, size: usize },
    /// `GetLengthSid`.
    LengthSid { sid: usize },
    /// `CopySid` into a new buffer of `length` bytes, which the caller keeps as
    /// [`SidRef::Logon`].
    CopySid { length: u32, sid: usize },
    /// `CreateWellKnownSid` without a buffer. `first` is the size that it asks
    /// for.
    WellKnownSidSize { kind: i32 },
    /// `CreateWellKnownSid` into a zeroed buffer of `size` bytes, which the
    /// caller keeps as [`SidRef::Everyone`].
    CreateWellKnownSid { kind: i32, size: usize },
    /// `CreateRestrictedToken` with that many identifiers to disable and
    /// privileges to delete, and three restricting identifiers, in their order.
    /// `first` is the new token.
    CreateRestrictedToken {
        base: usize,
        flags: u32,
        disabled_sids: u32,
        deleted_privileges: u32,
        sids: RestrictingSids,
    },
    /// `SetTokenInformation` for the default access list.
    SetTokenDefaultDacl { token: usize, class: i32, acl: usize },
    /// `LookupPrivilegeValueW`, on this system, for the name that the request
    /// brings. `first` and `second` are the low and the high part of its number.
    LookupPrivilegeValue,
    /// `AdjustTokenPrivileges` for one privilege.
    AdjustTokenPrivileges { token: usize, disable_all: i32, low: usize, high: usize, attributes: u32 },
    /// `CreateJobObjectW`. `first` is the handle.
    CreateJobObject,
    /// `SetInformationJobObject` with extended limits that hold these flags and
    /// nothing else.
    SetInformationJobObject { job: usize, class: i32, limit_flags: u32 },
    /// `CreateProcessAsUserW` where there is a token, `CreateProcessW` where
    /// there is none, with the command line and the desktop that the request
    /// brings. `startup_flags` are the flags of the startup information. `first`
    /// is the process, `second` its primary thread.
    CreateProcess {
        primary_token: Option<usize>,
        application_name: usize,
        process_attributes: usize,
        thread_attributes: usize,
        inherit_handles: i32,
        flags: u32,
        environment: usize,
        current_directory: usize,
        startup_flags: u32,
    },
    /// `AssignProcessToJobObject`.
    AssignProcessToJobObject { job: usize, process: usize },
    /// `ResumeThread`.
    ResumeThread { thread: usize },
    /// `WaitForSingleObject`.
    WaitForSingleObject { handle: usize, timeout: u32 },
    /// `GetExitCodeProcess` into a variable that holds `preset`. `code` is
    /// what the variable then holds.
    GetExitCodeProcess { process: usize, preset: u32 },
    /// Tells the user that the command runs without its write restriction.
    WarnUnrestricted { error: SandboxError },
}

/// What a request brings besides the call. Wide strings have their terminator.
#[derive(Debug, PartialEq, Eq)]
pub enum Payload {
    Nothing,
    /// The entries to merge into an access list.
    Entries(Vec<ExplicitAccess>),
    /// The directories to canonicalize.
    Directories(Vec<String>),
    /// One wide string.
    Text(Vec<u16>),
    /// What a process is created with.
    Launch { command_line: Vec<u16>, desktop: Vec<u16> },
}

/// What a request brings.
#[verifier::ext_equal]
pub enum PayloadView {
    Nothing,
    Entries(Seq<ExplicitAccess>),
    Directories(Seq<Seq<char>>),
    Text(Seq<u16>),
    Launch { command_line: Seq<u16>, desktop: Seq<u16> },
}

impl View for Payload {
    type V = PayloadView;

    open spec fn view(&self) -> PayloadView {
        match self {
            Payload::Nothing => PayloadView::Nothing,
            Payload::Entries(entries) => PayloadView::Entries(entries@),
            Payload::Directories(directories) => PayloadView::Directories(texts(directories@)),
            Payload::Text(text) => PayloadView::Text(text@),
            Payload::Launch { command_line, desktop } => PayloadView::Launch {
                command_line: command_line@,
                desktop: desktop@,
            },
        }
    }
}

/// A call, and what goes with it.
pub struct Request {
    pub call: Call,
    pub payload: Payload,
}

/// What a request asks for.
#[verifier::ext_equal]
pub struct RequestView {
    pub call: Call,
    pub payload: PayloadView,
}

impl View for Request {
    type V = RequestView;

    open spec fn view(&self) -> RequestView {
        RequestView { call: self.call, payload: self.payload@ }
    }
}

/// What came of a call. What the call's comment does not speak of is 0 or
/// empty.
pub struct Reply {
    /// What the call returned.
    pub code: u32,
    /// What `GetLastError` returned right after it.
    pub last_error: u32,
    pub first: usize,
    pub second: usize,
    pub buffer: Vec<u8>,
    pub address: usize,
    pub directories: Vec<Directory>,
}

/// How a procedure goes on: it waits for the answer to a request, or it is
/// done.
pub enum Next<S, T> {
    Ask(S, Request),
    Done(T),
}

/// One step of a procedure: the resources to give back, in their order, and
/// then how it goes on.
pub struct Step<S, T> {
    pub releases: Vec<Release>,
    pub next: Next<S, T>,
}

/// How a procedure goes on.
#[verifier::ext_equal]
pub enum NextView<S, T> {
    Ask(S, RequestView),
    Done(T),
}

/// What one step of a procedure says.
#[verifier::ext_equal]
pub struct StepView<S, T> {
    pub releases: Seq<Release>,
    pub next: NextView<S, T>,
}

impl<S, T> View for Step<S, T> {
    type V = StepView<S, T>;

    open spec fn view(&self) -> StepView<S, T> {
        StepView {
            releases: self.releases@,
            next: match self.next {
                Next::Ask(state, request) => NextView::Ask(state, request@),
                Next::Done(outcome) => NextView::Done(outcome),
            },
        }
    }
}

/// The step that makes a call that brings something.
pub open spec fn bringing<S, T>(
    releases: Seq<Release>,
    state: S,
    call: Call,
    payload: PayloadView,
) -> StepView<S, T> {
    StepView { releases, next: NextView::Ask(state, RequestView { call, payload }) }
}

/// The step that makes a call that brings nothing.
pub open spec fn asking<S, T>(releases: Seq<Release>, state: S, call: Call) -> StepView<S, T> {
    bringing(releases, state, call, PayloadView::Nothing)
}

/// The step that merges entries into an access list.
pub open spec fn merging<S, T>(
    releases: Seq<Release>,
    state: S,
    old_acl: usize,
    entries: Seq<ExplicitAccess>,
) -> StepView<S, T> {
    bringing(releases, state, Call::SetEntriesInAcl { old_acl }, PayloadView::Entries(entries))
}

/// The last step.
pub open spec fn finishing<S, T>(releases: Seq<Release>, outcome: T) -> StepView<S, T> {
    StepView { releases, next: NextView::Done(outcome) }
}

/// The step, with more resources to give back before its own.
pub open spec fn after<S, T>(releases: Seq<Release>, step: StepView<S, T>) -> StepView<S, T> {
    StepView { releases: releases + step.releases, next: step.next }
}

impl<S, T> Step<S, T> {
    /// The step, with more resources to give back before its own.
    pub fn after(self, releases: Vec<Release>) -> (r: Self)
        ensures
            r@ == after(releases@, self@),
    {
        let mut all = releases;
        let mut own = self.releases;
        all.append(&mut own);
        Step { releases: all, next: self.next }
    }

    /// The step that makes a call and gives nothing back.
    pub fn ask(state: S, call: Call) -> (r: Self)
        ensures
            r@ == asking::<S, T>(seq![], state, call),
    {
        Step::ask_after(Vec::new(), state, call)
    }

    /// The step that gives resources back and makes a call.
    pub fn ask_after(releases: Vec<Release>, state: S, call: Call) -> (r: Self)
        ensures
            r@ == asking::<S, T>(releases@, state, call),
    {
        let request = Request { call, payload: Payload::Nothing };
        Step { releases, next: Next::Ask(state, request) }
    }

    /// The step that makes a call that brings something.
    pub fn bring(state: S, call: Call, payload: Payload) -> (r: Self)
        ensures
            r@ == bringing::<S, T>(seq![], state, call, payload@),
    {
        let step = Step { releases: Vec::new(), next: Next::Ask(state, Request { call, payload }) };
        assert(step@ =~~= bringing::<S, T>(seq![], state, call, payload@));
        step
    }

    /// The step that merges entries into an access list.
    pub fn merge(state: S, old_acl: usize, entries: Vec<ExplicitAccess>) -> (r: Self)
        ensures
            r@ == merging::<S, T>(seq![], state, old_acl, entries@),
    {
        Step::bring(state, Call::SetEntriesInAcl { old_acl }, Payload::Entries(entries))
    }

    /// The last step.
    pub fn done(releases: Vec<Release>, outcome: T) -> (r: Self)
        ensures
            r@ == finishing::<S, T>(releases@, outcome),
    {
        Step { releases, next: Next::Done(outcome) }
    }
}

/// Gives back what lies at an address, unless that is null.
pub open spec fn local_free(pointer: usize) -> Seq<Release> {
    if pointer == 0 {
        seq![]
    } else {
        seq![Release::LocalFree(pointer)]
    }
}

/// Appends what [`local_free`] gives back.
pub fn push_local_free(releases: &mut Vec<Release>, pointer: usize)
    ensures
        final(releases)@ == old(releases)@ + local_free(pointer),
{
    if pointer != 0 {
        releases.push(Release::LocalFree(pointer));
    }
    assert(releases@ =~= old(releases)@ + local_free(pointer));
}

/// Closes a handle, unless it is null.
pub open spec fn close_handle(handle: usize) -> Seq<Release> {
    if handle == 0 {
        seq![]
    } else {
        seq![Release::CloseHandle(handle)]
    }
}

/// Appends what [`close_handle`] gives back.
pub fn push_close_handle(releases: &mut Vec<Release>, handle: usize)
    ensures
        final(releases)@ == old(releases)@ + close_handle(handle),
{
    if handle != 0 {
        releases.push(Release::CloseHandle(handle));
    }
    assert(releases@ =~= old(releases)@ + close_handle(handle));
}

/// Whether `CreateFileW` returned a handle.
pub open spec fn opened(handle: usize) -> bool {
    handle != 0 && handle != INVALID_HANDLE_VALUE
}

/// Memory is freed and handles are closed exactly if they are not null, and
/// `CreateFileW` has failed exactly if it returned null or all bits set.
pub proof fn law_only_null_is_kept(pointer: usize, handle: usize)
    ensures
        pointer != 0 ==> local_free(pointer) == seq![Release::LocalFree(pointer)],
        local_free(0) == Seq::<Release>::empty(),
        handle != 0 ==> close_handle(handle) == seq![Release::CloseHandle(handle)],
        close_handle(0) == Seq::<Release>::empty(),
        opened(handle) <==> handle != 0 && handle != usize::MAX,
{
}

/// What is said of a request is all that it holds: its call, and every entry,
/// directory and unit that it brings, each at its place.
pub proof fn law_request_says_what_it_holds(request: Request)
    ensures
        request@.call == request.call,
        match request.payload {
            Payload::Nothing => request@.payload is Nothing,
            Payload::Entries(entries) => request@.payload matches PayloadView::Entries(said) && {
                &&& said.len() == entries@.len()
                &&& forall|i: int| 0 <= i < said.len() ==> #[trigger] said[i] == entries@[i]
            },
            Payload::Directories(directories) => request@.payload matches PayloadView::Directories(said) && {
                &&& said.len() == directories@.len()
                &&& forall|i: int| 0 <= i < said.len() ==> #[trigger] said[i] == directories@[i]@
            },
            Payload::Text(text) => request@.payload matches PayloadView::Text(said) && {
                &&& said.len() == text@.len()
                &&& forall|i: int| 0 <= i < said.len() ==> #[trigger] said[i] == text@[i]
            },
            Payload::Launch { command_line, desktop } => request@.payload matches PayloadView::Launch {
                command_line: line,
                desktop: place,
            } && {
                &&& line.len() == command_line@.len()
                &&& forall|i: int| 0 <= i < line.len() ==> #[trigger] line[i] == command_line@[i]
                &&& place.len() == desktop@.len()
                &&& forall|i: int| 0 <= i < place.len() ==> #[trigger] place[i] == desktop@[i]
            },
        },
{
}

/// What is said of a step is all that it holds: what it gives back, in its
/// order, and how it goes on.
pub proof fn law_step_says_what_it_holds<S, T>(step: Step<S, T>)
    ensures
        step@.releases.len() == step.releases@.len(),
        forall|i: int| 0 <= i < step.releases@.len() ==> #[trigger] step@.releases[i] == step.releases@[i],
        match step.next {
            Next::Ask(state, request) => step@.next matches NextView::Ask(said, asked) && said == state && asked
                == request@,
            Next::Done(outcome) => step@.next matches NextView::Done(said) && said == outcome,
        },
{
}

/// A step with more to give back gives back these resources first, then its
/// own, and goes on as before.
pub proof fn law_step_after_gives_back_first<S, T>(releases: Seq<Release>, step: StepView<S, T>)
    ensures
        ({
            let all = after(releases, step);
            &&& all.next == step.next
            &&& all.releases.len() == releases.len() + step.releases.len()
            &&& forall|i: int| 0 <= i < releases.len() ==> #[trigger] all.releases[i] == releases[i]
            &&& forall|i: int|
                0 <= i < step.releases.len() ==> all.releases[releases.len() + i] == #[trigger] step.releases[i]
        }),
{
}

/// A step is made of what it is given: what it gives back, what it waits in,
/// its call and what that brings, or its outcome.
pub proof fn law_step_is_as_made<S, T>(
    releases: Seq<Release>,
    state: S,
    call: Call,
    payload: PayloadView,
    old_acl: usize,
    entries: Seq<ExplicitAccess>,
    outcome: T,
)
    ensures
        ({
            let step = bringing::<S, T>(releases, state, call, payload);
            step.releases == releases && step.next == NextView::<S, T>::Ask(state, RequestView { call, payload })
        }),
        ({
            let step = asking::<S, T>(releases, state, call);
            step.releases == releases && step.next == NextView::<S, T>::Ask(
                state,
                RequestView { call, payload: PayloadView::Nothing },
            )
        }),
        ({
            let step = merging::<S, T>(releases, state, old_acl, entries);
            step.releases == releases && step.next == NextView::<S, T>::Ask(
                state,
                RequestView { call: Call::SetEntriesInAcl { old_acl }, payload: PayloadView::Entries(entries) },
            )
        }),
        ({
            let step = finishing::<S, T>(releases, outcome);
            step.releases == releases && step.next == NextView::<S, T>::Done(outcome)
        }),
{
}

/// What success, a failed opening and waiting without limit are to the system.
pub proof fn law_system_numbers()
    ensures
        ERROR_SUCCESS == 0,
        INVALID_HANDLE_VALUE == usize::MAX,
        INFINITE == 0xFFFF_FFFF,
{
}

} // verus!
