//! The write restriction: a token whose writes are checked against the
//! capability SID, and the ACEs that let that SID write to the roots.

use vstd::prelude::*;

use crate::acl::{
    add_allow_write_ace, allow_null_device, edit_next, null_device_next, null_device_start, open_for_dacl_edit_call,
    revoke_ace, revoke_entry, write_entry, DaclEdit, DaclOutcome, DaclStage, NullDevice,
};
use crate::capability::{sid_text, CapabilitySid};
use crate::command_line::texts;
use crate::error::SandboxError;
use crate::roots::Roots;
use crate::token::{
    create_write_restricted_token, open_current_process_token, opened_process_token, process_token, sid_from_string,
    token_next, token_start, LocalSid, OwnedHandle, RestrictedToken, TokenOutcome, BASE_TOKEN_ACCESS,
};
use crate::win32::{
    after, asking, bringing, close_handle, finishing, local_free, Call, Next, NextView, Payload, PayloadView, Release,
    Reply, SidRef, Step, StepView,
};
use crate::winutil::{to_wide, utf16};

verus! {

/// What is taken back when the command has ended: the ACEs for `cap_sid` on
/// the roots.
#[derive(Debug, PartialEq, Eq)]
pub struct AceCleanup {
    pub cap_sid: LocalSid,
    pub roots: Roots,
}

/// A write restriction in force.
#[derive(Debug, PartialEq, Eq)]
pub struct WriteRestriction {
    pub token: OwnedHandle,
    pub cleanup: AceCleanup,
}

/// What comes of building a write restriction.
pub type RestrictionOutcome = Result<WriteRestriction, SandboxError>;

/// The building of a write restriction, waiting for the answer to its last
/// call, with what it holds.
#[derive(Debug, PartialEq, Eq)]
pub enum Restriction {
    Minting { directories: Vec<String> },
    Resolving { cap_sid: LocalSid },
    OpeningToken { cap_sid: LocalSid, roots: Roots },
    BuildingToken { cap_sid: LocalSid, roots: Roots, base: OwnedHandle, building: RestrictedToken },
    GrantingNull { held: Held, null_device: NullDevice },
    GrantingRoot { held: Held, at: usize, granting: DaclEdit },
    /// A grant failed, and the ones before it are being revoked.
    Undoing { undo: Undo, at: usize, revoking: DaclEdit },
}

/// What the building holds while it takes back the grants on the first
/// `granted` roots, and why it does.
#[derive(Debug, PartialEq, Eq)]
pub struct Undo {
    pub cap_sid: LocalSid,
    pub roots: Roots,
    pub granted: usize,
    pub error: SandboxError,
}

/// What the building holds while it grants.
#[derive(Debug, PartialEq, Eq)]
pub struct Held {
    pub cap_sid: LocalSid,
    pub roots: Roots,
    pub base: OwnedHandle,
    pub token: OwnedHandle,
}

/// The first step of the building.
pub open spec fn restriction_start(sid: CapabilitySid, directories: Vec<String>) -> StepView<
    Restriction,
    RestrictionOutcome,
> {
    bringing(
        seq![],
        Restriction::Minting { directories },
        Call::ConvertStringSidToSid { capability: sid },
        PayloadView::Text(utf16(sid_text(sid)).push(0)),
    )
}

/// The step of the building that follows a step of the token's.
pub open spec fn restriction_after_token(
    cap_sid: LocalSid,
    roots: Roots,
    base: OwnedHandle,
    step: StepView<RestrictedToken, TokenOutcome>,
) -> StepView<Restriction, RestrictionOutcome> {
    match step.next {
        NextView::Ask(building, request) => StepView {
            releases: step.releases,
            next: NextView::Ask(Restriction::BuildingToken { cap_sid, roots, base, building }, request),
        },
        NextView::Done(Err(error)) => finishing(
            step.releases + close_handle(base.0) + local_free(cap_sid.psid),
            Err(error),
        ),
        NextView::Done(Ok(token)) => restriction_after_null(
            Held { cap_sid, roots, base, token },
            after(step.releases, null_device_start(SidRef::Pointer(cap_sid.psid))),
        ),
    }
}

/// The step of the building that follows a step of the null device's granting.
pub open spec fn restriction_after_null(held: Held, step: StepView<NullDevice, ()>) -> StepView<
    Restriction,
    RestrictionOutcome,
> {
    match step.next {
        NextView::Ask(null_device, request) => StepView {
            releases: step.releases,
            next: NextView::Ask(Restriction::GrantingNull { held, null_device }, request),
        },
        NextView::Done(_) => after(step.releases, grant_from(held, 0)),
    }
}

/// The step that grants the root of that place, or that ends the building where
/// there is none.
pub open spec fn grant_from(held: Held, place: int) -> StepView<Restriction, RestrictionOutcome> {
    if place < held.roots@.len() {
        let root = held.roots@[place];
        let entry = write_entry(SidRef::Pointer(held.cap_sid.psid));
        let granting = DaclEdit { root, entry, stage: DaclStage::Opening };
        asking(
            seq![],
            Restriction::GrantingRoot { held, at: place as usize, granting },
            open_for_dacl_edit_call(root),
        )
    } else {
        finishing(
            close_handle(held.base.0),
            Ok(
                WriteRestriction {
                    token: held.token,
                    cleanup: AceCleanup { cap_sid: held.cap_sid, roots: held.roots },
                },
            ),
        )
    }
}

/// The step of the building that follows a step of a root's granting.
pub open spec fn restriction_after_root(held: Held, at: usize, step: StepView<DaclEdit, DaclOutcome>) -> StepView<
    Restriction,
    RestrictionOutcome,
> {
    match step.next {
        NextView::Ask(granting, request) => StepView {
            releases: step.releases,
            next: NextView::Ask(Restriction::GrantingRoot { held, at, granting }, request),
        },
        NextView::Done(Err(error)) => after(
            step.releases + close_handle(held.token.0) + close_handle(held.base.0),
            undo_from(Undo { cap_sid: held.cap_sid, roots: held.roots, granted: at, error }, 0),
        ),
        NextView::Done(Ok(_)) => after(step.releases, grant_from(held, at + 1)),
    }
}

/// The step that revokes the grant on the root of that place, or that ends the
/// building where there is none.
pub open spec fn undo_from(undo: Undo, place: int) -> StepView<Restriction, RestrictionOutcome> {
    if place < undo.granted && place < undo.roots@.len() {
        let root = undo.roots@[place];
        let entry = revoke_entry(SidRef::Pointer(undo.cap_sid.psid));
        let revoking = DaclEdit { root, entry, stage: DaclStage::Opening };
        asking(
            seq![],
            Restriction::Undoing { undo, at: place as usize, revoking },
            open_for_dacl_edit_call(root),
        )
    } else {
        finishing(local_free(undo.cap_sid.psid), Err(undo.error))
    }
}

/// The step of the building that follows a step of a grant's revocation, whose
/// outcome is ignored.
pub open spec fn restriction_after_undo(undo: Undo, at: usize, step: StepView<DaclEdit, DaclOutcome>) -> StepView<
    Restriction,
    RestrictionOutcome,
> {
    match step.next {
        NextView::Ask(revoking, request) => StepView {
            releases: step.releases,
            next: NextView::Ask(Restriction::Undoing { undo, at, revoking }, request),
        },
        NextView::Done(_) => after(step.releases, undo_from(undo, at + 1)),
    }
}

/// The step of the building that follows an answer.
pub open spec fn restriction_next(state: Restriction, reply: Reply) -> StepView<Restriction, RestrictionOutcome> {
    match state {
        Restriction::Minting { directories } => match sid_from_string(reply) {
            Ok(cap_sid) => bringing(
                seq![],
                Restriction::Resolving { cap_sid },
                Call::ResolveRoots,
                PayloadView::Directories(texts(directories@)),
            ),
            Err(error) => finishing(seq![], Err(error)),
        },
        Restriction::Resolving { cap_sid } => asking(
            seq![],
            Restriction::OpeningToken { cap_sid, roots: Roots { found: reply.directories } },
            Call::OpenProcessToken { access: BASE_TOKEN_ACCESS },
        ),
        Restriction::OpeningToken { cap_sid, roots } => match process_token(reply) {
            Ok(base) => restriction_after_token(cap_sid, roots, base, token_start(base.0, cap_sid.psid)),
            Err(error) => finishing(local_free(cap_sid.psid), Err(error)),
        },
        Restriction::BuildingToken { cap_sid, roots, base, building } => restriction_after_token(
            cap_sid,
            roots,
            base,
            token_next(building, reply),
        ),
        Restriction::GrantingNull { held, null_device } => restriction_after_null(
            held,
            null_device_next(null_device, reply),
        ),
        Restriction::GrantingRoot { held, at, granting } => restriction_after_root(
            held,
            at,
            edit_next(granting, reply),
        ),
        Restriction::Undoing { undo, at, revoking } => restriction_after_undo(
            undo,
            at,
            edit_next(revoking, reply),
        ),
    }
}

/// Starts to build the `WRITE_RESTRICTED` token and to grant the capability SID
/// write access to each writable root. The outcome is the token plus what
/// revokes the ACEs. Where a grant fails, the ones before it are revoked.
pub fn build_write_restriction(sid: CapabilitySid, writable_directories: Vec<String>) -> (r: Step<
    Restriction,
    RestrictionOutcome,
>)
    ensures
        r@ == restriction_start(sid, writable_directories),
{
    let text = sid.text();
    Step::bring(
        Restriction::Minting { directories: writable_directories },
        Call::ConvertStringSidToSid { capability: sid },
        Payload::Text(to_wide(text.as_str())),
    )
}

impl Restriction {
    fn after_token(
        cap_sid: LocalSid,
        roots: Roots,
        base: OwnedHandle,
        step: Step<RestrictedToken, TokenOutcome>,
    ) -> (r: Step<Restriction, RestrictionOutcome>)
        ensures
            r@ == restriction_after_token(cap_sid, roots, base, step@),
    {
        let mut releases = step.releases;
        match step.next {
            Next::Ask(building, request) => {
                let state = Restriction::BuildingToken { cap_sid, roots, base, building };
                Step { releases, next: Next::Ask(state, request) }
            },
            Next::Done(Err(error)) => {
                base.release(&mut releases);
                cap_sid.release(&mut releases);
                Step::done(releases, Err(error))
            },
            Next::Done(Ok(token)) => {
                // Allow redirections to NUL (e.g. `2>NUL`) under the restricted
                // token.
                let null = allow_null_device(SidRef::Pointer(cap_sid.as_ptr()));
                Restriction::after_null(Held { cap_sid, roots, base, token }, null.after(releases))
            },
        }
    }

    fn after_null(held: Held, step: Step<NullDevice, ()>) -> (r: Step<Restriction, RestrictionOutcome>)
        ensures
            r@ == restriction_after_null(held, step@),
    {
        let releases = step.releases;
        match step.next {
            Next::Ask(null_device, request) => {
                Step { releases, next: Next::Ask(Restriction::GrantingNull { held, null_device }, request) }
            },
            Next::Done(_) => Restriction::grant(held, 0).after(releases),
        }
    }

    fn grant(held: Held, place: usize) -> (r: Step<Restriction, RestrictionOutcome>)
        ensures
            r@ == grant_from(held, place as int),
        decreases held.roots@.len() - place, 1int,
    {
        match held.roots.directory(place) {
            Some(root) => {
                let step = add_allow_write_ace(root, SidRef::Pointer(held.cap_sid.as_ptr()));
                Restriction::after_root(held, place, step)
            },
            None => Restriction::finish(held),
        }
    }

    fn finish(held: Held) -> (r: Step<Restriction, RestrictionOutcome>)
        ensures
            r@ == grant_from(held, held.roots@.len() as int),
    {
        let mut releases: Vec<Release> = Vec::new();
        let Held { cap_sid, roots, base, token } = held;
        base.release(&mut releases);
        assert(releases@ =~= close_handle(base.0));
        Step::done(releases, Ok(WriteRestriction { token, cleanup: AceCleanup { cap_sid, roots } }))
    }

    fn after_root(held: Held, at: usize, step: Step<DaclEdit, DaclOutcome>) -> (r: Step<
        Restriction,
        RestrictionOutcome,
    >)
        ensures
            r@ == restriction_after_root(held, at, step@),
        decreases held.roots@.len() - at, 0int,
    {
        let mut releases = step.releases;
        match step.next {
            Next::Ask(granting, request) => {
                Step { releases, next: Next::Ask(Restriction::GrantingRoot { held, at, granting }, request) }
            },
            Next::Done(Err(error)) => {
                let Held { cap_sid, roots, base, token } = held;
                token.release(&mut releases);
                base.release(&mut releases);
                Restriction::undo(Undo { cap_sid, roots, granted: at, error }, 0).after(releases)
            },
            Next::Done(Ok(_)) => {
                if held.roots.directory(at).is_some() {
                    Restriction::grant(held, at + 1).after(releases)
                } else {
                    Restriction::finish(held).after(releases)
                }
            },
        }
    }

    fn undo(undo: Undo, place: usize) -> (r: Step<Restriction, RestrictionOutcome>)
        ensures
            r@ == undo_from(undo, place as int),
        decreases undo.granted - place, 1int,
    {
        if place >= undo.granted {
            return Restriction::undone(undo);
        }
        match undo.roots.directory(place) {
            Some(root) => {
                let step = revoke_ace(root, SidRef::Pointer(undo.cap_sid.as_ptr()));
                Restriction::after_undo(undo, place, step)
            },
            None => Restriction::undone(undo),
        }
    }

    fn undone(undo: Undo) -> (r: Step<Restriction, RestrictionOutcome>)
        ensures
            r@ == undo_from(undo, undo.granted as int),
    {
        let Undo { cap_sid, roots, granted, error } = undo;
        let mut releases: Vec<Release> = Vec::new();
        cap_sid.release(&mut releases);
        assert(releases@ =~= local_free(cap_sid.psid));
        Step::done(releases, Err(error))
    }

    fn after_undo(undo: Undo, at: usize, step: Step<DaclEdit, DaclOutcome>) -> (r: Step<
        Restriction,
        RestrictionOutcome,
    >)
        ensures
            r@ == restriction_after_undo(undo, at, step@),
        decreases undo.granted - at, 0int,
    {
        let releases = step.releases;
        match step.next {
            Next::Ask(revoking, request) => {
                Step { releases, next: Next::Ask(Restriction::Undoing { undo, at, revoking }, request) }
            },
            Next::Done(_) => {
                if at < undo.granted {
                    Restriction::undo(undo, at + 1).after(releases)
                } else {
                    Restriction::undone(undo).after(releases)
                }
            },
        }
    }

    /// Goes on with the answer to the last call.
    pub fn resume(self, reply: Reply) -> (r: Step<Restriction, RestrictionOutcome>)
        ensures
            r@ == restriction_next(self, reply),
    {
        match self {
            Restriction::Minting { directories } => match LocalSid::from_string(&reply) {
                Ok(cap_sid) => Step::bring(
                    Restriction::Resolving { cap_sid },
                    Call::ResolveRoots,
                    Payload::Directories(directories),
                ),
                Err(error) => Step::done(Vec::new(), Err(error)),
            },
            Restriction::Resolving { cap_sid } => Step::ask(
                Restriction::OpeningToken { cap_sid, roots: Roots { found: reply.directories } },
                open_current_process_token(),
            ),
            Restriction::OpeningToken { cap_sid, roots } => match opened_process_token(&reply) {
                Ok(base) => {
                    let step = create_write_restricted_token(base.raw(), cap_sid.as_ptr());
                    Restriction::after_token(cap_sid, roots, base, step)
                },
                Err(error) => {
                    let mut releases: Vec<Release> = Vec::new();
                    cap_sid.release(&mut releases);
                    assert(releases@ =~= local_free(cap_sid.psid));
                    Step::done(releases, Err(error))
                },
            },
            Restriction::BuildingToken { cap_sid, roots, base, building } => {
                Restriction::after_token(cap_sid, roots, base, building.resume(&reply))
            },
            Restriction::GrantingNull { held, null_device } => Restriction::after_null(held, null_device.resume(&reply)),
            Restriction::GrantingRoot { held, at, granting } => {
                Restriction::after_root(held, at, granting.resume(&reply))
            },
            Restriction::Undoing { undo, at, revoking } => Restriction::after_undo(undo, at, revoking.resume(&reply)),
        }
    }
}

/// In which order a building that fails gives back what it holds: with the
/// token's building, the base token and then the capability SID; with a root's
/// granting, the new token and then the base token, before the grants are
/// undone; and when that is over, the capability SID. A building that succeeds
/// gives back the base token alone.
pub proof fn law_building_gives_back_in_order(
    held: Held,
    at: usize,
    error: SandboxError,
    releases: Seq<Release>,
    place: int,
)
    requires
        held.cap_sid.psid != 0,
        held.base.0 != 0,
        held.token.0 != 0,
    ensures
        ({
            let cap_sid = held.cap_sid;
            let roots = held.roots;
            let base = Release::CloseHandle(held.base.0);
            let token = Release::CloseHandle(held.token.0);
            let sid = Release::LocalFree(cap_sid.psid);
            let undo = Undo { cap_sid, roots, granted: at, error };
            let unbuilt = restriction_after_token(
                cap_sid,
                roots,
                held.base,
                StepView { releases, next: NextView::Done(Err(error)) },
            );
            let ungranted = restriction_after_root(
                held,
                at,
                StepView { releases, next: NextView::Done(Err(error)) },
            );
            &&& unbuilt.releases == releases + seq![base, sid]
            &&& unbuilt.next == NextView::<Restriction, RestrictionOutcome>::Done(Err(error))
            &&& ungranted.releases == releases + seq![token, base] + undo_from(undo, 0).releases
            &&& ungranted.next == undo_from(undo, 0).next
            &&& place >= at || place >= roots@.len() ==> {
                &&& undo_from(undo, place).releases == seq![sid]
                &&& undo_from(undo, place).next == NextView::<Restriction, RestrictionOutcome>::Done(Err(error))
            }
            &&& place >= roots@.len() ==> {
                &&& grant_from(held, place).releases == seq![base]
                &&& grant_from(held, place).next matches NextView::Done(Ok(restriction))
                &&& restriction.token == held.token
                &&& restriction.cleanup.cap_sid == cap_sid
                &&& restriction.cleanup.roots == roots
            }
        }),
{
    let base = Release::CloseHandle(held.base.0);
    let token = Release::CloseHandle(held.token.0);
    let sid = Release::LocalFree(held.cap_sid.psid);
    assert(releases + seq![base] + seq![sid] =~= releases + seq![base, sid]);
    assert(releases + seq![token] + seq![base] =~= releases + seq![token, base]);
}

} // verus!
