//! What the edits of a run make of a root's DACL.
//!
//! The merging itself is done by the system (`SetEntriesInAclW`). The laws here
//! say what follows if it merges the way [`merged`] does: an entry that sets
//! access takes the place of all entries for its SID, and one that revokes
//! access takes away those that allow its SID something.

use vstd::multiset::Multiset;
use vstd::prelude::*;

use crate::acl::{
    law_masks, revoke_entry, write_entry, DACL_SECURITY_INFORMATION, INHERITANCE, REVOKE_ACCESS, SET_ACCESS,
    WRITE_ALLOW_MASK, WRITE_DAC, WRITE_OWNER,
};
use crate::capability::CapabilitySid;
use crate::conduct::{
    edit_pursued, edit_reached, edited, edits_for, law_grants_are_revoked, law_only_the_capability_is_granted,
};
use crate::policy::SandboxPolicy;
use crate::run::Run;
use crate::win32::{ExplicitAccess, PayloadView, SidRef};

verus! {

/// An entry of a DACL: what it allows or denies a SID, and what inherits it.
pub struct Ace {
    pub sid: SidRef,
    pub allows: bool,
    pub permissions: u32,
    pub inheritance: u32,
}

/// The entries of a DACL that are not for a SID.
pub open spec fn others(dacl: Multiset<Ace>, sid: SidRef) -> Multiset<Ace> {
    dacl.filter(|ace: Ace| ace.sid != sid)
}

/// The entries of a DACL but those that allow a SID something.
pub open spec fn unallowed(dacl: Multiset<Ace>, sid: SidRef) -> Multiset<Ace> {
    dacl.filter(|ace: Ace| ace.sid != sid || !ace.allows)
}

/// The entry that an edit leaves behind when it sets access.
pub open spec fn allowing(entry: ExplicitAccess) -> Ace {
    Ace {
        sid: entry.trustee.sid,
        allows: true,
        permissions: entry.permissions,
        inheritance: entry.inheritance,
    }
}

/// A DACL with an entry merged into it, for the two modes that the sandbox
/// edits a root with.
pub open spec fn merged(dacl: Multiset<Ace>, entry: ExplicitAccess) -> Multiset<Ace> {
    if entry.mode == SET_ACCESS {
        others(dacl, entry.trustee.sid).insert(allowing(entry))
    } else if entry.mode == REVOKE_ACCESS {
        unallowed(dacl, entry.trustee.sid)
    } else {
        dacl
    }
}

/// Whether a DACL says nothing of a SID.
pub open spec fn silent_on(dacl: Multiset<Ace>, sid: SidRef) -> bool {
    forall|ace: Ace| #[trigger] dacl.count(ace) > 0 ==> ace.sid != sid
}

/// A grant keeps the entries for all other SIDs, and puts one in the place of
/// those for its own: that one allows to read, write, execute and delete, but
/// not to change the DACL or the owner, and is inherited by new objects and
/// containers. A second grant changes nothing more.
pub proof fn law_grant_replaces_entries(dacl: Multiset<Ace>, sid: SidRef)
    ensures
        ({
            let after = merged(dacl, write_entry(sid));
            let own = Ace { sid, allows: true, permissions: WRITE_ALLOW_MASK, inheritance: INHERITANCE };
            &&& others(after, sid) == others(dacl, sid)
            &&& forall|ace: Ace|
                ace.sid == sid ==> #[trigger] after.count(ace) == if ace == own {
                    1nat
                } else {
                    0
                }
            &&& own.permissions & (WRITE_DAC | WRITE_OWNER) == 0
            &&& merged(after, write_entry(sid)) == after
        }),
{
    let after = merged(dacl, write_entry(sid));
    assert(others(after, sid) =~= others(dacl, sid));
    assert(merged(after, write_entry(sid)) =~= after);
    law_masks();
    assert(0x1301FFu32 & (0x4_0000u32 | 0x8_0000u32) == 0) by (bit_vector);
}

/// A revocation undoes a grant: where a DACL said nothing of a SID, granting
/// and then revoking leave it with the entries that it had.
pub proof fn law_revocation_undoes_grant(dacl: Multiset<Ace>, sid: SidRef)
    requires
        silent_on(dacl, sid),
    ensures
        merged(merged(dacl, write_entry(sid)), revoke_entry(sid)) == dacl,
        merged(dacl, revoke_entry(sid)) == dacl,
{
    let granted = merged(dacl, write_entry(sid));
    assert(merged(granted, revoke_entry(sid)) =~= dacl) by {
        assert forall|ace: Ace| merged(granted, revoke_entry(sid)).count(ace) == dacl.count(ace) by {
            assert(ace.sid == sid ==> dacl.count(ace) == 0);
        }
    }
    assert(merged(dacl, revoke_entry(sid)) =~= dacl) by {
        assert forall|ace: Ace| merged(dacl, revoke_entry(sid)).count(ace) == dacl.count(ace) by {
            assert(ace.sid == sid ==> dacl.count(ace) == 0);
        }
    }
}

/// Whether the edit of a root that begins at step `j` was successful.
pub open spec fn root_edited(run: Run, j: int, root: usize) -> bool {
    exists|entry: ExplicitAccess| #[trigger] edited(run, j, root, entry)
}

/// What the first `k` answers of a run have made of a root's DACL, if nobody
/// else edits it: every edit whose last call succeeded has merged its entry.
pub open spec fn dacl_after(run: Run, k: int, root: usize, dacl: Multiset<Ace>) -> Multiset<Ace>
    decreases k,
{
    if k <= 0 {
        dacl
    } else {
        let before = dacl_after(run, k - 1, root, dacl);
        if root_edited(run, k - 6, root) {
            merged(before, choose|entry: ExplicitAccess| #[trigger] edited(run, k - 6, root, entry))
        } else {
            before
        }
    }
}

/// An edit of a run grants to the capability SID or revokes from it.
pub proof fn lemma_edit_grants_or_revokes(
    run: Run,
    policy: SandboxPolicy,
    sid: CapabilitySid,
    j: int,
    root: usize,
    entry: ExplicitAccess,
)
    requires
        run.valid(policy, sid),
        edited(run, j, root, entry),
    ensures
        ({
            let capability = SidRef::Pointer(run.replies[2].first);
            entry == write_entry(capability) || entry == revoke_entry(capability)
        }),
{
    let capability = SidRef::Pointer(run.replies[2].first);
    law_only_the_capability_is_granted(
        run,
        policy,
        sid,
        j + 5,
        run.replies[j].first,
        DACL_SECURITY_INFORMATION,
    );
    let other = choose|other: usize| #[trigger] edits_for(run, j, other, run.replies[2].first);
    assert(edits_for(run, j, other, run.replies[2].first));
    let known = if edit_reached(run, j, other, write_entry(capability), 5) {
        write_entry(capability)
    } else {
        revoke_entry(capability)
    };
    assert(run.brings(j + 2, PayloadView::Entries(seq![entry])));
    assert(run.brings(j + 2, PayloadView::Entries(seq![known])));
    assert(seq![entry][0] == seq![known][0]);
}

/// Whether a root is granted after the first `k` answers: the last edit of it
/// was a grant, at step `j`.
spec fn granted_last(run: Run, k: int, root: usize, j: int) -> bool {
    &&& edited(run, j, root, write_entry(SidRef::Pointer(run.replies[2].first)))
    &&& forall|later: int| j < later && later + 6 <= k ==> !#[trigger] root_edited(run, later, root)
}

proof fn lemma_dacl_after(
    run: Run,
    policy: SandboxPolicy,
    sid: CapabilitySid,
    k: int,
    root: usize,
    dacl: Multiset<Ace>,
)
    requires
        run.valid(policy, sid),
        0 <= k <= run.replies.len(),
        silent_on(dacl, SidRef::Pointer(run.replies[2].first)),
    ensures
        ({
            let capability = SidRef::Pointer(run.replies[2].first);
            let after = dacl_after(run, k, root, dacl);
            after == dacl || (after == merged(dacl, write_entry(capability)) && exists|j: int| #[trigger]
                granted_last(run, k, root, j))
        }),
    decreases k,
{
    let capability = SidRef::Pointer(run.replies[2].first);
    if k > 0 {
        lemma_dacl_after(run, policy, sid, k - 1, root, dacl);
        law_grant_replaces_entries(dacl, capability);
        law_revocation_undoes_grant(dacl, capability);
        let j = k - 6;
        if root_edited(run, j, root) {
            let entry = choose|entry: ExplicitAccess| #[trigger] edited(run, j, root, entry);
            lemma_edit_grants_or_revokes(run, policy, sid, j, root, entry);
            if entry == write_entry(capability) {
                assert(granted_last(run, k, root, j));
            }
        } else if dacl_after(run, k - 1, root, dacl) != dacl {
            let last = choose|last: int| #[trigger] granted_last(run, k - 1, root, last);
            assert(granted_last(run, k, root, last));
        }
    }
}

/// A run leaves the DACL of every root as it found it, if the DACL said nothing
/// of the capability SID before, nobody else edits it, and the revocations
/// succeed.
pub proof fn law_run_restores_dacls(
    run: Run,
    policy: SandboxPolicy,
    sid: CapabilitySid,
    root: usize,
    dacl: Multiset<Ace>,
)
    requires
        run.valid(policy, sid),
        run.ended(),
        silent_on(dacl, SidRef::Pointer(run.replies[2].first)),
        forall|j: int| #[trigger]
            edit_pursued(run, j, root, revoke_entry(SidRef::Pointer(run.replies[2].first))) ==> edited(
                run,
                j,
                root,
                revoke_entry(SidRef::Pointer(run.replies[2].first)),
            ),
    ensures
        dacl_after(run, run.replies.len() as int, root, dacl) == dacl,
{
    let address = run.replies[2].first;
    let k = run.replies.len() as int;
    let entry = revoke_entry(SidRef::Pointer(address));
    lemma_dacl_after(run, policy, sid, k, root, dacl);
    if dacl_after(run, k, root, dacl) != dacl {
        let j = choose|j: int| #[trigger] granted_last(run, k, root, j);
        law_grants_are_revoked(run, policy, sid, j, root);
        let later = choose|later: int| j < later < run.steps.len() && #[trigger] edit_pursued(run, later, root, entry);
        assert(edited(run, later, root, entry));
        assert(root_edited(run, later, root));
    }
}

} // verus!
