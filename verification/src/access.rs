//! Where the command can write.
//!
//! Whether a write goes through is for the system to say. The laws here say
//! what follows if it checks the writes of a write-restricted token the way
//! [`checks_writes`] does: such a token writes to an object only if the
//! object's DACL allows something to one of its restricting SIDs.

use vstd::multiset::Multiset;
use vstd::prelude::*;

use crate::acl::write_entry;
use crate::capability::CapabilitySid;
use crate::conduct::{
    created_token, edited, granted, law_nothing_is_revoked_before_launch, law_writes_are_restricted, roots,
    token_exists,
};
use crate::dacl::{allowing, dacl_after, lemma_edit_grants_or_revokes, merged, root_edited, Ace};
use crate::policy::SandboxPolicy;
use crate::process::create_process_call;
use crate::run::Run;
use crate::token::{law_token_flags, restricting_sids, RESTRICTION_FLAGS, WRITE_RESTRICTED};
use crate::win32::{Call, ExplicitAccess, NextView, RestrictingSids, SidRef};

verus! {

/// Whether a DACL allows a SID something.
pub open spec fn allows(dacl: Multiset<Ace>, sid: SidRef) -> bool {
    exists|ace: Ace| #[trigger] dacl.count(ace) > 0 && ace.sid == sid && ace.allows
}

/// Whether step `k` of a run made a write-restricted token with these
/// restricting SIDs.
pub open spec fn write_restricted(run: Run, k: int, token: usize, sids: RestrictingSids) -> bool {
    &&& run.answered(k)
    &&& run.steps[k].next matches NextView::Ask(_, request)
    &&& request.call matches Call::CreateRestrictedToken { flags, sids: restricting, .. }
    &&& flags & WRITE_RESTRICTED == WRITE_RESTRICTED
    &&& restricting == sids
    &&& run.replies[k].code != 0
    &&& run.replies[k].first == token
}

/// Whether a system, which says under which token an object with a DACL can be
/// written, checks the writes of the write-restricted tokens that a run makes
/// against their restricting SIDs.
pub open spec fn checks_writes(run: Run, can_write: spec_fn(usize, Multiset<Ace>) -> bool) -> bool {
    forall|k: int, token: usize, sids: RestrictingSids, dacl: Multiset<Ace>| #[trigger]
        write_restricted(run, k, token, sids) && #[trigger] can_write(token, dacl) ==> allows(dacl, sids.first)
            || allows(dacl, sids.second) || allows(dacl, sids.third)
}

/// Under its restricted token the command writes only to objects whose DACL
/// allows something to the capability SID, to the logon session or to everyone,
/// in a system that checks the writes of such tokens.
pub proof fn law_writes_are_denied_elsewhere(
    run: Run,
    policy: SandboxPolicy,
    sid: CapabilitySid,
    k: int,
    token: usize,
    can_write: spec_fn(usize, Multiset<Ace>) -> bool,
    dacl: Multiset<Ace>,
)
    requires
        run.valid(policy, sid),
        run.asks(k, create_process_call(Some(token))),
        checks_writes(run, can_write),
        can_write(token, dacl),
    ensures
        allows(dacl, SidRef::Pointer(run.replies[2].first)) || allows(dacl, SidRef::Logon) || allows(
            dacl,
            SidRef::Everyone,
        ),
{
    let base = run.replies[4].first;
    let address = run.replies[2].first;
    law_writes_are_restricted(run, policy, sid, k, create_process_call(Some(token)));
    assert(token_exists(run, k, base, address, token));
    let i = choose|i: int| i < k && #[trigger] created_token(run, i, base, address, token);
    assert(RESTRICTION_FLAGS & WRITE_RESTRICTED == WRITE_RESTRICTED) by {
        law_token_flags();
    }
    assert(write_restricted(run, i, token, restricting_sids(address)));
}

proof fn lemma_grant_allows(dacl: Multiset<Ace>, sid: SidRef)
    ensures
        merged(dacl, write_entry(sid)).count(allowing(write_entry(sid))) > 0,
{
}

proof fn lemma_root_allows(
    run: Run,
    policy: SandboxPolicy,
    sid: CapabilitySid,
    p: int,
    token: usize,
    k: int,
    root: usize,
    dacl: Multiset<Ace>,
)
    requires
        run.valid(policy, sid),
        run.asks(p, create_process_call(Some(token))),
        0 <= k <= p,
        granted(run, k, root, run.replies[2].first),
    ensures
        dacl_after(run, k, root, dacl).count(allowing(write_entry(SidRef::Pointer(run.replies[2].first)))) > 0,
    decreases k,
{
    let address = run.replies[2].first;
    let capability = SidRef::Pointer(address);
    let grant = choose|j: int| 0 <= j && j + 5 < k && #[trigger] edited(run, j, root, write_entry(capability));
    let before = dacl_after(run, k - 1, root, dacl);
    let j = k - 6;
    if root_edited(run, j, root) {
        let entry = choose|entry: ExplicitAccess| #[trigger] edited(run, j, root, entry);
        lemma_edit_grants_or_revokes(run, policy, sid, j, root, entry);
        if entry != write_entry(capability) {
            law_nothing_is_revoked_before_launch(run, policy, sid, p, token, j, root);
        }
        lemma_grant_allows(before, capability);
    } else {
        assert(grant != j) by {
            if grant == j {
                assert(root_edited(run, j, root));
            }
        }
        assert(granted(run, k - 1, root, address));
        lemma_root_allows(run, policy, sid, p, token, k - 1, root, dacl);
    }
}

/// When the command is launched under its restricted token, the DACL of every
/// root holds the entry that allows the capability SID to write, whatever it
/// held before.
pub proof fn law_roots_allow_the_capability(
    run: Run,
    policy: SandboxPolicy,
    sid: CapabilitySid,
    k: int,
    token: usize,
    place: int,
    dacl: Multiset<Ace>,
)
    requires
        run.valid(policy, sid),
        run.asks(k, create_process_call(Some(token))),
        0 <= place < roots(run).len(),
    ensures
        ({
            let capability = SidRef::Pointer(run.replies[2].first);
            let after = dacl_after(run, k, roots(run)[place], dacl);
            after.count(allowing(write_entry(capability))) > 0 && allows(after, capability)
        }),
{
    law_writes_are_restricted(run, policy, sid, k, create_process_call(Some(token)));
    assert(granted(run, k, roots(run)[place], run.replies[2].first));
    lemma_root_allows(run, policy, sid, k, token, k, roots(run)[place], dacl);
}

} // verus!
