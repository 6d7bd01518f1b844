//! The writable roots: the policy's directories, canonicalized, without those
//! that do not exist and without repetitions.

use vstd::prelude::*;

verus! {

/// A path, or what the system resolved it to, if it could.
pub open spec fn canonical<P>(path: P, resolved: Option<P>) -> P {
    match resolved {
        Some(resolved) => resolved,
        None => path,
    }
}

/// Canonicalize a path, falling back to the input when that fails: `resolved`
/// is what the system resolved `path` to, if it could.
pub fn canonicalize_path<P>(path: P, resolved: Option<P>) -> (r: P)
    ensures
        r == canonical(path, resolved),
        resolved matches Some(found) ==> r == found,
        resolved is None ==> r == path,
{
    match resolved {
        Some(resolved) => resolved,
        None => path,
    }
}

/// Whether a resolver leaves what it has resolved as it is.
pub open spec fn resolves_once<P>(resolve: spec_fn(P) -> Option<P>) -> bool {
    forall|path: P| (#[trigger] resolve(path)) matches Some(resolved) ==> resolve(resolved) == Some(resolved)
}

/// Canonicalizing a path twice changes nothing, where the file system does not
/// change in between and resolves a resolved path to itself.
pub proof fn law_canonical_path_is_canonical<P>(path: P, resolve: spec_fn(P) -> Option<P>)
    requires
        resolves_once(resolve),
    ensures
        ({
            let once = canonical(path, resolve(path));
            canonical(once, resolve(once)) == once
        }),
{
}

/// What was found of a directory: whether it exists, and which number the first
/// directory with the same canonical path has.
#[derive(Clone, Copy, Debug, PartialEq, Eq, Structural)]
pub struct Directory {
    pub exists: bool,
    pub first: usize,
}

/// Whether the directory of number `i` is the same as one of `kept`.
pub open spec fn repeats(directories: Seq<Directory>, kept: Seq<usize>, i: int) -> bool {
    exists|k: int| 0 <= k < kept.len() && directories[#[trigger] kept[k] as int].first == directories[i].first
}

/// The numbers of those among the first `n` directories that exist and are not
/// the same as one before them that was kept.
pub open spec fn roots_among(directories: Seq<Directory>, n: nat) -> Seq<usize>
    decreases n,
{
    if n == 0 {
        seq![]
    } else {
        let before = roots_among(directories, (n - 1) as nat);
        if directories[n - 1].exists && !repeats(directories, before, n - 1) {
            before.push((n - 1) as usize)
        } else {
            before
        }
    }
}

/// The numbers of the directories that are the writable roots.
pub open spec fn roots_of(directories: Seq<Directory>) -> Seq<usize> {
    roots_among(directories, directories.len())
}

/// Chooses the writable roots among the directories: those that exist, each
/// once. The result is their numbers.
pub fn select_roots(directories: &Vec<Directory>) -> (roots: Vec<usize>)
    ensures
        roots@ == roots_of(directories@),
{
    let mut roots: Vec<usize> = Vec::new();
    for i in 0..directories.len()
        invariant
            forall|k: int| 0 <= k < roots@.len() ==> #[trigger] roots@[k] < i,
            roots@ == roots_among(directories@, i as nat),
    {
        if directories[i].exists {
            let mut found: bool = false;
            for k in 0..roots.len()
                invariant
                    i < directories.len(),
                    forall|k: int| 0 <= k < roots@.len() ==> #[trigger] roots@[k] < i,
                    found == exists|j: int|
                        0 <= j < k && directories@[#[trigger] roots@[j] as int].first == directories@[i as int].first,
            {
                if directories[roots[k]].first == directories[i].first {
                    found = true;
                }
            }
            if !found {
                roots.push(i);
            }
        }
    }
    roots
}

/// The writable roots: what was found of the directories, and with it the
/// numbers of those that are roots.
#[derive(Debug, PartialEq, Eq)]
pub struct Roots {
    pub found: Vec<Directory>,
}

impl View for Roots {
    type V = Seq<usize>;

    /// The numbers of the directories that are the roots, in their order.
    open spec fn view(&self) -> Seq<usize> {
        roots_of(self.found@)
    }
}

impl Roots {
    /// The number of the directory that is the root of that place, if there is
    /// one.
    pub fn directory(&self, place: usize) -> (r: Option<usize>)
        ensures
            r == if place < self@.len() {
                Some(self@[place as int])
            } else {
                None
            },
            self@.len() <= usize::MAX,
    {
        let roots = select_roots(&self.found);
        if place < roots.len() {
            Some(roots[place])
        } else {
            None
        }
    }
}

/// There are no more roots than directories.
pub proof fn lemma_roots_fit(roots: Roots)
    ensures
        roots@.len() <= roots.found@.len() <= usize::MAX,
{
    lemma_roots_among_fit(roots.found@, roots.found@.len());
    assert(roots.found.len() == roots.found@.len());
}

proof fn lemma_roots_among_fit(directories: Seq<Directory>, n: nat)
    ensures
        roots_among(directories, n).len() <= n,
    decreases n,
{
    if n > 0 {
        lemma_roots_among_fit(directories, (n - 1) as nat);
    }
}

/// The roots are numbers of existing directories, in ascending order; no two of
/// them are the same path; and every existing directory is a root or the same
/// path as a root before it.
pub proof fn law_roots_cover_without_repetition(directories: Seq<Directory>)
    requires
        directories.len() <= usize::MAX,
    ensures
        ({
            let roots = roots_of(directories);
            &&& forall|k: int|
                0 <= k < roots.len() ==> #[trigger] roots[k] < directories.len() && directories[roots[k] as int].exists
            &&& forall|j: int, k: int|
                0 <= j < k < roots.len() ==> #[trigger] roots[j] < #[trigger] roots[k]
                    && directories[roots[j] as int].first != directories[roots[k] as int].first
            &&& forall|i: int|
                0 <= i < directories.len() && (#[trigger] directories[i]).exists ==> roots.contains(i as usize)
                    || repeats(directories, roots, i)
            &&& forall|i: int|
                0 <= i < directories.len() && (#[trigger] directories[i]).exists ==> exists|k: int|
                    0 <= k < roots.len() && #[trigger] roots[k] <= i && directories[roots[k] as int].first
                        == directories[i].first
        }),
{
    let roots = roots_of(directories);
    lemma_roots_ascend(directories, directories.len());
    assert forall|i: int| 0 <= i < directories.len() && (#[trigger] directories[i]).exists implies exists|k: int|
        0 <= k < roots.len() && #[trigger] roots[k] <= i && directories[roots[k] as int].first
            == directories[i].first by {
        let k = lemma_directory_is_covered(directories, directories.len(), i);
        assert(roots[k] <= i);
    }
    assert forall|i: int| 0 <= i < directories.len() && (#[trigger] directories[i]).exists implies roots.contains(
        i as usize,
    ) || repeats(directories, roots, i) by {
        let k = lemma_directory_is_covered(directories, directories.len(), i);
        assert(directories[roots[k] as int].first == directories[i].first);
    }
}

proof fn lemma_roots_ascend(directories: Seq<Directory>, n: nat)
    requires
        n <= directories.len() <= usize::MAX,
    ensures
        ({
            let roots = roots_among(directories, n);
            &&& forall|k: int| 0 <= k < roots.len() ==> #[trigger] roots[k] < n && directories[roots[k] as int].exists
            &&& forall|j: int, k: int|
                0 <= j < k < roots.len() ==> #[trigger] roots[j] < #[trigger] roots[k]
                    && directories[roots[j] as int].first != directories[roots[k] as int].first
        }),
    decreases n,
{
    if n > 0 {
        let before = roots_among(directories, (n - 1) as nat);
        let roots = roots_among(directories, n);
        lemma_roots_ascend(directories, (n - 1) as nat);
        assert forall|j: int, k: int| 0 <= j < k < roots.len() implies #[trigger] roots[j] < #[trigger] roots[k]
            && directories[roots[j] as int].first != directories[roots[k] as int].first by {
            assert(roots[j] == before[j]);
            if k < before.len() {
                assert(roots[k] == before[k]);
            }
        }
    }
}

/// The place of the root that a directory is the same path as.
pub proof fn lemma_directory_is_covered(directories: Seq<Directory>, n: nat, i: int) -> (k: int)
    requires
        n <= directories.len() <= usize::MAX,
        0 <= i < n,
        directories[i].exists,
    ensures
        0 <= k < roots_among(directories, n).len(),
        roots_among(directories, n)[k] <= i,
        directories[roots_among(directories, n)[k] as int].first == directories[i].first,
    decreases n,
{
    let before = roots_among(directories, (n - 1) as nat);
    if i < n - 1 {
        lemma_directory_is_covered(directories, (n - 1) as nat, i)
    } else if repeats(directories, before, i) {
        let k = choose|k: int|
            0 <= k < before.len() && directories[#[trigger] before[k] as int].first == directories[i].first;
        lemma_roots_ascend(directories, (n - 1) as nat);
        assert(before[k] < n - 1);
        k
    } else {
        before.len() as int
    }
}

} // verus!
