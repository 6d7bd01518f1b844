//! The layout of `TOKEN_GROUPS`: a count, and behind it, aligned like a
//! pointer, that many pairs of a pointer to a SID and its attributes.

use vstd::prelude::*;

verus! {

/// The attributes of the group that stands for the logon session.
pub const SE_GROUP_LOGON_ID: u32 = 0xC000_0000;

/// How many bytes a pointer has.
pub open spec fn pointer_size() -> int {
    usize::BITS as int / 8
}

/// The number that four bytes hold, the lowest first.
pub open spec fn u32_at(b: Seq<u8>, at: int) -> u32 {
    (b[at] + 0x100 * b[at + 1] + 0x1_0000 * b[at + 2] + 0x100_0000 * b[at + 3]) as u32
}

/// The pointer that is held at a place.
pub open spec fn pointer_at(b: Seq<u8>, at: int) -> usize {
    if usize::BITS == 64 {
        (u32_at(b, at) + 0x1_0000_0000 * u32_at(b, at + 4)) as usize
    } else {
        u32_at(b, at) as usize
    }
}

/// Where the pairs begin in a buffer at `address`: the first place behind the
/// count whose address is a multiple of a pointer's size.
pub open spec fn groups_offset(address: usize) -> int {
    let over = (address + 4) % pointer_size();
    if over == 0 {
        4
    } else {
        4 + (pointer_size() - over)
    }
}

/// What comes of the search for the logon session's SID.
#[derive(Clone, Copy, Debug, PartialEq, Eq)]
pub enum LogonSearch {
    /// The SID's address.
    Found(usize),
    /// No group stands for the logon session.
    Absent,
    /// The buffer ends before the groups do.
    Truncated,
}

/// Whether the group at a place stands for the logon session.
pub open spec fn is_logon_group(b: Seq<u8>, at: int) -> bool {
    u32_at(b, at + pointer_size()) & SE_GROUP_LOGON_ID == SE_GROUP_LOGON_ID
}

/// The search among `left` groups, the first of them at `at`.
pub open spec fn search_groups(b: Seq<u8>, at: int, left: nat) -> LogonSearch
    decreases left,
{
    if left == 0 {
        LogonSearch::Absent
    } else if at + 2 * pointer_size() > b.len() {
        LogonSearch::Truncated
    } else if is_logon_group(b, at) {
        LogonSearch::Found(pointer_at(b, at))
    } else {
        search_groups(b, at + 2 * pointer_size(), (left - 1) as nat)
    }
}

/// The first group of a `TOKEN_GROUPS` buffer at `address` that stands for the
/// logon session.
pub open spec fn logon_search(b: Seq<u8>, address: usize) -> LogonSearch {
    if b.len() < 4 {
        LogonSearch::Truncated
    } else {
        search_groups(b, groups_offset(address), u32_at(b, 0) as nat)
    }
}

fn read_u32(buffer: &Vec<u8>, at: usize) -> (r: u32)
    requires
        at + 4 <= buffer.len(),
    ensures
        r == u32_at(buffer@, at as int),
{
    buffer[at] as u32 + 0x100 * buffer[at + 1] as u32 + 0x1_0000 * buffer[at + 2] as u32 + 0x100_0000 * buffer[at
        + 3] as u32
}

fn read_pointer(buffer: &Vec<u8>, at: usize) -> (r: usize)
    requires
        at + pointer_size() <= buffer.len(),
    ensures
        r == pointer_at(buffer@, at as int),
{
    if usize::BITS == 64 {
        let low: u64 = read_u32(buffer, at) as u64;
        let high: u64 = read_u32(buffer, at + 4) as u64;
        (low + 0x1_0000_0000 * high) as usize
    } else {
        read_u32(buffer, at) as usize
    }
}

/// Looks for the logon session's SID in a `TOKEN_GROUPS` buffer at `address`.
pub fn find_logon_sid(buffer: &Vec<u8>, address: usize) -> (r: LogonSearch)
    ensures
        r == logon_search(buffer@, address),
{
    if buffer.len() < 4 {
        return LogonSearch::Truncated;
    }
    let size: usize = if usize::BITS == 64 {
        8
    } else {
        4
    };
    let over: usize = (address % size + 4) % size;
    proof {
        if size == 8 {
            assert((address % 8 + 4) % 8 == (address + 4) % 8);
        } else {
            assert((address % 4 + 4) % 4 == (address + 4) % 4);
        }
    }
    let mut at: usize = if over == 0 {
        4
    } else {
        4 + (size - over)
    };
    let count: u32 = read_u32(buffer, 0);
    let mut left: u32 = count;
    while left > 0
        invariant
            size == pointer_size(),
            size == 4 || size == 8,
            logon_search(buffer@, address) == search_groups(buffer@, at as int, left as nat),
        decreases left,
    {
        if buffer.len() < 2 * size || at > buffer.len() - 2 * size {
            return LogonSearch::Truncated;
        }
        let attributes: u32 = read_u32(buffer, at + size);
        if attributes & SE_GROUP_LOGON_ID == SE_GROUP_LOGON_ID {
            return LogonSearch::Found(read_pointer(buffer, at));
        }
        at = at + 2 * size;
        left -= 1;
    }
    LogonSearch::Absent
}

/// The place of the group of number `i`, where the first one is at `first`.
pub open spec fn group_place(first: int, i: int) -> int {
    first + i * (2 * pointer_size())
}

/// Whether the group of number `i` is the first that stands for the logon
/// session.
pub open spec fn first_logon_group(b: Seq<u8>, first: int, i: int) -> bool {
    &&& is_logon_group(b, group_place(first, i))
    &&& group_place(first, i + 1) <= b.len()
    &&& forall|j: int| 0 <= j < i ==> !#[trigger] is_logon_group(b, group_place(first, j))
}

proof fn lemma_group_place(first: int, i: int)
    ensures
        group_place(first + 2 * pointer_size(), i) == group_place(first, i + 1),
        group_place(first, 0) == first,
        group_place(first, 1) == first + 2 * pointer_size(),
{
    let stride = 2 * pointer_size();
    assert((i + 1) * stride == i * stride + stride) by (nonlinear_arith);
    assert(0 * stride == 0);
    assert(1 * stride == stride);
}

proof fn lemma_search_finds_first(b: Seq<u8>, first: int, left: nat)
    ensures
        match search_groups(b, first, left) {
            LogonSearch::Found(sid) => exists|i: int|
                0 <= i < left && #[trigger] first_logon_group(b, first, i) && sid == pointer_at(
                    b,
                    group_place(first, i),
                ),
            LogonSearch::Absent => forall|j: int|
                0 <= j < left ==> !#[trigger] is_logon_group(b, group_place(first, j)),
            LogonSearch::Truncated => group_place(first, left as int) > b.len(),
        },
    decreases left,
{
    lemma_group_place(first, 0);
    if left == 0 {
    } else if first + 2 * pointer_size() > b.len() {
        let stride = 2 * pointer_size();
        assert(left * stride >= stride) by (nonlinear_arith)
            requires
                left >= 1,
                stride >= 0,
        ;
    } else if is_logon_group(b, first) {
        assert(first_logon_group(b, first, 0));
    } else {
        let next = first + 2 * pointer_size();
        lemma_search_finds_first(b, next, (left - 1) as nat);
        lemma_group_place(first, left - 1);
        assert forall|j: int| 0 < j implies group_place(next, j - 1) == #[trigger] group_place(first, j) by {
            lemma_group_place(first, j - 1);
        }
        match search_groups(b, next, (left - 1) as nat) {
            LogonSearch::Found(sid) => {
                let i = choose|i: int|
                    0 <= i < left - 1 && #[trigger] first_logon_group(b, next, i) && sid == pointer_at(
                        b,
                        group_place(next, i),
                    );
                assert(group_place(first, i + 1) == group_place(next, i));
                assert(group_place(first, i + 2) == group_place(next, i + 1));
                assert forall|j: int| 0 <= j < i + 1 implies !#[trigger] is_logon_group(b, group_place(first, j)) by {
                    if j > 0 {
                        assert(!is_logon_group(b, group_place(next, j - 1)));
                    }
                }
                assert(first_logon_group(b, first, i + 1));
            },
            LogonSearch::Absent => {
                assert forall|j: int| 0 <= j < left implies !#[trigger] is_logon_group(b, group_place(first, j)) by {
                    if j > 0 {
                        assert(!is_logon_group(b, group_place(next, j - 1)));
                    }
                }
            },
            LogonSearch::Truncated => {},
        }
    }
}

/// The search gives the SID of the first group that stands for the logon
/// session. It says that there is none only if no group does, and that the
/// buffer is too short only if the groups do not fit into it.
pub proof fn law_first_logon_group_is_found(b: Seq<u8>, address: usize)
    requires
        4 <= b.len(),
    ensures
        ({
            let first = groups_offset(address);
            let count = u32_at(b, 0) as int;
            match logon_search(b, address) {
                LogonSearch::Found(sid) => exists|i: int|
                    0 <= i < count && #[trigger] first_logon_group(b, first, i) && sid == pointer_at(
                        b,
                        group_place(first, i),
                    ),
                LogonSearch::Absent => forall|j: int|
                    0 <= j < count ==> !#[trigger] is_logon_group(b, group_place(first, j)),
                LogonSearch::Truncated => group_place(first, count) > b.len(),
            }
        }),
{
    lemma_search_finds_first(b, groups_offset(address), u32_at(b, 0) as nat);
}

/// The byte of number `i` of a number, the lowest one first.
pub open spec fn byte_of(value: int, i: int) -> int
    decreases i,
{
    if i <= 0 {
        value % 0x100
    } else {
        byte_of(value / 0x100, i - 1)
    }
}

/// Whether a buffer holds a number of `size` bytes at a place.
pub open spec fn holds_number(b: Seq<u8>, at: int, value: int, size: int) -> bool {
    &&& at + size <= b.len()
    &&& forall|i: int| 0 <= i < size ==> b[at + i] == #[trigger] byte_of(value, i)
}

/// Whether a buffer holds pairs of a SID's address and its attributes one behind
/// the other, the first of them at `first`. An address has `size` bytes, the
/// attributes have four, and each pair fills twice the size of an address.
pub open spec fn holds_groups(b: Seq<u8>, first: int, size: int, groups: Seq<(usize, u32)>) -> bool {
    forall|g: int|
        0 <= g < groups.len() ==> {
            &&& holds_number(b, first + g * (2 * size), (#[trigger] groups[g]).0 as int, size)
            &&& holds_number(b, first + g * (2 * size) + size, groups[g].1 as int, 4)
            &&& first + (g + 1) * (2 * size) <= b.len()
        }
}

/// Whether a group's attributes say that it stands for the logon session.
pub open spec fn marks_logon(attributes: u32) -> bool {
    attributes & 0xC000_0000 == 0xC000_0000
}

proof fn lemma_u32_is_read(b: Seq<u8>, at: int, value: int)
    requires
        0 <= value < 0x1_0000_0000,
        holds_number(b, at, value, 4),
    ensures
        u32_at(b, at) == value,
{
    lemma_bytes(value);
    assert(b[at + 0] == byte_of(value, 0));
    assert(b[at + 1] == byte_of(value, 1));
    assert(b[at + 2] == byte_of(value, 2));
    assert(b[at + 3] == byte_of(value, 3));
}

proof fn lemma_bytes(v: int)
    ensures
        byte_of(v, 0) == v % 0x100,
        byte_of(v, 1) == v / 0x100 % 0x100,
        byte_of(v, 2) == v / 0x100 / 0x100 % 0x100,
        byte_of(v, 3) == v / 0x100 / 0x100 / 0x100 % 0x100,
{
    reveal_with_fuel(byte_of, 4);
}

proof fn lemma_upper_bytes(v: int)
    ensures
        forall|i: int| i >= 0 ==> #[trigger] byte_of(v / 0x100 / 0x100 / 0x100 / 0x100, i) == byte_of(v, i + 4),
{
    assert forall|i: int| i >= 0 implies #[trigger] byte_of(v / 0x100 / 0x100 / 0x100 / 0x100, i) == byte_of(
        v,
        i + 4,
    ) by {
        assert(byte_of(v, i + 4) == byte_of(v / 0x100, i + 3));
        assert(byte_of(v / 0x100, i + 3) == byte_of(v / 0x100 / 0x100, i + 2));
        assert(byte_of(v / 0x100 / 0x100, i + 2) == byte_of(v / 0x100 / 0x100 / 0x100, i + 1));
        assert(byte_of(v / 0x100 / 0x100 / 0x100, i + 1) == byte_of(v / 0x100 / 0x100 / 0x100 / 0x100, i));
    }
}

proof fn lemma_pointer_is_read(b: Seq<u8>, at: int, value: usize)
    requires
        holds_number(b, at, value as int, pointer_size()),
    ensures
        pointer_at(b, at) == value,
{
    let v = value as int;
    if usize::BITS == 64 {
        let v1 = v / 0x100;
        let v2 = v1 / 0x100;
        let v3 = v2 / 0x100;
        let high = v3 / 0x100;
        lemma_bytes(v);
        lemma_upper_bytes(v);
        assert(b[at + 0] == byte_of(v, 0));
        assert(b[at + 1] == byte_of(v, 1));
        assert(b[at + 2] == byte_of(v, 2));
        assert(b[at + 3] == byte_of(v, 3));
        assert(v == u32_at(b, at) + 0x1_0000_0000 * high);
        assert forall|i: int| 0 <= i < 4 implies b[at + 4 + i] == #[trigger] byte_of(high, i) by {
            assert(b[at + (i + 4)] == byte_of(v, i + 4));
        }
        lemma_u32_is_read(b, at + 4, high);
    } else {
        lemma_u32_is_read(b, at, v);
    }
}

proof fn lemma_search_reads_groups(b: Seq<u8>, first: int, left: nat, groups: Seq<(usize, u32)>)
    requires
        groups.len() <= left,
        holds_groups(b, first, pointer_size(), groups),
    ensures
        ({
            let search = search_groups(b, first, left);
            let unmarked = forall|j: int| 0 <= j < groups.len() ==> !marks_logon((#[trigger] groups[j]).1);
            &&& forall|g: int|
                0 <= g < groups.len() && marks_logon((#[trigger] groups[g]).1) && (forall|j: int|
                    0 <= j < g ==> !marks_logon((#[trigger] groups[j]).1)) ==> search == LogonSearch::Found(
                    groups[g].0,
                )
            &&& unmarked && left == groups.len() ==> search is Absent
            &&& unmarked && left > groups.len() && first + (groups.len() + 1) * (2 * pointer_size()) > b.len()
                ==> search is Truncated
        }),
    decreases groups.len(),
{
    let stride = 2 * pointer_size();
    assert(0 * stride == 0 && 1 * stride == stride);
    if groups.len() > 0 {
        let rest = groups.drop_first();
        let next = first + stride;
        assert(groups[0] == groups[0]);
        lemma_pointer_is_read(b, first, groups[0].0);
        lemma_u32_is_read(b, first + pointer_size(), groups[0].1 as int);
        assert forall|g: int| 0 <= g < rest.len() implies {
            &&& holds_number(b, next + g * stride, (#[trigger] rest[g]).0 as int, pointer_size())
            &&& holds_number(b, next + g * stride + pointer_size(), rest[g].1 as int, 4)
            &&& next + (g + 1) * stride <= b.len()
        } by {
            assert(rest[g] == groups[g + 1]);
            assert((g + 1) * stride == g * stride + stride) by (nonlinear_arith);
            assert((g + 2) * stride == (g + 1) * stride + stride) by (nonlinear_arith);
        }
        lemma_search_reads_groups(b, next, (left - 1) as nat, rest);
        assert((groups.len() + 1) * stride == (rest.len() + 1) * stride + stride) by (nonlinear_arith)
            requires
                groups.len() == rest.len() + 1,
        ;
        assert(forall|j: int| 0 <= j < rest.len() ==> (#[trigger] rest[j]) == groups[j + 1]);
        assert forall|g: int|
            0 <= g < groups.len() && marks_logon((#[trigger] groups[g]).1) && (forall|j: int|
                0 <= j < g ==> !marks_logon((#[trigger] groups[j]).1)) implies search_groups(b, first, left)
            == LogonSearch::Found(groups[g].0) by {
            if g > 0 {
                assert(!marks_logon(groups[0].1));
                assert(rest[g - 1] == groups[g]);
                assert forall|j: int| 0 <= j < g - 1 implies !marks_logon((#[trigger] rest[j]).1) by {
                    assert(!marks_logon(groups[j + 1].1));
                }
            }
        }
    }
}

/// A buffer that holds the count of the groups, and behind it, from the first
/// place on whose address is a multiple of a pointer's size, the groups
/// themselves, is read as these groups: the search gives the whole address of
/// the first SID whose attributes have both bits of the logon session. It finds
/// none if no group has them, and it ends at the first group that the buffer
/// does not hold.
pub proof fn law_groups_are_read_back(
    b: Seq<u8>,
    address: usize,
    size: int,
    first: int,
    count: int,
    groups: Seq<(usize, u32)>,
)
    requires
        8 * size == usize::BITS,
        4 <= first < 4 + size,
        (address + first) % size == 0,
        0 <= count < 0x1_0000_0000,
        holds_number(b, 0, count, 4),
        groups.len() <= count,
        holds_groups(b, first, size, groups),
    ensures
        ({
            let search = logon_search(b, address);
            let unmarked = forall|j: int| 0 <= j < groups.len() ==> !marks_logon((#[trigger] groups[j]).1);
            &&& forall|g: int|
                0 <= g < groups.len() && marks_logon((#[trigger] groups[g]).1) && (forall|j: int|
                    0 <= j < g ==> !marks_logon((#[trigger] groups[j]).1)) ==> search == LogonSearch::Found(
                    groups[g].0,
                )
            &&& unmarked && count == groups.len() ==> search is Absent
            &&& unmarked && count > groups.len() && first + (groups.len() + 1) * (2 * size) > b.len()
                ==> search is Truncated
        }),
{
    assert(size == pointer_size());
    lemma_u32_is_read(b, 0, count);
    assert(groups_offset(address) == first) by {
        let over = (address + 4) % size;
        if size == 8 {
            assert((address + first) % 8 == 0);
            assert(over == (address + 4) % 8);
        } else {
            assert(size == 4);
            assert((address + first) % 4 == 0);
            assert(over == (address + 4) % 4);
        }
    }
    lemma_search_reads_groups(b, first, count as nat, groups);
}

/// A buffer without room for the count is too short.
pub proof fn law_buffer_holds_the_count(b: Seq<u8>, address: usize)
    ensures
        b.len() < 4 ==> logon_search(b, address) is Truncated,
{
}

/// A pointer is the sum of its bytes, each 0x100 times what the one before it
/// counts.
pub proof fn law_pointer_is_the_sum_of_its_bytes(b: Seq<u8>, at: int)
    ensures
        usize::BITS == 64 ==> pointer_at(b, at) == b[at] + 0x100 * b[at + 1] + 0x1_0000 * b[at + 2] + 0x100_0000 * b[at
            + 3] + 0x1_0000_0000 * b[at + 4] + 0x100_0000_0000 * b[at + 5] + 0x1_0000_0000_0000 * b[at + 6]
            + 0x100_0000_0000_0000 * b[at + 7],
        usize::BITS == 32 ==> pointer_at(b, at) == b[at] + 0x100 * b[at + 1] + 0x1_0000 * b[at + 2] + 0x100_0000 * b[at
            + 3],
{
}

} // verus!
