//! The inode table: a bidirectional store mapping inode number to
//! (parent inode, name), with a per-entry lookup count and a per-slot
//! generation number.
//!
//! Inode number 1 is reserved for the filesystem root and is never
//! allocated, recycled, or removed. Every other inode number is the index of
//! a slot in the table: a slot is either used by an entry or free, and a
//! free slot remembers the generation the next occupant must carry, so that
//! the pair (inode number, generation) uniquely identifies an object across
//! the whole lifetime of the mount even when inode numbers are reused.
//!
//! Each public operation is atomic with respect to the others in the sense
//! that it is a single `&mut self` call: a caller that serializes access to
//! the table (for example behind a lock, one critical section per call)
//! never observes a partially-applied allocate, rename, unlink or forget.
//!
//! The table never introduces a parent-link cycle: a rename whose
//! destination parent has the renamed entry on its own ancestry is refused,
//! and a freed slot is not reused while it lies on the new entry's parent
//! chain. A chain can still end at a missing slot — the transport may
//! forget a directory while an entry under it is alive — and the resolver
//! answers such a walk with an error for that one request.

use vstd::prelude::*;
use crate::types::{FileType, ENOENT, EINVAL};

verus! {

/// An inode number: an opaque unsigned 64-bit identifier. Value 1 is the
/// filesystem root.
pub type Inode = u64;

/// The inode number of the filesystem root.
pub const ROOT_INODE: Inode = 1;

/// An entry of the inode table: one filesystem object, named relative to
/// its parent directory.
#[derive(Debug)]
pub struct InodeEntry {
    /// Inode number of the parent directory. The root entry's parent is
    /// itself.
    pub parent: Inode,
    /// Name of the object, relative to the parent.
    pub name: String,
    /// Kind of the object (directory, file, symlink, etc.).
    pub kind: FileType,
    /// Number of outstanding references the transport holds to this inode:
    /// incremented by every successful name resolution, decremented by
    /// forget. Never negative.
    pub lookup_count: u64,
    /// Generation of the slot this entry occupies: how many times the slot's
    /// inode number had been fully freed and reused before this entry took
    /// it.
    pub generation: u64,
    /// Set when a remove-style operation eliminated the name binding while
    /// the lookup count was still positive. The entry stays resolvable by
    /// inode number but is absent from the name index.
    pub unlinked: bool,
}

/// One slot of the table. The slot at index `i` owns inode number `i`.
#[derive(Debug)]
pub enum Slot {
    /// No entry occupies this inode number. The next occupant must carry
    /// generation `next_generation`.
    Free { next_generation: u64 },
    /// An entry occupies this inode number.
    Used { entry: InodeEntry },
}

/// The mathematical state of an [`InodeTable`]: the slots, indexed by inode
/// number, and the list of freed inode numbers available for reuse.
pub ghost struct TableView {
    /// Slot `i` owns inode number `i`. Slot 0 is permanently free (inode 0
    /// is never valid); slot 1 is the root entry.
    pub slots: Seq<Slot>,
    /// Freed inode numbers available for reuse, most recently freed last.
    pub free_list: Seq<u64>,
}

/// Whether a slot is occupied by an entry.
pub open spec fn is_used(s: Slot) -> bool {
    match s {
        Slot::Used { .. } => true,
        Slot::Free { .. } => false,
    }
}

/// The entry occupying a used slot.
pub open spec fn entry_of(s: Slot) -> InodeEntry {
    match s {
        Slot::Used { entry } => entry,
        Slot::Free { .. } => arbitrary(),
    }
}

/// The generation the next occupant of a free slot must carry.
pub open spec fn next_gen_of(s: Slot) -> u64 {
    match s {
        Slot::Free { next_generation } => next_generation,
        Slot::Used { .. } => arbitrary(),
    }
}

/// Whether inode number `ino` exists in the table: its slot is used. An
/// unlinked entry still exists (it is resolvable by inode number); a freed
/// or never-allocated number does not.
pub open spec fn inode_exists(t: Seq<Slot>, ino: u64) -> bool {
    1 <= ino < t.len() && is_used(t[ino as int])
}

/// Whether inode number `i` holds a live (not unlinked) binding of `name`
/// under `parent`. Only non-root slots bind names; the root is reachable by
/// its well-known inode number alone.
pub open spec fn is_live_at(t: Seq<Slot>, i: int, parent: u64, name: Seq<char>) -> bool {
    &&& 2 <= i < t.len()
    &&& is_used(t[i])
    &&& !entry_of(t[i]).unlinked
    &&& entry_of(t[i]).parent == parent
    &&& entry_of(t[i]).name@ == name
}

/// The first index at or after `i` holding a live binding of (parent, name),
/// if any. Scanning order makes this deterministic; under the table's
/// well-formedness at most one live binding exists, so the scan finds it.
pub open spec fn find_live_from(t: Seq<Slot>, parent: u64, name: Seq<char>, i: int) -> Option<int>
    decreases t.len() - i,
{
    if i < 0 || i >= t.len() {
        None
    } else if is_live_at(t, i, parent, name) {
        Some(i)
    } else {
        find_live_from(t, parent, name, i + 1)
    }
}

/// The inode number holding the live binding of `name` under `parent`, if
/// any.
pub open spec fn find_live(t: Seq<Slot>, parent: u64, name: Seq<char>) -> Option<int> {
    find_live_from(t, parent, name, 2)
}

/// Slot 0 is permanently free and slot 1 is the root: a directory named by
/// the empty string, its own parent, never unlinked.
pub open spec fn root_ok(t: Seq<Slot>) -> bool {
    &&& t.len() >= 2
    &&& !is_used(t[0])
    &&& is_used(t[1])
    &&& entry_of(t[1]).parent == 1
    &&& entry_of(t[1]).name@ == Seq::<char>::empty()
    &&& entry_of(t[1]).kind == FileType::Directory
    &&& !entry_of(t[1]).unlinked
}

/// No two distinct used, non-unlinked entries bind the same (parent, name)
/// pair: concurrent identical allocations must resolve to one inode.
pub open spec fn live_unique(t: Seq<Slot>) -> bool {
    forall|i: int, j: int|
        2 <= i < t.len() && 2 <= j < t.len() && i != j && is_used(t[i]) && is_used(t[j])
            && !entry_of(t[i]).unlinked && !entry_of(t[j]).unlinked
            && entry_of(t[i]).parent == entry_of(t[j]).parent ==> entry_of(t[i]).name@
            != entry_of(t[j]).name@
}

/// Every entry's parent link names a slot the table has: the inode-to-entry
/// index never points outside the table.
pub open spec fn parents_ok(t: Seq<Slot>) -> bool {
    forall|i: int|
        2 <= i < t.len() && is_used(#[trigger] t[i]) ==> 1 <= entry_of(t[i]).parent < t.len()
}

/// The free list names exactly reusable slots: each element is a distinct
/// non-root, non-zero inode number whose slot is free.
pub open spec fn free_list_ok(t: Seq<Slot>, f: Seq<u64>) -> bool {
    &&& forall|k: int| 0 <= k < f.len() ==> 2 <= #[trigger] f[k] < t.len() && !is_used(t[f[k] as int])
    &&& forall|k1: int, k2: int| 0 <= k1 < k2 < f.len() ==> #[trigger] f[k1] != #[trigger] f[k2]
}

/// Well-formedness of a table state: every operation requires it of the
/// state before the call and guarantees it of the state after.
pub open spec fn table_wf(v: TableView) -> bool {
    &&& root_ok(v.slots)
    &&& live_unique(v.slots)
    &&& parents_ok(v.slots)
    &&& free_list_ok(v.slots, v.free_list)
}

/// `find_live_from` only answers `Some` at a live binding.
pub proof fn lemma_find_live_from_some(t: Seq<Slot>, parent: u64, name: Seq<char>, i: int, j: int)
    requires
        0 <= i,
        find_live_from(t, parent, name, i) == Some(j),
    ensures
        i <= j,
        is_live_at(t, j, parent, name),
    decreases t.len() - i,
{
    if i < t.len() && !is_live_at(t, i, parent, name) {
        lemma_find_live_from_some(t, parent, name, i + 1, j);
    }
}

/// When `find_live_from` answers `None`, no index it scanned holds a live
/// binding.
pub proof fn lemma_find_live_from_none(t: Seq<Slot>, parent: u64, name: Seq<char>, i: int)
    requires
        0 <= i,
        find_live_from(t, parent, name, i) is None,
    ensures
        forall|j: int| i <= j < t.len() ==> !is_live_at(t, j, parent, name),
    decreases t.len() - i,
{
    if i < t.len() {
        lemma_find_live_from_none(t, parent, name, i + 1);
    }
}

/// Under uniqueness of live bindings, the scan finds exactly the one live
/// index.
pub proof fn lemma_find_live_at(t: Seq<Slot>, parent: u64, name: Seq<char>, i: int, j: int)
    requires
        0 <= i <= j,
        is_live_at(t, j, parent, name),
        live_unique(t),
    ensures
        find_live_from(t, parent, name, i) == Some(j),
    decreases t.len() - i,
{
    if i < j {
        assert(!is_live_at(t, i, parent, name));
        lemma_find_live_at(t, parent, name, i + 1, j);
    }
}

/// The binding-relevant fields of every slot (usedness, unlinked flag,
/// parent, name) agree between two states.
pub open spec fn bindings_eq(t0: Seq<Slot>, t1: Seq<Slot>) -> bool {
    &&& t1.len() == t0.len()
    &&& forall|i: int|
        0 <= i < t0.len() ==> {
            &&& is_used(#[trigger] t1[i]) == is_used(t0[i])
            &&& (is_used(t0[i]) ==> {
                &&& entry_of(t1[i]).unlinked == entry_of(t0[i]).unlinked
                &&& entry_of(t1[i]).parent == entry_of(t0[i]).parent
                &&& entry_of(t1[i]).name@ == entry_of(t0[i]).name@
            })
        }
}

/// A state change that keeps every slot's binding fields keeps the
/// uniqueness of live bindings.
pub proof fn lemma_live_unique_bindings_eq(t0: Seq<Slot>, t1: Seq<Slot>)
    requires
        live_unique(t0),
        bindings_eq(t0, t1),
    ensures
        live_unique(t1),
{
}

/// Uniqueness of live bindings survives giving one slot a fresh binding that
/// did not exist anywhere before. The state may also have grown by newly
/// minted slots at the end, which carry no binding in the old state.
pub proof fn lemma_live_unique_after_fresh(
    t0: Seq<Slot>,
    t1: Seq<Slot>,
    ino: int,
    parent: u64,
    name: Seq<char>,
)
    requires
        live_unique(t0),
        t0.len() <= t1.len(),
        0 <= ino < t1.len(),
        forall|j: int| 0 <= j < t1.len() && j != ino ==> j < t0.len() && t1[j] == t0[j],
        forall|j: int| !is_live_at(t0, j, parent, name),
        is_used(t1[ino]),
        entry_of(t1[ino]).parent == parent,
        entry_of(t1[ino]).name@ == name,
    ensures
        live_unique(t1),
{
    assert forall|i: int, j: int|
        2 <= i < t1.len() && 2 <= j < t1.len() && i != j && is_used(t1[i]) && is_used(t1[j])
            && !entry_of(t1[i]).unlinked && !entry_of(t1[j]).unlinked && entry_of(
            t1[i],
        ).parent == entry_of(t1[j]).parent implies entry_of(t1[i]).name@ != entry_of(
        t1[j],
    ).name@ by {
        if i != ino && j != ino {
            assert(t1[i] == t0[i] && t1[j] == t0[j]);
        } else {
            let other = if i == ino {
                j
            } else {
                i
            };
            if entry_of(t1[other]).parent == parent && entry_of(t1[other]).name@ == name {
                assert(is_live_at(t0, other, parent, name));
            }
        }
    }
}

/// Uniqueness of live bindings survives freeing a slot, or marking its
/// entry unlinked: both only remove a live binding.
pub proof fn lemma_live_unique_after_clear(t0: Seq<Slot>, t1: Seq<Slot>, i: int)
    requires
        live_unique(t0),
        t1.len() == t0.len(),
        forall|j: int| 0 <= j < t1.len() && j != i ==> t1[j] == t0[j],
        !is_used(t1[i]) || entry_of(t1[i]).unlinked,
    ensures
        live_unique(t1),
{
    assert forall|a: int, b: int|
        2 <= a < t1.len() && 2 <= b < t1.len() && a != b && is_used(t1[a]) && is_used(t1[b])
            && !entry_of(t1[a]).unlinked && !entry_of(t1[b]).unlinked && entry_of(
            t1[a],
        ).parent == entry_of(t1[b]).parent implies entry_of(t1[a]).name@ != entry_of(
        t1[b],
    ).name@ by {
        assert(a != i && b != i);
        assert(t1[a] == t0[a] && t1[b] == t0[b]);
    }
}

/// `post` is `pre` with at most the slot at `i` changed.
pub open spec fn updated_at(pre: Seq<Slot>, post: Seq<Slot>, i: int) -> bool {
    &&& post.len() == pre.len()
    &&& forall|j: int| 0 <= j < pre.len() && j != i ==> post[j] == pre[j]
}

/// `post` is `pre` with at most the slots at `i1` and `i2` changed.
pub open spec fn updated_at2(pre: Seq<Slot>, post: Seq<Slot>, i1: int, i2: int) -> bool {
    &&& post.len() == pre.len()
    &&& forall|j: int| 0 <= j < pre.len() && j != i1 && j != i2 ==> post[j] == pre[j]
}

/// The fields of an entry, spelled out. Names are compared as character
/// sequences.
pub open spec fn entry_matches(
    e: InodeEntry,
    parent: u64,
    name: Seq<char>,
    kind: FileType,
    lookup_count: u64,
    generation: u64,
    unlinked: bool,
) -> bool {
    &&& e.parent == parent
    &&& e.name@ == name
    &&& e.kind == kind
    &&& e.lookup_count == lookup_count
    &&& e.generation == generation
    &&& e.unlinked == unlinked
}

/// A lookup count one higher, saturating at the top of the machine range.
pub open spec fn inc_sat(c: u64) -> u64 {
    if c < u64::MAX {
        (c + 1) as u64
    } else {
        c
    }
}

/// A generation one higher, saturating at the top of the machine range.
pub open spec fn gen_bump(g: u64) -> u64 {
    if g < u64::MAX {
        (g + 1) as u64
    } else {
        g
    }
}

/// The slot at `i` kept its entry unchanged except for the lookup count,
/// which now is `c`.
pub open spec fn count_changed_to(pre: Seq<Slot>, post: Seq<Slot>, i: int, c: u64) -> bool {
    &&& is_used(post[i])
    &&& entry_of(post[i]).parent == entry_of(pre[i]).parent
    &&& entry_of(post[i]).name == entry_of(pre[i]).name
    &&& entry_of(post[i]).kind == entry_of(pre[i]).kind
    &&& entry_of(post[i]).generation == entry_of(pre[i]).generation
    &&& entry_of(post[i]).unlinked == entry_of(pre[i]).unlinked
    &&& entry_of(post[i]).lookup_count == c
}

/// The slot at `i` kept its entry unchanged except for the lookup count,
/// which grew by one (saturating).
pub open spec fn count_bumped(pre: Seq<Slot>, post: Seq<Slot>, i: int) -> bool {
    count_changed_to(pre, post, i, inc_sat(entry_of(pre[i]).lookup_count))
}

/// The slot at `i` was fully freed: its entry is gone, and the slot
/// remembers the generation the next occupant must carry, one above the
/// departed entry's generation (saturating).
pub open spec fn destroyed(pre: Seq<Slot>, post: Seq<Slot>, i: int) -> bool {
    &&& !is_used(post[i])
    &&& next_gen_of(post[i]) == gen_bump(entry_of(pre[i]).generation)
}

/// The slot at `i` kept its entry unchanged except for the unlinked flag,
/// which is now set: the name binding is gone, the entry itself stays
/// resolvable by inode number.
pub open spec fn unlink_marked(pre: Seq<Slot>, post: Seq<Slot>, i: int) -> bool {
    &&& is_used(post[i])
    &&& entry_of(post[i]).parent == entry_of(pre[i]).parent
    &&& entry_of(post[i]).name == entry_of(pre[i]).name
    &&& entry_of(post[i]).kind == entry_of(pre[i]).kind
    &&& entry_of(post[i]).lookup_count == entry_of(pre[i]).lookup_count
    &&& entry_of(post[i]).generation == entry_of(pre[i]).generation
    &&& entry_of(post[i]).unlinked
}

/// The slot at `i` kept its entry unchanged except for parent and name,
/// which are now (newparent, newname).
pub open spec fn rebound(
    pre: Seq<Slot>,
    post: Seq<Slot>,
    i: int,
    newparent: u64,
    newname: Seq<char>,
) -> bool {
    &&& is_used(post[i])
    &&& entry_of(post[i]).parent == newparent
    &&& entry_of(post[i]).name@ == newname
    &&& entry_of(post[i]).kind == entry_of(pre[i]).kind
    &&& entry_of(post[i]).lookup_count == entry_of(pre[i]).lookup_count
    &&& entry_of(post[i]).generation == entry_of(pre[i]).generation
    &&& entry_of(post[i]).unlinked == entry_of(pre[i]).unlinked
}

/// What `lookup_count_adjust` (the forget operation) guarantees.
///
/// - A forget of the root is accepted and ignored: the root's count is
///   conceptually infinite, the root is never removed.
/// - An unknown inode fails with `ENOENT`; a delta above the current count
///   is a protocol violation from the transport and fails with `EINVAL`;
///   both leave the table unchanged (reportable, non-fatal).
/// - Otherwise the count drops by delta. When it reaches zero the entry is
///   removed — it is then either unlinked or orphaned, since the table
///   keeps no reference to an entry beyond its lookup count and its name
///   binding, and a name binding alone is cache that the next lookup
///   re-creates — and its slot joins the free list with a bumped
///   generation; otherwise the entry stays.
pub open spec fn forget_ensures(
    pre: TableView,
    post: TableView,
    ino: u64,
    delta: u64,
    r: Result<(), i32>,
) -> bool {
    if ino == 1 {
        r == Ok::<(), i32>(()) && post == pre
    } else if !inode_exists(pre.slots, ino) {
        r == Err::<(), i32>(ENOENT) && post == pre
    } else if delta > entry_of(pre.slots[ino as int]).lookup_count {
        r == Err::<(), i32>(EINVAL) && post == pre
    } else {
        let e = entry_of(pre.slots[ino as int]);
        let c = (e.lookup_count - delta) as u64;
        &&& r == Ok::<(), i32>(())
        &&& updated_at(pre.slots, post.slots, ino as int)
        &&& if c == 0 {
            &&& destroyed(pre.slots, post.slots, ino as int)
            &&& post.free_list == pre.free_list.push(ino)
        } else {
            &&& count_changed_to(pre.slots, post.slots, ino as int, c)
            &&& post.free_list == pre.free_list
        }
    }
}

/// What `unlink` (and `rmdir`) guarantee: the live binding of (parent,
/// name) leaves the name index. An entry without outstanding references is
/// destroyed immediately, freeing its slot for generation-bumped reuse; one
/// the transport still holds references to is only marked unlinked, so
/// operations already holding its inode number keep resolving it until the
/// corresponding forget arrives.
pub open spec fn unlink_ensures(
    pre: TableView,
    post: TableView,
    parent: u64,
    name: Seq<char>,
    r: Result<(), i32>,
) -> bool {
    match find_live(pre.slots, parent, name) {
        None => r == Err::<(), i32>(ENOENT) && post == pre,
        Some(i) => {
            &&& r == Ok::<(), i32>(())
            &&& updated_at(pre.slots, post.slots, i)
            &&& if entry_of(pre.slots[i]).lookup_count == 0 {
                &&& destroyed(pre.slots, post.slots, i)
                &&& post.free_list == pre.free_list.push(i as u64)
            } else {
                &&& unlink_marked(pre.slots, post.slots, i)
                &&& post.free_list == pre.free_list
            }
        },
    }
}

/// Whether the slot at `target` lies on the parent-link walk that starts at
/// `node`: reached within `fuel` steps, before the walk stops at the root
/// or at a missing slot.
pub open spec fn on_ancestry(t: Seq<Slot>, node: u64, target: int, fuel: nat) -> bool
    decreases fuel,
{
    if node == target {
        true
    } else if node == 1 || fuel == 0 || !inode_exists(t, node) {
        false
    } else {
        on_ancestry(t, entry_of(t[node as int]).parent, target, (fuel - 1) as nat)
    }
}

/// What `rename` guarantees: the entry live at (parent, name) is atomically
/// rebound to (newparent, newname). A destination whose ancestry chain
/// passes through the entry being renamed is refused with `EINVAL`: the
/// rebinding would make the entry an ancestor of its own parent, a
/// parent-link cycle, and the table never introduces one. A prior occupant
/// of the destination name is overwritten in the same step, following the
/// same rules as an explicit unlink: destroyed if it has no outstanding
/// references, marked unlinked otherwise. No intermediate state is ever
/// observable: the one call moves the table from `pre` directly to `post`.
pub open spec fn rename_ensures(
    pre: TableView,
    post: TableView,
    parent: u64,
    name: Seq<char>,
    newparent: u64,
    newname: Seq<char>,
    r: Result<(), i32>,
) -> bool {
    match find_live(pre.slots, parent, name) {
        None => r == Err::<(), i32>(ENOENT) && post == pre,
        Some(i) => {
            if !inode_exists(pre.slots, newparent) {
                r == Err::<(), i32>(ENOENT) && post == pre
            } else if parent == newparent && name == newname {
                r == Ok::<(), i32>(()) && post == pre
            } else if on_ancestry(pre.slots, newparent, i, pre.slots.len()) {
                r == Err::<(), i32>(EINVAL) && post == pre
            } else {
                &&& r == Ok::<(), i32>(())
                &&& rebound(pre.slots, post.slots, i, newparent, newname)
                &&& match find_live(pre.slots, newparent, newname) {
                    None => {
                        &&& updated_at(pre.slots, post.slots, i)
                        &&& post.free_list == pre.free_list
                    },
                    Some(v) => {
                        &&& v != i
                        &&& updated_at2(pre.slots, post.slots, i, v)
                        &&& if entry_of(pre.slots[v]).lookup_count == 0 {
                            &&& destroyed(pre.slots, post.slots, v)
                            &&& post.free_list == pre.free_list.push(v as u64)
                        } else {
                            &&& unlink_marked(pre.slots, post.slots, v)
                            &&& post.free_list == pre.free_list
                        }
                    },
                }
            }
        },
    }
}

/// What `allocate` guarantees, as a relation between the table state before
/// the call, the state after it, and the result.
///
/// - If the parent does not exist, the call fails with `ENOENT` and the
///   table is unchanged.
/// - If a live entry already exists for (parent, name), its inode number is
///   returned and its lookup count grows by one; nothing else changes. The
///   kind argument is ignored: the entry keeps the kind it was created with,
///   so concurrent identical allocations resolve to one inode and one kind.
/// - Otherwise a fresh entry with lookup count 1 is created: in the most
///   recently freed slot, carrying that slot's bumped generation, if one is
///   available and the parent's own ancestry walk does not pass through it
///   — reusing a slot on that walk would graft the parent's broken chain
///   into a parent-link cycle, so such a slot is left on the free list —
///   else in a newly minted slot at the end of the table, with generation
///   0.
pub open spec fn allocate_ensures(
    pre: TableView,
    post: TableView,
    parent: u64,
    name: Seq<char>,
    kind: FileType,
    r: Result<u64, i32>,
) -> bool {
    match r {
        Err(e) => {
            &&& e == ENOENT
            &&& !inode_exists(pre.slots, parent)
            &&& post == pre
        },
        Ok(ino) => {
            &&& inode_exists(pre.slots, parent)
            &&& match find_live(pre.slots, parent, name) {
                Some(i) => {
                    &&& ino == i
                    &&& updated_at(pre.slots, post.slots, i)
                    &&& count_bumped(pre.slots, post.slots, i)
                    &&& post.free_list == pre.free_list
                },
                None => {
                    &&& if pre.free_list.len() > 0 && !on_ancestry(
                        pre.slots,
                        parent,
                        pre.free_list.last() as int,
                        pre.slots.len(),
                    ) {
                        &&& ino == pre.free_list.last()
                        &&& post.free_list == pre.free_list.drop_last()
                        &&& updated_at(pre.slots, post.slots, ino as int)
                        &&& is_used(post.slots[ino as int])
                        &&& entry_matches(
                            entry_of(post.slots[ino as int]),
                            parent,
                            name,
                            kind,
                            1,
                            next_gen_of(pre.slots[ino as int]),
                            false,
                        )
                    } else {
                        &&& ino == pre.slots.len()
                        &&& post.free_list == pre.free_list
                        &&& post.slots.len() == pre.slots.len() + 1
                        &&& forall|j: int|
                            0 <= j < pre.slots.len() ==> post.slots[j] == pre.slots[j]
                        &&& is_used(post.slots[ino as int])
                        &&& entry_matches(
                            entry_of(post.slots[ino as int]),
                            parent,
                            name,
                            kind,
                            1,
                            0,
                            false,
                        )
                    }
                },
            }
        },
    }
}

/// The concurrent bidirectional store mapping inode number to (parent,
/// name): the single shared mutable state of the core. Pure resource
/// lifecycle authority: it knows nothing of paths or of the transport
/// protocol.
pub struct InodeTable {
    slots: Vec<Slot>,
    free_list: Vec<u64>,
}

impl View for InodeTable {
    type V = TableView;

    closed spec fn view(&self) -> TableView {
        TableView { slots: self.slots@, free_list: self.free_list@ }
    }
}

/// The state of a freshly created table: the permanently-free slot 0, the
/// root entry at slot 1 with generation 0, and an empty free list.
pub open spec fn is_initial_table(v: TableView) -> bool {
    &&& v.slots.len() == 2
    &&& !is_used(v.slots[0])
    &&& next_gen_of(v.slots[0]) == 0
    &&& is_used(v.slots[1])
    &&& entry_of(v.slots[1]).parent == 1
    &&& entry_of(v.slots[1]).name@ == Seq::<char>::empty()
    &&& entry_of(v.slots[1]).kind == FileType::Directory
    &&& entry_of(v.slots[1]).lookup_count == 1
    &&& entry_of(v.slots[1]).generation == 0
    &&& !entry_of(v.slots[1]).unlinked
    &&& v.free_list.len() == 0
}

impl InodeTable {
    /// Create an empty table: only the root exists. The table is purely
    /// in-memory and is rebuilt from scratch, re-populated lazily through
    /// allocate, on every mount.
    pub fn new() -> (r: InodeTable)
        ensures
            table_wf(r@),
            is_initial_table(r@),
    {
        let root = InodeEntry {
            parent: 1,
            name: String::new(),
            kind: FileType::Directory,
            lookup_count: 1,
            generation: 0,
            unlinked: false,
        };
        let mut slots: Vec<Slot> = Vec::new();
        slots.push(Slot::Free { next_generation: 0 });
        slots.push(Slot::Used { entry: root });
        InodeTable { slots, free_list: Vec::new() }
    }

    /// The number of slots the table currently holds: one more than the
    /// highest inode number ever minted. Every valid inode number is below
    /// this bound, which makes it the step budget for ancestry walks.
    pub fn slot_count(&self) -> (n: usize)
        ensures
            n == self@.slots.len(),
    {
        self.slots.len()
    }

    /// Point lookup: the (parent, name, kind, generation) of an inode.
    /// Fails with `ENOENT` if the inode is unknown to the table (stale or
    /// never-allocated). An unlinked entry is still returned, so in-flight
    /// operations holding its inode number keep working.
    pub fn entry(&self, ino: Inode) -> (r: Result<(Inode, String, FileType, u64), i32>)
        ensures
            match r {
                Ok((parent, name, kind, generation)) => {
                    &&& inode_exists(self@.slots, ino)
                    &&& parent == entry_of(self@.slots[ino as int]).parent
                    &&& name@ == entry_of(self@.slots[ino as int]).name@
                    &&& kind == entry_of(self@.slots[ino as int]).kind
                    &&& generation == entry_of(self@.slots[ino as int]).generation
                },
                Err(e) => e == ENOENT && !inode_exists(self@.slots, ino),
            },
    {
        if ino < 1 || ino >= self.slots.len() as u64 {
            return Err(ENOENT);
        }
        match &self.slots[ino as usize] {
            Slot::Used { entry } => Ok((entry.parent, entry.name.clone(), entry.kind, entry.generation)),
            Slot::Free { .. } => Err(ENOENT),
        }
    }

    /// The lookup count of an inode, or `ENOENT` if the inode is unknown.
    pub fn lookup_count(&self, ino: Inode) -> (r: Result<u64, i32>)
        ensures
            match r {
                Ok(c) => inode_exists(self@.slots, ino) && c == entry_of(
                    self@.slots[ino as int],
                ).lookup_count,
                Err(e) => e == ENOENT && !inode_exists(self@.slots, ino),
            },
    {
        if ino < 1 || ino >= self.slots.len() as u64 {
            return Err(ENOENT);
        }
        match &self.slots[ino as usize] {
            Slot::Used { entry } => Ok(entry.lookup_count),
            Slot::Free { .. } => Err(ENOENT),
        }
    }

    /// The inode number holding the live (not unlinked) binding of `name`
    /// under `parent`, if any. An unlinked entry is absent from this name
    /// index, so a new lookup of its old name fails or finds the new
    /// occupant.
    pub fn find_binding(&self, parent: Inode, name: &String) -> (r: Option<Inode>)
        ensures
            match r {
                Some(ino) => find_live(self@.slots, parent, name@) == Some(ino as int),
                None => find_live(self@.slots, parent, name@) is None,
            },
    {
        let n = self.slots.len();
        let mut i: usize = if n < 2 { n } else { 2 };
        proof {
            if n < 2 {
                assert(find_live_from(self@.slots, parent, name@, 2) is None);
            }
        }
        while i < n
            invariant
                2 <= i || i == n,
                i <= n,
                n == self@.slots.len(),
                self@.slots == self.slots@,
                find_live(self@.slots, parent, name@) == find_live_from(
                    self@.slots,
                    parent,
                    name@,
                    i as int,
                ),
            decreases n - i,
        {
            match &self.slots[i] {
                Slot::Used { entry } => {
                    if !entry.unlinked && entry.parent == parent && entry.name == *name {
                        return Some(i as u64);
                    }
                },
                Slot::Free { .. } => {},
            }
            assert(!is_live_at(self@.slots, i as int, parent, name@));
            i = i + 1;
        }
        None
    }

    /// Name resolution bookkeeping: idempotent with respect to concurrent
    /// identical calls. If a live (non-unlinked) entry already exists for
    /// (parent, name), returns its inode number and increments its lookup
    /// count; otherwise creates a new entry with lookup count 1, reusing a
    /// freed slot (and taking its bumped generation) if one is available,
    /// else minting a new inode number with generation 0. Fails with
    /// `ENOENT` if the parent does not exist.
    pub fn allocate(&mut self, parent: Inode, name: String, kind: FileType) -> (r: Result<
        Inode,
        i32,
    >)
        requires
            table_wf(old(self)@),
        ensures
            table_wf(final(self)@),
            allocate_ensures(old(self)@, final(self)@, parent, name@, kind, r),
    {
        if parent < 1 || parent >= self.slots.len() as u64 {
            return Err(ENOENT);
        }
        let parent_used = match &self.slots[parent as usize] {
            Slot::Used { .. } => true,
            Slot::Free { .. } => false,
        };
        if !parent_used {
            return Err(ENOENT);
        }
        match self.find_binding(parent, &name) {
            Some(ino) => {
                proof {
                    lemma_find_live_from_some(self@.slots, parent, name@, 2, ino as int);
                }
                let i = ino as usize;
                match &self.slots[i] {
                    Slot::Used { entry } => {
                        let bumped = InodeEntry {
                            parent: entry.parent,
                            name: entry.name.clone(),
                            kind: entry.kind,
                            lookup_count: if entry.lookup_count < u64::MAX {
                                entry.lookup_count + 1
                            } else {
                                entry.lookup_count
                            },
                            generation: entry.generation,
                            unlinked: entry.unlinked,
                        };
                        self.slots.set(i, Slot::Used { entry: bumped });
                        proof {
                            assert(bindings_eq(old(self)@.slots, self@.slots));
                            lemma_live_unique_bindings_eq(old(self)@.slots, self@.slots);
                        }
                        Ok(ino)
                    },
                    Slot::Free { .. } => {
                        proof {
                            assert(false);
                        }
                        Err(ENOENT)
                    },
                }
            },
            None => {
                proof {
                    lemma_find_live_from_none(self@.slots, parent, name@, 2);
                }
                let reuse = if self.free_list.len() > 0 {
                    let candidate = self.free_list[self.free_list.len() - 1];
                    !self.walk_hits(parent, candidate)
                } else {
                    false
                };
                if reuse {
                    let ino = self.free_list.pop().unwrap();
                    let g = match &self.slots[ino as usize] {
                        Slot::Free { next_generation } => *next_generation,
                        Slot::Used { .. } => {
                            proof {
                                assert(false);
                            }
                            0
                        },
                    };
                    let fresh = InodeEntry {
                        parent,
                        name,
                        kind,
                        lookup_count: 1,
                        generation: g,
                        unlinked: false,
                    };
                    self.slots.set(ino as usize, Slot::Used { entry: fresh });
                    proof {
                        lemma_live_unique_after_fresh(
                            old(self)@.slots,
                            self@.slots,
                            ino as int,
                            parent,
                            name@,
                        );
                    }
                    Ok(ino)
                } else {
                    let ino = self.slots.len() as u64;
                    let fresh = InodeEntry {
                        parent,
                        name,
                        kind,
                        lookup_count: 1,
                        generation: 0,
                        unlinked: false,
                    };
                    self.slots.push(Slot::Used { entry: fresh });
                    proof {
                        lemma_live_unique_after_fresh(
                            old(self)@.slots,
                            self@.slots,
                            ino as int,
                            parent,
                            name@,
                        );
                    }
                    Ok(ino)
                }
            },
        }
    }

    /// Forget bookkeeping: decrement an inode's lookup count by `delta`, as
    /// instructed by the transport. A delta above the current count is a
    /// protocol violation and is rejected with `EINVAL`, leaving the table
    /// unchanged; an unknown inode is rejected with `ENOENT`; a forget of
    /// the root is ignored. When the count reaches zero the entry — by then
    /// unlinked, or orphaned now that the transport holds no reference — is
    /// destroyed, and its inode number becomes reusable with a bumped
    /// generation.
    pub fn lookup_count_adjust(&mut self, ino: Inode, delta: u64) -> (r: Result<(), i32>)
        requires
            table_wf(old(self)@),
        ensures
            table_wf(final(self)@),
            forget_ensures(old(self)@, final(self)@, ino, delta, r),
    {
        if ino == 1 {
            return Ok(());
        }
        if ino < 1 || ino >= self.slots.len() as u64 {
            return Err(ENOENT);
        }
        let i = ino as usize;
        match &self.slots[i] {
            Slot::Free { .. } => Err(ENOENT),
            Slot::Used { entry } => {
                if delta > entry.lookup_count {
                    return Err(EINVAL);
                }
                let c = entry.lookup_count - delta;
                if c == 0 {
                    let g = if entry.generation < u64::MAX {
                        entry.generation + 1
                    } else {
                        entry.generation
                    };
                    self.slots.set(i, Slot::Free { next_generation: g });
                    self.free_list.push(ino);
                    proof {
                        lemma_live_unique_after_clear(old(self)@.slots, self@.slots, i as int);
                    }
                    Ok(())
                } else {
                    let adjusted = InodeEntry {
                        parent: entry.parent,
                        name: entry.name.clone(),
                        kind: entry.kind,
                        lookup_count: c,
                        generation: entry.generation,
                        unlinked: entry.unlinked,
                    };
                    self.slots.set(i, Slot::Used { entry: adjusted });
                    proof {
                        assert(bindings_eq(old(self)@.slots, self@.slots));
                        lemma_live_unique_bindings_eq(old(self)@.slots, self@.slots);
                    }
                    Ok(())
                }
            },
        }
    }

    /// Remove the name binding of (parent, name). If the entry has no
    /// outstanding references, it is destroyed immediately and its slot is
    /// freed for generation-bumped reuse; otherwise it is marked unlinked
    /// and stays resolvable by inode number until the transport forgets it.
    /// Fails with `ENOENT` if no live entry binds that name.
    pub fn unlink(&mut self, parent: Inode, name: &String) -> (r: Result<(), i32>)
        requires
            table_wf(old(self)@),
        ensures
            table_wf(final(self)@),
            unlink_ensures(old(self)@, final(self)@, parent, name@, r),
    {
        match self.find_binding(parent, name) {
            None => Err(ENOENT),
            Some(ino) => {
                proof {
                    vstd::std_specs::vec::axiom_spec_len(&self.slots);
                    lemma_find_live_from_some(self@.slots, parent, name@, 2, ino as int);
                }
                let i = ino as usize;
                match &self.slots[i] {
                    Slot::Free { .. } => {
                        proof {
                            assert(false);
                        }
                        Err(ENOENT)
                    },
                    Slot::Used { entry } => {
                        if entry.lookup_count == 0 {
                            let g = if entry.generation < u64::MAX {
                                entry.generation + 1
                            } else {
                                entry.generation
                            };
                            self.slots.set(i, Slot::Free { next_generation: g });
                            self.free_list.push(ino);
                        } else {
                            let marked = InodeEntry {
                                parent: entry.parent,
                                name: entry.name.clone(),
                                kind: entry.kind,
                                lookup_count: entry.lookup_count,
                                generation: entry.generation,
                                unlinked: true,
                            };
                            self.slots.set(i, Slot::Used { entry: marked });
                        }
                        proof {
                            lemma_live_unique_after_clear(old(self)@.slots, self@.slots, i as int);
                        }
                        Ok(())
                    },
                }
            },
        }
    }

    /// Remove the name binding of a directory. The table treats this
    /// exactly like `unlink`: whether the directory may be removed (for
    /// example, whether it is empty) was already decided by the implementer
    /// operation that preceded this bookkeeping step.
    pub fn rmdir(&mut self, parent: Inode, name: &String) -> (r: Result<(), i32>)
        requires
            table_wf(old(self)@),
        ensures
            table_wf(final(self)@),
            unlink_ensures(old(self)@, final(self)@, parent, name@, r),
    {
        self.unlink(parent, name)
    }

    /// Whether `target`'s slot lies on the parent-link walk from `node`,
    /// giving the walk one step per slot of the table.
    fn walk_hits(&self, node: Inode, target: Inode) -> (r: bool)
        ensures
            r == on_ancestry(self@.slots, node, target as int, self@.slots.len()),
    {
        let n = self.slots.len();
        let mut cur: Inode = node;
        let mut steps: usize = 0;
        while steps < n
            invariant
                steps <= n,
                n == self@.slots.len(),
                on_ancestry(self@.slots, node, target as int, n as nat) == on_ancestry(
                    self@.slots,
                    cur,
                    target as int,
                    (n - steps) as nat,
                ),
            decreases n - steps,
        {
            if cur == target {
                return true;
            }
            if cur == 1 {
                return false;
            }
            if cur < 1 || cur >= n as u64 {
                return false;
            }
            match &self.slots[cur as usize] {
                Slot::Free { .. } => {
                    return false;
                },
                Slot::Used { entry } => {
                    cur = entry.parent;
                },
            }
            steps = steps + 1;
        }
        cur == target
    }

    /// Atomically rebind the entry live at (parent, name) to (newparent,
    /// newname). If an entry already occupies the destination name, it is
    /// overwritten in the same atomic step, following the same rules as an
    /// explicit unlink: there is no window where both or neither binding is
    /// visible. Fails with `ENOENT` if no live entry binds (parent, name)
    /// or if the new parent does not exist, and with `EINVAL` if the new
    /// parent's ancestry chain passes through the entry itself: that
    /// rebinding would introduce a parent-link cycle, and the table forms a
    /// tree.
    pub fn rename(&mut self, parent: Inode, name: &String, newparent: Inode, newname: String) -> (r:
        Result<(), i32>)
        requires
            table_wf(old(self)@),
        ensures
            table_wf(final(self)@),
            rename_ensures(old(self)@, final(self)@, parent, name@, newparent, newname@, r),
    {
        let ino = match self.find_binding(parent, name) {
            None => {
                return Err(ENOENT);
            },
            Some(ino) => ino,
        };
        proof {
            vstd::std_specs::vec::axiom_spec_len(&self.slots);
            lemma_find_live_from_some(self@.slots, parent, name@, 2, ino as int);
        }
        if newparent < 1 || newparent >= self.slots.len() as u64 {
            return Err(ENOENT);
        }
        let newparent_used = match &self.slots[newparent as usize] {
            Slot::Used { .. } => true,
            Slot::Free { .. } => false,
        };
        if !newparent_used {
            return Err(ENOENT);
        }
        if parent == newparent && *name == newname {
            return Ok(());
        }
        if self.walk_hits(newparent, ino) {
            return Err(EINVAL);
        }
        let victim = self.find_binding(newparent, &newname);
        match victim {
            None => {
                proof {
                    lemma_find_live_from_none(self@.slots, newparent, newname@, 2);
                }
            },
            Some(v) => {
                proof {
                    lemma_find_live_from_some(self@.slots, newparent, newname@, 2, v as int);
                }
                let vi = v as usize;
                match &self.slots[vi] {
                    Slot::Free { .. } => {
                        proof {
                            assert(false);
                        }
                    },
                    Slot::Used { entry } => {
                        if entry.lookup_count == 0 {
                            let g = if entry.generation < u64::MAX {
                                entry.generation + 1
                            } else {
                                entry.generation
                            };
                            self.slots.set(vi, Slot::Free { next_generation: g });
                            self.free_list.push(v);
                        } else {
                            let marked = InodeEntry {
                                parent: entry.parent,
                                name: entry.name.clone(),
                                kind: entry.kind,
                                lookup_count: entry.lookup_count,
                                generation: entry.generation,
                                unlinked: true,
                            };
                            self.slots.set(vi, Slot::Used { entry: marked });
                        }
                        proof {
                            lemma_live_unique_after_clear(old(self)@.slots, self@.slots, v as int);
                        }
                    },
                }
            },
        }
        let ghost mid = self@;
        proof {
            assert forall|j: int| !is_live_at(mid.slots, j, newparent, newname@) by {
                if is_live_at(mid.slots, j, newparent, newname@) {
                    match victim {
                        None => {
                            assert(is_live_at(old(self)@.slots, j, newparent, newname@));
                        },
                        Some(v) => {
                            if j != v {
                                assert(is_live_at(old(self)@.slots, j, newparent, newname@));
                                lemma_find_live_at(old(self)@.slots, newparent, newname@, 2, j);
                            }
                        },
                    }
                }
            }
        }
        let i = ino as usize;
        match &self.slots[i] {
            Slot::Free { .. } => {
                proof {
                    assert(false);
                }
                Err(ENOENT)
            },
            Slot::Used { entry } => {
                let moved = InodeEntry {
                    parent: newparent,
                    name: newname,
                    kind: entry.kind,
                    lookup_count: entry.lookup_count,
                    generation: entry.generation,
                    unlinked: entry.unlinked,
                };
                self.slots.set(i, Slot::Used { entry: moved });
                proof {
                    lemma_live_unique_after_fresh(
                        mid.slots,
                        self@.slots,
                        ino as int,
                        newparent,
                        newname@,
                    );
                }
                Ok(())
            },
        }
    }
}

} // verus!
