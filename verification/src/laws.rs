//! Laws of the inode table, proved once and for all over the same
//! relational contracts that the executable operations' `ensures` state.
//! Each proof function's premises say that certain calls happened, by naming
//! their contracts; its conclusions then hold for every table state and
//! every input meeting them.

use vstd::prelude::*;
use crate::inode_table::{
    allocate_ensures, destroyed, entry_of, find_live, find_live_from, forget_ensures, inode_exists,
    is_live_at, is_used, lemma_find_live_at, lemma_find_live_from_some, on_ancestry, parents_ok,
    rename_ensures, table_wf, unlink_ensures, Slot, TableView,
};
use crate::resolve::{
    chain_of, joined, lemma_chain_fuel_mono, lemma_chain_len_bound, path_of, path_of_components,
};
use crate::types::FileType;

verus! {

/// When no index holds a live binding, the scan reports none.
pub proof fn lemma_find_live_none_when(t: Seq<Slot>, parent: u64, name: Seq<char>, i: int)
    requires
        0 <= i,
        forall|j: int| !is_live_at(t, j, parent, name),
    ensures
        find_live_from(t, parent, name, i) is None,
    decreases t.len() - i,
{
    if i < t.len() {
        lemma_find_live_none_when(t, parent, name, i + 1);
    }
}

/// Reference counts never go below zero, and an entry is destroyed exactly
/// when a forget drives its count to zero — the entry is then unlinked, or
/// orphaned now that nothing references it. A forget whose delta exceeds
/// the live count is a protocol violation: it is rejected and the table is
/// untouched, so no interleaving of allocations and forgets on an entry can
/// drive its count negative or destroy it early. Counts are unsigned, so no
/// reachable state holds a negative one.
pub proof fn lemma_forget_destroys_iff(
    pre: TableView,
    post: TableView,
    ino: u64,
    delta: u64,
    r: Result<(), i32>,
)
    requires
        table_wf(pre),
        ino != 1,
        inode_exists(pre.slots, ino),
        forget_ensures(pre, post, ino, delta, r),
    ensures
        r is Ok <==> delta <= entry_of(pre.slots[ino as int]).lookup_count,
        r is Err ==> post == pre,
        r is Ok ==> (!is_used(post.slots[ino as int]) <==> delta == entry_of(
            pre.slots[ino as int],
        ).lookup_count),
{
}

/// Allocation is idempotent for a fixed (parent, name): two allocations
/// with no forget between them return the identical inode number, and when
/// no binding existed before the first call, the lookup count after both
/// calls is exactly 2. The second call only bumps a count, so every path
/// that resolved between the calls still resolves, unchanged, after them.
pub proof fn lemma_allocate_idempotent(
    t0: TableView,
    t1: TableView,
    t2: TableView,
    parent: u64,
    name: Seq<char>,
    kind: FileType,
    ino1: u64,
    ino2: u64,
)
    requires
        table_wf(t0),
        table_wf(t1),
        find_live(t0.slots, parent, name) is None,
        allocate_ensures(t0, t1, parent, name, kind, Ok(ino1)),
        allocate_ensures(t1, t2, parent, name, kind, Ok(ino2)),
    ensures
        ino2 == ino1,
        is_used(t2.slots[ino1 as int]),
        entry_of(t2.slots[ino1 as int]).lookup_count == 2,
        forall|j: u64, fuel: nat|
            #[trigger] chain_of(t1.slots, j, fuel) is Some ==> chain_of(t2.slots, j, fuel)
                == chain_of(t1.slots, j, fuel),
{
    if t0.free_list.len() > 0 && !on_ancestry(
        t0.slots,
        parent,
        t0.free_list.last() as int,
        t0.slots.len(),
    ) {
        assert(t0.free_list[t0.free_list.len() - 1] == ino1);
        assert(2 <= t0.free_list[t0.free_list.len() - 1] < t0.slots.len());
    }
    assert(is_live_at(t1.slots, ino1 as int, parent, name));
    lemma_find_live_at(t1.slots, parent, name, 2, ino1 as int);
    assert forall|j: u64, fuel: nat| #[trigger] chain_of(t1.slots, j, fuel) is Some implies chain_of(
        t2.slots,
        j,
        fuel,
    ) == chain_of(t1.slots, j, fuel) by {
        lemma_chain_frame(t1.slots, t2.slots, j, fuel);
    }
}

/// Generations strictly increase across reuse: when an entry's slot is
/// fully freed and a later allocation reuses its inode number, the new
/// entry's generation strictly exceeds the previous occupant's — by exactly
/// one, since the bump happens once per removal-then-reuse cycle. (The
/// counter saturates at the top of the 64-bit range, so the previous
/// generation must lie below it.)
pub proof fn lemma_generation_increases(
    t0: TableView,
    t1: TableView,
    t2: TableView,
    ino: u64,
    parent: u64,
    name: Seq<char>,
    kind: FileType,
)
    requires
        (ino as int) < t0.slots.len(),
        is_used(t0.slots[ino as int]),
        entry_of(t0.slots[ino as int]).generation < u64::MAX,
        t1.slots.len() == t0.slots.len(),
        destroyed(t0.slots, t1.slots, ino as int),
        find_live(t1.slots, parent, name) is None,
        allocate_ensures(t1, t2, parent, name, kind, Ok(ino)),
    ensures
        is_used(t2.slots[ino as int]),
        entry_of(t2.slots[ino as int]).generation > entry_of(t0.slots[ino as int]).generation,
        entry_of(t2.slots[ino as int]).generation == entry_of(t0.slots[ino as int]).generation
            + 1,
{
}

/// An entry's chain of names is its parent's chain extended by the entry's
/// own name: one more step of the same walk.
pub proof fn lemma_child_chain(t: Seq<Slot>, ino: u64, cp: Seq<Seq<char>>, fuel: nat)
    requires
        inode_exists(t, ino),
        ino != 1,
        chain_of(t, entry_of(t[ino as int]).parent, fuel) == Some(cp),
    ensures
        chain_of(t, ino, (fuel + 1) as nat) == Some(cp.push(entry_of(t[ino as int]).name@)),
{
    lemma_chain_fuel_mono(t, entry_of(t[ino as int]).parent, fuel, (fuel + 1) as nat);
    assert(chain_of(t, ino, (fuel + 1) as nat) == Some(cp.push(entry_of(t[ino as int]).name@)));
}

/// A chain that exists is untouched by any state change that keeps every
/// used slot's parent link and name: changing lookup counts or unlinked
/// flags, filling free slots, or growing the table never alters the path of
/// an inode that already had one.
pub proof fn lemma_chain_frame(t0: Seq<Slot>, t1: Seq<Slot>, j: u64, fuel: nat)
    requires
        chain_of(t0, j, fuel) is Some,
        t0.len() <= t1.len(),
        forall|m: int|
            0 <= m < t0.len() && is_used(t0[m]) ==> is_used(#[trigger] t1[m]) && entry_of(
                t1[m],
            ).parent == entry_of(t0[m]).parent && entry_of(t1[m]).name@ == entry_of(t0[m]).name@,
    ensures
        chain_of(t1, j, fuel) == chain_of(t0, j, fuel),
    decreases fuel,
{
    if j != 1 {
        lemma_chain_frame(t0, t1, entry_of(t0[j as int]).parent, (fuel - 1) as nat);
    }
}

/// Spelling a chain with one more component appends one '/'-prefixed name
/// to the spelled path: "/" then "/a" then "/a/b", never a doubled
/// separator.
pub proof fn lemma_path_push(c: Seq<Seq<char>>, name: Seq<char>)
    ensures
        path_of_components(c.push(name)) == if c.len() == 0 {
            seq!['/'] + name
        } else {
            path_of_components(c) + seq!['/'] + name
        },
{
    assert(c.push(name).drop_last() =~= c);
    assert(c.push(name).last() == name);
    assert(joined(c.push(name)) == joined(c) + seq!['/'] + name);
    if c.len() == 0 {
        assert(joined(c) == Seq::<char>::empty());
        assert(Seq::<char>::empty() + seq!['/'] + name =~= seq!['/'] + name);
    }
}

/// Resolution reproduces allocation: a fresh allocation of (parent, name)
/// leaves every existing path unchanged and gives the new inode exactly its
/// parent's path extended by '/' and the new name.
pub proof fn lemma_allocate_extends_path(
    t0: TableView,
    t1: TableView,
    parent: u64,
    name: Seq<char>,
    kind: FileType,
    ino: u64,
    cp: Seq<Seq<char>>,
    fuel: nat,
)
    requires
        table_wf(t0),
        find_live(t0.slots, parent, name) is None,
        allocate_ensures(t0, t1, parent, name, kind, Ok(ino)),
        chain_of(t0.slots, parent, fuel) == Some(cp),
    ensures
        chain_of(t1.slots, parent, fuel) == Some(cp),
        chain_of(t1.slots, ino, (fuel + 1) as nat) == Some(cp.push(name)),
        path_of(t1.slots, ino) == Some(path_of_components(cp.push(name))),
        path_of_components(cp.push(name)) == if cp.len() == 0 {
            seq!['/'] + name
        } else {
            path_of_components(cp) + seq!['/'] + name
        },
{
    if t0.free_list.len() > 0 && !on_ancestry(
        t0.slots,
        parent,
        t0.free_list.last() as int,
        t0.slots.len(),
    ) {
        assert(t0.free_list[t0.free_list.len() - 1] == ino);
        assert(2 <= t0.free_list[t0.free_list.len() - 1] < t0.slots.len());
    }
    lemma_chain_frame(t0.slots, t1.slots, parent, fuel);
    assert(is_used(t1.slots[ino as int]));
    lemma_child_chain(t1.slots, ino, cp, fuel);
    lemma_chain_len_bound(t1.slots, ino, (fuel + 1) as nat, cp.push(name));
    lemma_chain_fuel_mono(t1.slots, ino, (t1.slots.len() - 2) as nat, t1.slots.len());
    lemma_path_push(cp, name);
}

/// Rename is atomic: after a successful rename the entry is live under the
/// new name, the old name has no live binding, and the entry's path runs
/// through the new name — all in the one state the call produced, with no
/// intermediate state where both or neither binding is visible.
pub proof fn lemma_rename_rebinds(
    t0: TableView,
    t1: TableView,
    parent: u64,
    name: Seq<char>,
    newparent: u64,
    newname: Seq<char>,
    ino: u64,
)
    requires
        table_wf(t0),
        table_wf(t1),
        find_live(t0.slots, parent, name) == Some(ino as int),
        inode_exists(t0.slots, newparent),
        !(parent == newparent && name == newname),
        rename_ensures(t0, t1, parent, name, newparent, newname, Ok(())),
    ensures
        find_live(t1.slots, newparent, newname) == Some(ino as int),
        find_live(t1.slots, parent, name) is None,
        forall|fuel: nat|
            #[trigger] chain_of(t1.slots, newparent, fuel) is Some ==> chain_of(
                t1.slots,
                ino,
                (fuel + 1) as nat,
            ) == Some(chain_of(t1.slots, newparent, fuel)->0.push(newname)),
        path_of(t1.slots, newparent) is Some ==> path_of(t1.slots, ino) == Some(
            path_of_components(chain_of(t1.slots, newparent, t1.slots.len())->0.push(newname)),
        ),
{
    let i = ino as int;
    lemma_find_live_from_some(t0.slots, parent, name, 2, i);
    assert(is_live_at(t1.slots, i, newparent, newname));
    lemma_find_live_at(t1.slots, newparent, newname, 2, i);
    assert forall|j: int| !is_live_at(t1.slots, j, parent, name) by {
        if is_live_at(t1.slots, j, parent, name) {
            if j != i {
                match find_live(t0.slots, newparent, newname) {
                    Some(v) => {
                        if j != v {
                            assert(is_live_at(t0.slots, j, parent, name));
                            lemma_find_live_at(t0.slots, parent, name, 2, j);
                        } else {
                            lemma_find_live_from_some(t0.slots, newparent, newname, 2, v);
                        }
                    },
                    None => {
                        assert(is_live_at(t0.slots, j, parent, name));
                        lemma_find_live_at(t0.slots, parent, name, 2, j);
                    },
                }
            }
        }
    }
    lemma_find_live_none_when(t1.slots, parent, name, 2);
    assert forall|fuel: nat| #[trigger] chain_of(t1.slots, newparent, fuel) is Some implies chain_of(
        t1.slots,
        ino,
        (fuel + 1) as nat,
    ) == Some(chain_of(t1.slots, newparent, fuel)->0.push(newname)) by {
        lemma_child_chain(t1.slots, ino, chain_of(t1.slots, newparent, fuel)->0, fuel);
    }
    if path_of(t1.slots, newparent) is Some {
        let len = t1.slots.len();
        let c = chain_of(t1.slots, newparent, len)->0.push(newname);
        lemma_chain_len_bound(t1.slots, ino, (len + 1) as nat, c);
        lemma_chain_fuel_mono(t1.slots, ino, (len - 2) as nat, len);
    }
}

/// A parent-link walk that avoids `target` keeps avoiding it across a state
/// change in which no slot other than `target` gains a new parent link:
/// slots may disappear or be minted at the end, and the walk can only
/// follow the same links as before, or stop earlier.
proof fn lemma_walk_still_avoids(t0: Seq<Slot>, t1: Seq<Slot>, node: u64, target: int, fuel: nat)
    requires
        !on_ancestry(t0, node, target, fuel),
        t0.len() <= t1.len(),
        forall|m: int|
            0 <= m < t1.len() && m != target && is_used(#[trigger] t1[m]) ==> m < t0.len()
                && is_used(t0[m]) && entry_of(t1[m]).parent == entry_of(t0[m]).parent,
    ensures
        !on_ancestry(t1, node, target, fuel),
    decreases fuel,
{
    if !(node == 1 || fuel == 0 || !inode_exists(t1, node)) {
        lemma_walk_still_avoids(
            t0,
            t1,
            entry_of(t1[node as int]).parent,
            target,
            (fuel - 1) as nat,
        );
    }
}

/// A parent-link walk never reaches a number the table has no slot for:
/// every parent link points inside the table.
proof fn lemma_walk_stays_in_range(t: Seq<Slot>, node: u64, target: int, fuel: nat)
    requires
        parents_ok(t),
        target >= t.len(),
        (node as int) < t.len(),
    ensures
        !on_ancestry(t, node, target, fuel),
    decreases fuel,
{
    if !(node == 1 || fuel == 0 || !inode_exists(t, node)) {
        lemma_walk_stays_in_range(t, entry_of(t[node as int]).parent, target, (fuel - 1) as nat);
    }
}

/// Allocation introduces no cycle either: a freed slot is reused only when
/// the parent's ancestry walk avoids it, and a minted number lies beyond
/// every parent link the table holds — so after a fresh allocation the new
/// entry's parent walk never returns to the entry.
pub proof fn lemma_allocate_no_cycle(
    t0: TableView,
    t1: TableView,
    parent: u64,
    name: Seq<char>,
    kind: FileType,
    ino: u64,
)
    requires
        table_wf(t0),
        find_live(t0.slots, parent, name) is None,
        allocate_ensures(t0, t1, parent, name, kind, Ok(ino)),
    ensures
        is_used(t1.slots[ino as int]),
        entry_of(t1.slots[ino as int]).parent == parent,
        !on_ancestry(t1.slots, parent, ino as int, t1.slots.len()),
{
    if t0.free_list.len() > 0 && !on_ancestry(
        t0.slots,
        parent,
        t0.free_list.last() as int,
        t0.slots.len(),
    ) {
        assert(t0.free_list[t0.free_list.len() - 1] == ino);
        assert(2 <= t0.free_list[t0.free_list.len() - 1] < t0.slots.len());
        lemma_walk_still_avoids(t0.slots, t1.slots, parent, ino as int, t0.slots.len());
    } else {
        lemma_walk_stays_in_range(t0.slots, parent, ino as int, t1.slots.len());
        lemma_walk_still_avoids(t0.slots, t1.slots, parent, ino as int, t1.slots.len());
    }
}

/// No cycle is ever introduced: a rename only succeeds when the parent-link
/// walk from the destination parent does not pass through the entry being
/// renamed, and after the one atomic step that is still so — the entry has
/// not become an ancestor of its own new parent, and no other entry gained
/// a parent link at all.
pub proof fn lemma_rename_no_cycle(
    t0: TableView,
    t1: TableView,
    parent: u64,
    name: Seq<char>,
    newparent: u64,
    newname: Seq<char>,
    ino: u64,
)
    requires
        table_wf(t0),
        find_live(t0.slots, parent, name) == Some(ino as int),
        !(parent == newparent && name == newname),
        rename_ensures(t0, t1, parent, name, newparent, newname, Ok(())),
    ensures
        entry_of(t1.slots[ino as int]).parent == newparent,
        !on_ancestry(t0.slots, newparent, ino as int, t0.slots.len()),
        !on_ancestry(t1.slots, newparent, ino as int, t1.slots.len()),
{
    lemma_find_live_from_some(t0.slots, parent, name, 2, ino as int);
    match find_live(t0.slots, newparent, newname) {
        Some(v) => {
            lemma_find_live_from_some(t0.slots, newparent, newname, 2, v);
        },
        None => {},
    }
    lemma_walk_still_avoids(t0.slots, t1.slots, newparent, ino as int, t0.slots.len());
}

/// Delete while open: unlinking a name whose entry still has outstanding
/// references removes the name from the index — a new lookup of it finds
/// nothing — while the entry itself, and every inode that was resolvable
/// before, keeps resolving to the very same path until the count reaches
/// zero.
pub proof fn lemma_unlink_keeps_resolvable(
    t0: TableView,
    t1: TableView,
    parent: u64,
    name: Seq<char>,
    ino: u64,
)
    requires
        table_wf(t0),
        find_live(t0.slots, parent, name) == Some(ino as int),
        entry_of(t0.slots[ino as int]).lookup_count > 0,
        unlink_ensures(t0, t1, parent, name, Ok(())),
    ensures
        find_live(t1.slots, parent, name) is None,
        forall|j: u64, fuel: nat|
            #[trigger] chain_of(t0.slots, j, fuel) is Some ==> chain_of(t1.slots, j, fuel)
                == chain_of(t0.slots, j, fuel),
        forall|j: u64| #[trigger] path_of(t1.slots, j) == path_of(t0.slots, j),
        inode_exists(t1.slots, ino),
{
    let i = ino as int;
    lemma_find_live_from_some(t0.slots, parent, name, 2, i);
    assert forall|j: int| !is_live_at(t1.slots, j, parent, name) by {
        if is_live_at(t1.slots, j, parent, name) && j != i {
            assert(is_live_at(t0.slots, j, parent, name));
            lemma_find_live_at(t0.slots, parent, name, 2, j);
        }
    }
    lemma_find_live_none_when(t1.slots, parent, name, 2);
    assert forall|j: u64, fuel: nat| #[trigger] chain_of(t0.slots, j, fuel) is Some implies chain_of(
        t1.slots,
        j,
        fuel,
    ) == chain_of(t0.slots, j, fuel) by {
        lemma_chain_frame(t0.slots, t1.slots, j, fuel);
    }
    assert forall|j: u64| #[trigger] path_of(t1.slots, j) == path_of(t0.slots, j) by {
        if chain_of(t0.slots, j, t0.slots.len()) is Some {
            lemma_chain_frame(t0.slots, t1.slots, j, t0.slots.len());
        } else if chain_of(t1.slots, j, t1.slots.len()) is Some {
            lemma_chain_frame(t1.slots, t0.slots, j, t1.slots.len());
        }
    }
}

/// Once the lookup count of an unlinked entry reaches zero, the entry is
/// gone: its inode number no longer resolves at all.
pub proof fn lemma_destroyed_unresolvable(t: TableView, ino: u64)
    requires
        t.slots.len() >= 2,
        ino != 1,
        !inode_exists(t.slots, ino),
    ensures
        path_of(t.slots, ino) is None,
{
}

} // verus!
