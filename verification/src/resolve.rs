//! The path resolver: walks parent links in the inode table from a given
//! inode up to the root and concatenates the names into the canonical
//! absolute path used to call the path-based implementer API.
//!
//! The root entry's parent pointing to itself is not a true cycle: the walk
//! treats reaching inode 1 as its terminal condition. A chain that reaches
//! the root never visits a slot twice, so walking as many steps as the table
//! has slots is always enough; a walk that runs out of steps, or hits a
//! missing parent link, reports `ENOENT` for that single request — an
//! internal-consistency failure that must not abort anything else.

use vstd::prelude::*;
use vstd::string::StringExecFns;
use crate::inode_table::{entry_of, inode_exists, Inode, InodeTable, Slot};
use crate::types::ENOENT;

verus! {

/// The chain of names leading from the root down to `ino`: the root itself
/// has the empty chain; every other inode appends its own name to its
/// parent's chain. `None` when a link along the way is missing or the walk
/// does not reach the root within `fuel` steps.
pub open spec fn chain_of(t: Seq<Slot>, ino: u64, fuel: nat) -> Option<Seq<Seq<char>>>
    decreases fuel,
{
    if ino == 1 {
        Some(Seq::empty())
    } else if fuel == 0 {
        None
    } else if !inode_exists(t, ino) {
        None
    } else {
        match chain_of(t, entry_of(t[ino as int]).parent, (fuel - 1) as nat) {
            None => None,
            Some(c) => Some(c.push(entry_of(t[ino as int]).name@)),
        }
    }
}

/// Name components joined into a path: every component is prefixed by one
/// separator.
pub open spec fn joined(c: Seq<Seq<char>>) -> Seq<char>
    decreases c.len(),
{
    if c.len() == 0 {
        Seq::empty()
    } else {
        joined(c.drop_last()) + seq!['/'] + c.last()
    }
}

/// The canonical absolute path spelled by a chain of components: "/" for
/// the empty chain (the root), otherwise each component prefixed by '/'.
pub open spec fn path_of_components(c: Seq<Seq<char>>) -> Seq<char> {
    if c.len() == 0 {
        seq!['/']
    } else {
        joined(c)
    }
}

/// The canonical path of `ino` in table state `t`, or `None` when its
/// ancestry does not reach the root. A root-reaching chain never repeats a
/// slot, so giving the walk one step per slot decides the question.
pub open spec fn path_of(t: Seq<Slot>, ino: u64) -> Option<Seq<char>> {
    match chain_of(t, ino, t.len()) {
        None => None,
        Some(c) => Some(path_of_components(c)),
    }
}

/// A chain found with some fuel is found, unchanged, with any larger fuel.
pub proof fn lemma_chain_fuel_mono(t: Seq<Slot>, ino: u64, fuel: nat, fuel2: nat)
    requires
        chain_of(t, ino, fuel) is Some,
        fuel <= fuel2,
    ensures
        chain_of(t, ino, fuel2) == chain_of(t, ino, fuel),
    decreases fuel,
{
    if ino != 1 {
        lemma_chain_fuel_mono(
            t,
            entry_of(t[ino as int]).parent,
            (fuel - 1) as nat,
            (fuel2 - 1) as nat,
        );
    }
}

/// The chain a node has is the same at every fuel that suffices.
pub proof fn lemma_chain_unique(t: Seq<Slot>, ino: u64, fuel1: nat, fuel2: nat)
    requires
        chain_of(t, ino, fuel1) is Some,
        chain_of(t, ino, fuel2) is Some,
    ensures
        chain_of(t, ino, fuel1) == chain_of(t, ino, fuel2),
{
    if fuel1 <= fuel2 {
        lemma_chain_fuel_mono(t, ino, fuel1, fuel2);
    } else {
        lemma_chain_fuel_mono(t, ino, fuel2, fuel1);
    }
}

/// A chain found with some fuel is found with exactly one step of fuel per
/// component.
pub proof fn lemma_chain_exact_fuel(t: Seq<Slot>, ino: u64, fuel: nat, c: Seq<Seq<char>>)
    requires
        chain_of(t, ino, fuel) == Some(c),
    ensures
        chain_of(t, ino, c.len()) == Some(c),
    decreases fuel,
{
    if ino != 1 {
        let parent = entry_of(t[ino as int]).parent;
        let cp = chain_of(t, parent, (fuel - 1) as nat)->0;
        lemma_chain_exact_fuel(t, parent, (fuel - 1) as nat, cp);
        lemma_chain_fuel_mono(t, parent, cp.len(), (c.len() - 1) as nat);
    }
}

/// The nodes a successful walk passes through, from `ino` up to but not
/// including the root.
pub open spec fn visit_seq(t: Seq<Slot>, ino: u64, fuel: nat) -> Seq<u64>
    decreases fuel,
{
    if ino == 1 || fuel == 0 || !inode_exists(t, ino) {
        Seq::empty()
    } else {
        seq![ino] + visit_seq(t, entry_of(t[ino as int]).parent, (fuel - 1) as nat)
    }
}

/// A walk that reaches the root visits one used non-root slot per chain
/// component, and from the node `a` steps along, the rest of the walk is
/// the chain with its last `a` components dropped.
pub proof fn lemma_visit_chain(t: Seq<Slot>, ino: u64, fuel: nat, c: Seq<Seq<char>>, a: int)
    requires
        chain_of(t, ino, fuel) == Some(c),
        0 <= a < visit_seq(t, ino, fuel).len(),
    ensures
        visit_seq(t, ino, fuel).len() == c.len(),
        2 <= visit_seq(t, ino, fuel)[a] < t.len(),
        chain_of(t, visit_seq(t, ino, fuel)[a], (fuel - a) as nat) == Some(
            c.take(c.len() - a),
        ),
    decreases fuel,
{
    let v = visit_seq(t, ino, fuel);
    let parent = entry_of(t[ino as int]).parent;
    let cp = chain_of(t, parent, (fuel - 1) as nat)->0;
    if a == 0 {
        assert(v[0] == ino);
        if c.len() > 0 {
            lemma_visit_chain_len(t, parent, (fuel - 1) as nat, cp);
        }
        assert(c.take(c.len() - 0) =~= c);
    } else {
        lemma_visit_chain(t, parent, (fuel - 1) as nat, cp, a - 1);
        assert(v[a] == visit_seq(t, parent, (fuel - 1) as nat)[a - 1]);
        assert(cp.take(cp.len() - (a - 1)) =~= c.take(c.len() - a));
    }
}

/// A walk that reaches the root takes one step per chain component.
pub proof fn lemma_visit_chain_len(t: Seq<Slot>, ino: u64, fuel: nat, c: Seq<Seq<char>>)
    requires
        chain_of(t, ino, fuel) == Some(c),
    ensures
        visit_seq(t, ino, fuel).len() == c.len(),
    decreases fuel,
{
    if ino != 1 {
        let parent = entry_of(t[ino as int]).parent;
        lemma_visit_chain_len(t, parent, (fuel - 1) as nat, chain_of(t, parent, (fuel - 1) as nat)->0);
    }
}

/// A walk that reaches the root never passes the same slot twice: were a
/// slot visited twice, its parent links would loop and the walk could not
/// have reached the root at all.
pub proof fn lemma_visit_distinct(t: Seq<Slot>, ino: u64, fuel: nat, c: Seq<Seq<char>>, a: int, b: int)
    requires
        chain_of(t, ino, fuel) == Some(c),
        0 <= a < b < visit_seq(t, ino, fuel).len(),
    ensures
        visit_seq(t, ino, fuel)[a] != visit_seq(t, ino, fuel)[b],
{
    let v = visit_seq(t, ino, fuel);
    lemma_visit_chain(t, ino, fuel, c, a);
    lemma_visit_chain(t, ino, fuel, c, b);
    if v[a] == v[b] {
        lemma_chain_unique(t, v[a], (fuel - a) as nat, (fuel - b) as nat);
        assert(c.take(c.len() - a).len() == c.take(c.len() - b).len());
    }
}

/// A chain that reaches the root is shorter than the table: its walk visits
/// distinct used non-root slots, and the table has fewer than one of those
/// per slot.
pub proof fn lemma_chain_len_bound(t: Seq<Slot>, ino: u64, fuel: nat, c: Seq<Seq<char>>)
    requires
        t.len() >= 2,
        chain_of(t, ino, fuel) == Some(c),
    ensures
        c.len() + 2 <= t.len(),
        chain_of(t, ino, (t.len() - 2) as nat) == Some(c),
{
    let v = visit_seq(t, ino, fuel);
    lemma_visit_chain_len(t, ino, fuel, c);
    assert forall|a: int, b: int| 0 <= a < b < v.len() implies v[a] != v[b] by {
        lemma_visit_distinct(t, ino, fuel, c, a, b);
    }
    assert forall|a: int| 0 <= a < v.len() implies 2 <= #[trigger] v[a] < t.len() by {
        lemma_visit_chain(t, ino, fuel, c, a);
    }
    lemma_distinct_range_bound(v, 2, t.len() as int);
    lemma_chain_exact_fuel(t, ino, fuel, c);
    lemma_chain_fuel_mono(t, ino, c.len(), (t.len() - 2) as nat);
}

/// A sequence of distinct values drawn from [lo, hi) is no longer than the
/// interval.
proof fn lemma_distinct_range_bound(v: Seq<u64>, lo: int, hi: int)
    requires
        lo <= hi,
        forall|a: int, b: int| 0 <= a < b < v.len() ==> v[a] != v[b],
        forall|a: int| 0 <= a < v.len() ==> lo <= #[trigger] v[a] < hi,
    ensures
        v.len() <= hi - lo,
{
    let vi = v.map_values(|x: u64| x as int);
    assert(vi.no_duplicates()) by {
        assert forall|a: int, b: int|
            0 <= a < vi.len() && 0 <= b < vi.len() && a != b implies vi[a] != vi[b] by {
            if a < b {
                assert(v[a] != v[b]);
            } else {
                assert(v[b] != v[a]);
            }
        }
    }
    vi.unique_seq_to_set();
    vstd::seq_lib::seq_to_set_is_finite(vi);
    assert forall|x: int| vi.to_set().contains(x) implies vstd::set_lib::set_int_range(
        lo,
        hi,
    ).contains(x) by {
        let a = choose|a: int| 0 <= a < vi.len() && vi[a] == x;
        assert(lo <= v[a] < hi);
    }
    assert(vi.to_set().subset_of(vstd::set_lib::set_int_range(lo, hi)));
    vstd::set_lib::lemma_int_range(lo, hi);
    vstd::set_lib::lemma_len_subset(vi.to_set(), vstd::set_lib::set_int_range(lo, hi));
}

/// Walk parent links from `ino` to the root and return the canonical
/// absolute path: "/" for the root itself, otherwise the names from the
/// root down, each prefixed by '/'. Fails with `ENOENT` when `ino` is
/// unknown to the table or a link along its ancestry chain is missing.
pub fn resolve(table: &InodeTable, ino: Inode) -> (r: Result<String, i32>)
    ensures
        match r {
            Ok(p) => path_of(table@.slots, ino) == Some(p@),
            Err(e) => e == ENOENT && path_of(table@.slots, ino) is None,
        },
{
    let ghost t = table@.slots;
    let n = table.slot_count();
    let mut names: Vec<String> = Vec::new();
    let mut cur: Inode = ino;
    let mut steps: usize = 0;
    while cur != 1 && steps < n
        invariant
            n == t.len(),
            t == table@.slots,
            steps <= n,
            names@.len() == steps,
            chain_of(t, ino, n as nat) == match chain_of(t, cur, (n - steps) as nat) {
                None => None::<Seq<Seq<char>>>,
                Some(c) => Some(c + names@.map_values(|s: String| s@).reverse()),
            },
        decreases n - steps,
    {
        proof {
            if chain_of(t, cur, (n - steps) as nat) is Some {
                assert(chain_of(t, ino, n as nat) is Some);
            }
        }
        match table.entry(cur) {
            Err(_) => {
                return Err(ENOENT);
            },
            Ok((parent, name, _kind, _generation)) => {
                let ghost names0 = names@;
                names.push(name);
                proof {
                    let rev0 = names0.map_values(|s: String| s@).reverse();
                    let rev1 = names@.map_values(|s: String| s@).reverse();
                    assert(names@ == names0.push(name));
                    assert(names@.map_values(|s: String| s@) == names0.map_values(
                        |s: String| s@,
                    ).push(name@)) by {
                        assert(names@.map_values(|s: String| s@) =~= names0.map_values(
                            |s: String| s@,
                        ).push(name@));
                    }
                    assert(rev1 =~= seq![name@] + rev0);
                    match chain_of(t, parent, (n - steps - 1) as nat) {
                        None => {},
                        Some(c) => {
                            assert(c.push(name@) + rev0 =~= c + rev1);
                        },
                    }
                }
                cur = parent;
                steps = steps + 1;
            },
        }
    }
    if cur != 1 {
        // the walk ran out of steps without reaching the root: the chain is
        // cyclic or longer than the table itself, which no sequence of table
        // operations produces
        return Err(ENOENT);
    }
    proof {
        let rev = names@.map_values(|s: String| s@).reverse();
        assert(chain_of(t, cur, (n - steps) as nat) == Some(Seq::<Seq<char>>::empty()));
        assert(Seq::<Seq<char>>::empty() + rev =~= rev);
    }
    let ghost chain = names@.map_values(|s: String| s@).reverse();
    let mut path = String::new();
    if names.len() == 0 {
        path.append("/");
        proof {
            reveal_strlit("/");
            assert(path@ =~= seq!['/']);
        }
        return Ok(path);
    }
    let k = names.len();
    let mut j: usize = 0;
    while j < k
        invariant
            k == names@.len(),
            j <= k,
            chain == names@.map_values(|s: String| s@).reverse(),
            chain.len() == k,
            path@ == joined(chain.take(j as int)),
        decreases k - j,
    {
        path.append("/");
        path.append(names[k - 1 - j].as_str());
        proof {
            reveal_strlit("/");
            let pre = chain.take(j as int);
            let now = chain.take(j + 1 as int);
            assert(now.drop_last() =~= pre);
            assert(now.last() == chain[j as int]);
            assert(chain[j as int] == names@[k - 1 - j as int]@);
            assert(path@ =~= joined(pre) + seq!['/'] + now.last());
        }
        j = j + 1;
    }
    proof {
        assert(chain.take(k as int) =~= chain);
    }
    Ok(path)
}

} // verus!
