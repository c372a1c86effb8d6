//! The disk-usage tree: what a directory walk builds from the sizes it
//! reads. The walk itself (reading directories, staying on one filesystem,
//! reporting progress) is the application's; each directory's node is
//! assembled here.

use vstd::prelude::*;
use vstd::string::StringExecFns;

verus! {

broadcast use vstd::seq_lib::group_seq_properties;

/// A file or directory with its size in bytes. A directory's size is the
/// sum of everything beneath it; `children` holds the entries kept within
/// the depth limit, largest first.
#[derive(Debug)]
pub struct Node {
    pub name: String,
    pub size: u64,
    pub is_dir: bool,
    pub children: Vec<Node>,
}

/// `a + b`, or `u64::MAX` when that does not fit.
pub open spec fn sat_add(a: nat, b: nat) -> nat {
    if a + b > u64::MAX {
        u64::MAX as nat
    } else {
        a + b
    }
}

/// The sizes of `s` added up in order, saturating at `u64::MAX`.
pub open spec fn total_size(s: Seq<Node>) -> nat
    decreases s.len(),
{
    if s.len() == 0 {
        0
    } else {
        sat_add(total_size(s.drop_last()), s.last().size as nat)
    }
}

/// Where `x` goes among `s`: before the first entry smaller than it, that
/// is after every entry at least as large.
pub open spec fn slot_from(s: Seq<Node>, size: u64, i: int) -> int
    decreases s.len() - i,
{
    if i >= s.len() {
        s.len() as int
    } else if s[i].size < size {
        i
    } else {
        slot_from(s, size, i + 1)
    }
}

/// `s` sorted largest first; entries of equal size keep their order (each
/// entry in turn is placed after every earlier one at least as large).
pub open spec fn largest_first(s: Seq<Node>) -> Seq<Node>
    decreases s.len(),
{
    if s.len() == 0 {
        Seq::empty()
    } else {
        let r = largest_first(s.drop_last());
        r.insert(slot_from(r, s.last().size, 0), s.last())
    }
}

/// Whether sizes never grow along `s`.
pub open spec fn sizes_descending(s: Seq<Node>) -> bool {
    forall|i: int, j: int| 0 <= i <= j < s.len() ==> s[i].size >= s[j].size
}

proof fn lemma_slot_from(s: Seq<Node>, size: u64, i: int)
    requires
        0 <= i <= s.len(),
    ensures
        i <= slot_from(s, size, i) <= s.len(),
        forall|k: int| i <= k < slot_from(s, size, i) ==> s[k].size >= size,
        slot_from(s, size, i) < s.len() ==> s[slot_from(s, size, i)].size < size,
    decreases s.len() - i,
{
    if i < s.len() && s[i].size >= size {
        lemma_slot_from(s, size, i + 1);
    }
}

/// Sorting keeps every entry and orders them largest first.
pub proof fn lemma_largest_first(s: Seq<Node>)
    ensures
        largest_first(s).to_multiset() == s.to_multiset(),
        largest_first(s).len() == s.len(),
        sizes_descending(largest_first(s)),
    decreases s.len(),
{
    broadcast use vstd::seq_lib::group_to_multiset_ensures;

    if s.len() > 0 {
        let r = largest_first(s.drop_last());
        lemma_largest_first(s.drop_last());
        let x = s.last();
        let p = slot_from(r, x.size, 0);
        lemma_slot_from(r, x.size, 0);
        let t = r.insert(p, x);
        assert(s == s.drop_last().push(x));
        vstd::seq_lib::lemma_seq_union_to_multiset_commutative(r.take(p), seq![x]);
        assert(t == r.take(p) + seq![x] + r.skip(p));
        assert(r == r.take(p) + r.skip(p));
        vstd::seq_lib::lemma_multiset_commutative(r.take(p) + seq![x], r.skip(p));
        vstd::seq_lib::lemma_multiset_commutative(r.take(p), seq![x]);
        vstd::seq_lib::lemma_multiset_commutative(r.take(p), r.skip(p));
        assert forall|i: int, j: int| 0 <= i <= j < t.len() implies t[i].size >= t[j].size by {
            if j < p {
                assert(t[i] == r[i] && t[j] == r[j]);
            } else if j == p {
                if i < p {
                    assert(t[i] == r[i]);
                }
            } else if i < p {
                assert(t[i] == r[i] && t[j] == r[j - 1]);
            } else if i == p {
                assert(t[j] == r[j - 1]);
                if p < r.len() {
                    assert(r[p].size >= r[j - 1].size);
                }
            } else {
                assert(t[i] == r[i - 1] && t[j] == r[j - 1]);
            }
        }
    }
}

/// A file (or anything that is not a directory) of `size` bytes.
pub fn leaf(name: &str, size: u64, is_dir: bool) -> (n: Node)
    ensures
        n.name@ == name@,
        n.size == size,
        n.is_dir == is_dir,
        n.children@.len() == 0,
{
    Node { name: String::from_str(name), size, is_dir, children: Vec::new() }
}

/// The node of a directory whose entries were scanned into `entries`: its
/// size is their total (saturating), and with `depth_left` above zero it
/// keeps them, largest first; at the depth limit it keeps none.
pub fn dir_node(name: &str, entries: Vec<Node>, depth_left: u32) -> (n: Node)
    ensures
        n.name@ == name@,
        n.is_dir,
        n.size == total_size(entries@),
        n.children@ == if depth_left > 0 {
            largest_first(entries@)
        } else {
            Seq::<Node>::empty()
        },
{
    let mut total: u64 = 0;
    let ghost all = entries@;
    let mut sorted: Vec<Node> = Vec::new();
    let mut rest = entries;
    let mut consumed: usize = 0;
    let entries_len = rest.len();
    assert(rest@ == all.skip(0));
    while rest.len() > 0
        invariant
            consumed + rest@.len() == all.len(),
            all.len() == entries_len,
            rest@ == all.skip(consumed as int),
            total == total_size(all.take(consumed as int)),
            sorted@ == largest_first(all.take(consumed as int)),
        decreases rest@.len(),
    {
        let x = rest.remove(0);
        assert(x == all[consumed as int]);
        let ghost t = all.take(consumed + 1);
        assert(t.drop_last() == all.take(consumed as int));
        assert(t.last() == x);
        total = if total <= u64::MAX - x.size {
            total + x.size
        } else {
            u64::MAX
        };
        let mut p: usize = 0;
        while p < sorted.len() && sorted[p].size >= x.size
            invariant
                p <= sorted@.len(),
                slot_from(sorted@, x.size, p as int) == slot_from(sorted@, x.size, 0),
            decreases sorted@.len() - p,
        {
            p = p + 1;
        }
        assert(slot_from(sorted@, x.size, p as int) == p);
        sorted.insert(p, x);
        consumed = consumed + 1;
        assert(rest@ =~= all.skip(consumed as int));
    }
    assert(all.take(all.len() as int) == all);
    let children = if depth_left > 0 {
        sorted
    } else {
        Vec::new()
    };
    Node { name: String::from_str(name), size: total, is_dir: true, children }
}

/// How often, in entries visited, a walk reports progress and asks whether
/// to go on.
pub const CHECKPOINT_EVERY: u64 = 512;

/// Whether the walk reports progress after its `visited`-th entry.
pub fn is_checkpoint(visited: u64) -> (b: bool)
    ensures
        b == (visited % CHECKPOINT_EVERY == 0),
{
    visited % CHECKPOINT_EVERY == 0
}

/// The first `limit` children of `node`: its largest entries.
pub fn largest_children(node: &Node, limit: usize) -> (r: Vec<&Node>)
    ensures
        r@.len() == if node.children@.len() < limit {
            node.children@.len()
        } else {
            limit as nat
        },
        forall|i: int| 0 <= i < r@.len() ==> *r@[i] == node.children@[i],
{
    let mut r: Vec<&Node> = Vec::new();
    let n = if node.children.len() < limit {
        node.children.len()
    } else {
        limit
    };
    for i in 0..n
        invariant
            n <= node.children@.len(),
            r@.len() == i,
            forall|k: int| 0 <= k < i ==> *r@[k] == node.children@[k],
    {
        r.push(&node.children[i]);
    }
    r
}

} // verus!
