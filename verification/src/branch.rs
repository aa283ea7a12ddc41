//! The 16-way fan-out node: one fragment sequence per nibble slot and an
//! optional terminal value.

use vstd::prelude::*;

use crate::rlp::RlpNodes;

verus! {

/// The fragment sequences of a slot array, slot by slot.
pub open spec fn children_seqs(children: [Vec<RlpNodes>; 16]) -> Seq<Seq<RlpNodes>> {
    Seq::new(16, |i: int| children@[i]@)
}

/// The byte sequence of an optional value.
pub open spec fn opt_bytes(value: Option<Vec<u8>>) -> Option<Seq<u8>> {
    match value {
        Some(v) => Some(v@),
        None => None,
    }
}

/// Payload contribution of one slot: its fragment count when occupied, or
/// one byte (the encoding of an empty string) when empty.
pub open spec fn slot_payload(slot: Seq<RlpNodes>) -> int {
    if slot.len() == 0 {
        1
    } else {
        slot.len() as int
    }
}

/// Payload contribution of the first `n` slots.
pub open spec fn slots_payload(children: Seq<Seq<RlpNodes>>, n: int) -> int
    decreases n,
{
    if n <= 0 {
        0
    } else {
        slots_payload(children, n - 1) + slot_payload(children[n - 1])
    }
}

/// Payload contribution of the value: its byte length when present, or one
/// byte when absent.
pub open spec fn value_payload(value: Option<Seq<u8>>) -> int {
    match value {
        Some(v) => v.len() as int,
        None => 1,
    }
}

/// Reading a slot: the fragment sequence at an in-range, occupied slot, and
/// nothing for an out-of-range index or an empty slot.
pub open spec fn slot_lookup(children: Seq<Seq<RlpNodes>>, index: int) -> Option<Seq<RlpNodes>> {
    if 0 <= index < 16 && children[index].len() > 0 {
        Some(children[index])
    } else {
        None
    }
}

/// The slot array after a list of updates, applied in order: each update
/// overwrites its slot, so a later update to the same slot wins.
pub open spec fn apply_updates(
    children: Seq<Seq<RlpNodes>>,
    updates: Seq<(usize, Seq<RlpNodes>)>,
) -> Seq<Seq<RlpNodes>>
    decreases updates.len(),
{
    if updates.len() == 0 {
        children
    } else {
        apply_updates(children, updates.drop_last()).update(
            updates.last().0 as int,
            updates.last().1,
        )
    }
}

/// The slot updates held by an update vector, index and fragment sequence.
pub open spec fn updates_view(updates: Seq<(usize, Vec<RlpNodes>)>) -> Seq<(usize, Seq<RlpNodes>)> {
    updates.map_values(|u: (usize, Vec<RlpNodes>)| (u.0, u.1@))
}

/// A branch node: sixteen child slots, one per nibble, each holding the
/// pre-rendered encoded fragments of that child, plus an optional value.
pub struct BranchNode {
    children: [Vec<RlpNodes>; 16],
    value: Option<Vec<u8>>,
}

impl BranchNode {
    /// The fragment sequences of the sixteen slots.
    pub closed spec fn children_view(self) -> Seq<Seq<RlpNodes>> {
        children_seqs(self.children)
    }

    /// The bytes of the terminal value, if one is present.
    pub closed spec fn value_view(self) -> Option<Seq<u8>> {
        opt_bytes(self.value)
    }

    /// Total encoded payload length: each slot contributes its fragment
    /// count (or one byte when empty), the value its byte length (or one
    /// byte when absent).
    pub open spec fn spec_payload_length(self) -> int {
        slots_payload(self.children_view(), 16) + value_payload(self.value_view())
    }

    /// Creates a branch node with the given slots and value.
    pub fn new(children: [Vec<RlpNodes>; 16], value: Option<Vec<u8>>) -> (r: Self)
        ensures
            r.children_view() == children_seqs(children),
            r.value_view() == opt_bytes(value),
    {
        BranchNode { children, value }
    }

    /// Computes the payload length of this node for outer length-prefix
    /// accounting.
    pub fn rlp_payload_length(&self) -> (r: usize)
        requires
            self.spec_payload_length() <= usize::MAX,
        ensures
            r == self.spec_payload_length(),
    {
        proof {
            lemma_slots_payload_bounds(self.children_view(), 16);
        }
        let mut payload_length: usize = 0;
        let mut i: usize = 0;
        while i < 16
            invariant
                i <= 16,
                payload_length == slots_payload(self.children_view(), i as int),
                self.spec_payload_length() <= usize::MAX,
            decreases 16 - i,
        {
            proof {
                lemma_slots_payload_mono(self.children_view(), i + 1, 16);
            }
            let slot_len = self.children[i].len();
            if slot_len == 0 {
                payload_length = payload_length + 1;
            } else {
                payload_length = payload_length + slot_len;
            }
            i += 1;
        }
        match &self.value {
            Some(value) => payload_length + value.len(),
            None => payload_length + 1,
        }
    }

    /// Returns the fragments of the slot at `index`: nothing when the index
    /// is out of range or the slot is empty.
    pub fn get_child(&self, index: usize) -> (r: Option<&Vec<RlpNodes>>)
        ensures
            match r {
                Some(c) => slot_lookup(self.children_view(), index as int) == Some(c@),
                None => slot_lookup(self.children_view(), index as int) is None,
            },
    {
        if index >= 16 {
            return None;
        }
        let child = &self.children[index];
        if child.len() != 0 {
            Some(child)
        } else {
            None
        }
    }

    /// Reads several slots at once, preserving the order of the given
    /// indices; each position follows the `get_child` rule.
    pub fn batch_get_children(&self, indices: &[usize]) -> (r: Vec<Option<&Vec<RlpNodes>>>)
        ensures
            r@.len() == indices@.len(),
            forall|i: int|
                0 <= i < indices@.len() ==> (match #[trigger] r@[i] {
                    Some(c) => slot_lookup(self.children_view(), indices@[i] as int) == Some(c@),
                    None => slot_lookup(self.children_view(), indices@[i] as int) is None,
                }),
    {
        let mut results: Vec<Option<&Vec<RlpNodes>>> = Vec::new();
        let mut i: usize = 0;
        while i < indices.len()
            invariant
                i <= indices@.len(),
                results@.len() == i,
                forall|k: int|
                    0 <= k < i ==> (match #[trigger] results@[k] {
                        Some(c) => slot_lookup(self.children_view(), indices@[k] as int) == Some(
                            c@,
                        ),
                        None => slot_lookup(self.children_view(), indices@[k] as int) is None,
                    }),
            decreases indices@.len() - i,
        {
            results.push(self.get_child(indices[i]));
            i += 1;
        }
        results
    }

    /// Overwrites the slot at `index` with the given fragments; an empty
    /// vector clears the slot. The value is untouched.
    pub fn set_child(&mut self, node: Vec<RlpNodes>, index: usize)
        requires
            index < 16,
        ensures
            final(self).children_view() == old(self).children_view().update(index as int, node@),
            final(self).value_view() == old(self).value_view(),
    {
        let ghost node_view = node@;
        self.children[index] = node;
        proof {
            assert(self.children_view() =~= old(self).children_view().update(
                index as int,
                node_view,
            ));
        }
    }

    /// Applies the given slot updates in order; a later update to the same
    /// slot overrides an earlier one. The value is untouched.
    pub fn batch_set_children(&mut self, updates: Vec<(usize, Vec<RlpNodes>)>)
        requires
            forall|i: int| 0 <= i < updates@.len() ==> (#[trigger] updates@[i]).0 < 16,
        ensures
            final(self).children_view() == apply_updates(
                old(self).children_view(),
                updates_view(updates@),
            ),
            final(self).value_view() == old(self).value_view(),
    {
        let ghost uv = updates_view(updates@);
        let mut i: usize = 0;
        while i < updates.len()
            invariant
                i <= updates@.len(),
                uv == updates_view(updates@),
                forall|k: int| 0 <= k < updates@.len() ==> (#[trigger] updates@[k]).0 < 16,
                self.children_view() == apply_updates(old(self).children_view(), uv.take(i as int)),
                self.value_view() == old(self).value_view(),
            decreases updates@.len() - i,
        {
            let index = updates[i].0;
            let node = copy_fragments(&updates[i].1);
            self.set_child(node, index);
            proof {
                assert(uv.take(i + 1).drop_last() =~= uv.take(i as int));
                assert(self.children_view() == apply_updates(
                    old(self).children_view(),
                    uv.take(i + 1),
                ));
            }
            i += 1;
        }
        proof {
            assert(uv.take(updates@.len() as int) =~= uv);
        }
    }
}

impl Default for BranchNode {
    /// Creates a branch node with every slot empty and no value.
    fn default() -> (r: Self)
        ensures
            r.children_view().len() == 16,
            forall|i: int| 0 <= i < 16 ==> (#[trigger] r.children_view()[i]).len() == 0,
            r.value_view() is None,
    {
        BranchNode {
            children: [
                Vec::new(),
                Vec::new(),
                Vec::new(),
                Vec::new(),
                Vec::new(),
                Vec::new(),
                Vec::new(),
                Vec::new(),
                Vec::new(),
                Vec::new(),
                Vec::new(),
                Vec::new(),
                Vec::new(),
                Vec::new(),
                Vec::new(),
                Vec::new(),
            ],
            value: None,
        }
    }
}

/// Copies a fragment sequence element by element.
fn copy_fragments(v: &Vec<RlpNodes>) -> (r: Vec<RlpNodes>)
    ensures
        r@ == v@,
{
    let mut r: Vec<RlpNodes> = Vec::new();
    let mut i: usize = 0;
    while i < v.len()
        invariant
            i <= v@.len(),
            r@ == v@.take(i as int),
        decreases v@.len() - i,
    {
        r.push(v[i]);
        proof {
            assert(r@ =~= v@.take(i + 1));
        }
        i += 1;
    }
    proof {
        assert(v@.take(v@.len() as int) =~= v@);
    }
    r
}

/// Slot payload sums are non-negative and at least the slot count, since
/// every slot contributes at least one byte.
pub proof fn lemma_slots_payload_bounds(children: Seq<Seq<RlpNodes>>, n: int)
    requires
        n >= 0,
    ensures
        slots_payload(children, n) >= n,
    decreases n,
{
    if n > 0 {
        lemma_slots_payload_bounds(children, n - 1);
    }
}

/// Slot payload sums grow with the number of slots counted.
pub proof fn lemma_slots_payload_mono(children: Seq<Seq<RlpNodes>>, m: int, n: int)
    requires
        0 <= m <= n,
    ensures
        slots_payload(children, m) <= slots_payload(children, n),
    decreases n - m,
{
    if m < n {
        lemma_slots_payload_mono(children, m, n - 1);
    }
}

/// A branch node with every slot empty and no value has payload length 17:
/// sixteen empty-slot placeholders and one empty-value placeholder.
pub proof fn lemma_empty_branch_payload(b: BranchNode)
    requires
        forall|i: int| 0 <= i < 16 ==> (#[trigger] b.children_view()[i]).len() == 0,
        b.value_view() is None,
    ensures
        b.spec_payload_length() == 17,
{
    lemma_all_empty_slots_payload(b.children_view(), 16);
}

/// When the first `n` slots are all empty, they contribute exactly `n`.
proof fn lemma_all_empty_slots_payload(children: Seq<Seq<RlpNodes>>, n: int)
    requires
        0 <= n <= 16,
        forall|i: int| 0 <= i < 16 ==> (#[trigger] children[i]).len() == 0,
    ensures
        slots_payload(children, n) == n,
    decreases n,
{
    if n > 0 {
        lemma_all_empty_slots_payload(children, n - 1);
    }
}

/// Writing a slot and reading it back returns the same fragments, or
/// nothing when the written sequence was empty; other slots are unchanged,
/// and any out-of-range index reads as nothing.
pub proof fn lemma_set_child_then_get(
    children: Seq<Seq<RlpNodes>>,
    index: usize,
    fragments: Seq<RlpNodes>,
)
    requires
        children.len() == 16,
        index < 16,
    ensures
        slot_lookup(children.update(index as int, fragments), index as int) == (if fragments.len()
            == 0 {
            None
        } else {
            Some(fragments)
        }),
        forall|j: int|
            0 <= j < 16 && j != index ==> slot_lookup(
                children.update(index as int, fragments),
                j,
            ) == slot_lookup(children, j),
        forall|j: int|
            j >= 16 ==> slot_lookup(children.update(index as int, fragments), j) is None,
{
}

/// Last write wins: a batch holding two updates to the same slot leaves the
/// second one in place, exactly as two single writes in order would.
pub proof fn lemma_batch_set_last_write_wins(
    children: Seq<Seq<RlpNodes>>,
    index: usize,
    first: Seq<RlpNodes>,
    second: Seq<RlpNodes>,
)
    requires
        children.len() == 16,
        index < 16,
    ensures
        apply_updates(children, seq![(index, first), (index, second)]) == children.update(
            index as int,
            first,
        ).update(index as int, second),
        apply_updates(children, seq![(index, first), (index, second)])[index as int] == second,
{
    let ups = seq![(index, first), (index, second)];
    let one = seq![(index, first)];
    let none = Seq::<(usize, Seq<RlpNodes>)>::empty();
    assert(ups.drop_last() =~= one);
    assert(one.drop_last() =~= none);
    assert(apply_updates(children, none) == children);
    assert(apply_updates(children, one) == children.update(index as int, first));
}

} // verus!
