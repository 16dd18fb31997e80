//! The order in which the 88 notes are visited during a session.
//!
//! The engine depends only on the order being a bijection over the 88 table
//! indices: every key is visited exactly once. The traversal used here is
//! chromatic, from A0 up to C8.

use vstd::prelude::*;
use crate::notes::Note;
use crate::notes::is_note_at;
use crate::notes::note_at;

verus! {

/// A total ordering over the 88 note indices: the traversal strategy of a
/// session. The engine depends only on the order being a bijection; the
/// chromatic strategy visits the keys from A0 up to C8.
#[derive(Debug, Clone, Copy, PartialEq, Eq, Structural)]
pub enum TuningOrder {
    /// Visit the keys in chromatic order, lowest first.
    Chromatic,
}

/// Table index of the note visited at position `i` of the traversal:
/// chromatic order visits index `i` itself.
pub open spec fn spec_order_index(i: int) -> int {
    i
}

impl TuningOrder {
    /// Create the chromatic tuning order.
    pub fn new() -> (r: TuningOrder)
        ensures
            r == TuningOrder::Chromatic,
    {
        TuningOrder::Chromatic
    }

    /// The note visited at position `index` of the traversal, for positions
    /// 0 to 87.
    pub fn note_at(&self, index: usize) -> (r: Option<Note>)
        ensures
            index < 88 ==> (r is Some && is_note_at(r->Some_0, spec_order_index(index as int))),
            index >= 88 ==> r is None,
    {
        note_at(index)
    }
}

impl Default for TuningOrder {
    fn default() -> (r: TuningOrder) {
        TuningOrder::new()
    }
}

/// Position at which the note of table index `k` is visited; the inverse of
/// `spec_order_index`.
pub open spec fn spec_order_position(k: int) -> int {
    k
}

/// The tuning order is a bijection on the 88 note indices: every position
/// maps into the table, no two positions visit the same note, and every
/// note is visited at exactly one position, given by `spec_order_position`.
pub proof fn lemma_tuning_order_bijective()
    ensures
        forall|i: int|
            0 <= i < 88 ==> 0 <= #[trigger] spec_order_index(i) < 88
                && spec_order_position(spec_order_index(i)) == i,
        forall|k: int|
            0 <= k < 88 ==> 0 <= #[trigger] spec_order_position(k) < 88
                && spec_order_index(spec_order_position(k)) == k,
        forall|i: int, j: int|
            0 <= i < 88 && 0 <= j < 88 && i != j ==> spec_order_index(i) != spec_order_index(j),
{
}

} // verus!
