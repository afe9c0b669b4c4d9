//! The piece bag: a shuffled, non-repeating sequence of the seven piece
//! types, dispensed one at a time and refilled by the game loop once
//! exhausted. Between refills each type appears exactly once, whatever the
//! randomness source draws.

use vstd::pervasive::VecAdditionalExecFns;
use vstd::prelude::*;

use crate::piece_types::PieceType;
use crate::rng::next_u32;

verus! {

/// The bag's contents before shuffling, one piece of each type.
pub open spec fn full_bag() -> Seq<PieceType> {
    seq![
        PieceType::O,
        PieceType::J,
        PieceType::L,
        PieceType::S,
        PieceType::T,
        PieceType::Z,
        PieceType::I,
    ]
}

/// Swapping two entries of a sequence leaves its multiset of entries
/// unchanged.
proof fn lemma_swap_preserves_multiset<T>(s: Seq<T>, i: int, j: int)
    requires
        0 <= j < i < s.len(),
    ensures
        s.update(i, s[j]).update(j, s[i]).to_multiset() == s.to_multiset(),
{
    broadcast use vstd::seq_lib::group_to_multiset_ensures;
    broadcast use vstd::multiset::group_multiset_axioms;

    let s1 = s.update(i, s[j]);
    let s2 = s1.update(j, s[i]);
    assert(s.contains(s[i]));
    assert(s.to_multiset().count(s[i]) > 0);
    assert(s1.to_multiset() == s.to_multiset().insert(s[j]).remove(s[i]));
    assert(s2.to_multiset() == s1.to_multiset().insert(s[i]).remove(s1[j]));
    assert(s1[j] == s[j]);
    assert(s2.to_multiset() =~= s.to_multiset());
}

/// Shuffles a sequence in place: for each index `i` from the last down
/// to 1, draws `j = random mod i` and swaps positions `i` and `j`. The
/// result holds exactly the entries it started with, in some order.
pub fn fisher_yates_shuffle<T: Copy>(items: &mut Vec<T>, rng: &mut rand_chacha::ChaCha8Rng)
    ensures
        final(items)@.len() == old(items)@.len(),
        final(items)@.to_multiset() == old(items)@.to_multiset(),
{
    let len = items.len();
    if len == 0 {
        return ;
    }
    let mut i: usize = len - 1;
    while i >= 1
        invariant
            i < len,
            items@.len() == len,
            old(items)@.len() == len,
            items@.to_multiset() == old(items)@.to_multiset(),
        decreases i,
    {
        let j = (next_u32(rng) as usize) % i;
        let a = items[i];
        let b = items[j];
        proof {
            lemma_swap_preserves_multiset(items@, i as int, j as int);
        }
        items.set(i, b);
        items.set(j, a);
        i = i - 1;
    }
}

/// A shuffled bag of the seven piece types, with a cursor over what has
/// been dispensed so far.
pub struct PieceOrder {
    pieces: Vec<PieceType>,
    index: usize,
}

impl PieceOrder {
    /// The bag's (shuffled) contents.
    pub closed spec fn spec_pieces(self) -> Seq<PieceType> {
        self.pieces@
    }

    /// How many pieces have been dispensed.
    pub closed spec fn spec_index(self) -> int {
        self.index as int
    }

    /// The bag holds seven pieces that are a permutation of the seven
    /// types: each type appears exactly once between refills.
    pub open spec fn wf(self) -> bool {
        &&& self.spec_pieces().len() == 7
        &&& self.spec_pieces().to_multiset() == full_bag().to_multiset()
    }

    /// A fresh bag: one piece of each type, shuffled, cursor at the start.
    /// The order depends on the generator; the contents never do.
    pub fn new(rng: &mut rand_chacha::ChaCha8Rng) -> (b: PieceOrder)
        ensures
            b.wf(),
            b.spec_index() == 0,
    {
        let mut pieces: Vec<PieceType> = Vec::new();
        pieces.push(PieceType::O);
        pieces.push(PieceType::J);
        pieces.push(PieceType::L);
        pieces.push(PieceType::S);
        pieces.push(PieceType::T);
        pieces.push(PieceType::Z);
        pieces.push(PieceType::I);
        proof {
            assert(pieces@ =~= full_bag());
        }
        fisher_yates_shuffle(&mut pieces, rng);
        PieceOrder { pieces, index: 0 }
    }

    /// The bag is exhausted: every piece has been dispensed.
    pub fn is_finished(&self) -> (r: bool)
        ensures
            r == (self.spec_index() >= self.spec_pieces().len()),
    {
        self.index >= self.pieces.len()
    }

    /// Dispenses the piece under the cursor and advances, or reports an
    /// empty result once the bag is exhausted — never a fault. Callers
    /// check `is_finished` first, or treat `None` as "refill needed".
    pub fn next_piece(&mut self) -> (r: Option<PieceType>)
        requires
            old(self).spec_index() < usize::MAX,
        ensures
            final(self).spec_pieces() == old(self).spec_pieces(),
            final(self).spec_index() == old(self).spec_index() + 1,
            r == if old(self).spec_index() < old(self).spec_pieces().len() {
                Some(old(self).spec_pieces()[old(self).spec_index()])
            } else {
                None::<PieceType>
            },
    {
        let result = if self.index < self.pieces.len() {
            Some(self.pieces[self.index])
        } else {
            None
        };
        self.index = self.index + 1;
        result
    }
}

/// Law: a well-formed bag holds each of the seven piece types exactly once,
/// so one pass over it dispenses each type exactly once, in some order.
pub proof fn lemma_bag_each_type_once(b: PieceOrder)
    requires
        b.wf(),
    ensures
        forall|t: PieceType| b.spec_pieces().to_multiset().count(t) == 1,
{
    broadcast use vstd::seq_lib::group_to_multiset_ensures;
    broadcast use vstd::multiset::group_multiset_axioms;

    let e = Seq::<PieceType>::empty();
    assert(full_bag() =~= e.push(PieceType::O).push(PieceType::J).push(PieceType::L).push(
        PieceType::S,
    ).push(PieceType::T).push(PieceType::Z).push(PieceType::I));
    assert forall|t: PieceType| b.spec_pieces().to_multiset().count(t) == 1 by {
        assert(!e.contains(t));
        assert(e.to_multiset().count(t) == 0);
    }
}

} // verus!
