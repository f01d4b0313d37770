use vstd::prelude::*;

verus! {

use crate::piece_type::PieceType;

/// Relies on rand's `random_range` (the thread-local-generator shorthand
/// for `Rng::random_range`): returns a number drawn uniformly from the
/// given range. It panics on an empty range, so `n` must be positive;
/// nothing more is promised of a random value.
#[verifier::external_body]
fn random_below(n: u8) -> (r: u8)
    requires
        n >= 1,
    ensures
        r < n,
{
    rand::random_range(0..n)
}

/// How many copies of each kind one fill puts into a bag of the given
/// size: an even split, rounded up per kind when the size is not a
/// multiple of 7.
pub open spec fn spec_fill_share(size: u32) -> int {
    size as int / 7 + if size as int % 7 != 0 {
        1int
    } else {
        0int
    }
}

/// The copies of kind `k` among the entries of `ps` with index at least
/// `i`, weighted by the counts `cs`.
pub open spec fn count_from(ps: Seq<PieceType>, cs: Seq<u32>, k: PieceType, i: int) -> int
    decreases 7 - i,
{
    if i < 0 || i >= 7 {
        0
    } else {
        (if ps[i] == k {
            cs[i] as int
        } else {
            0int
        }) + count_from(ps, cs, k, i + 1)
    }
}

/// Whether kind `k` appears among the 7 entries of `ps`.
pub open spec fn contains_kind(ps: Seq<PieceType>, k: PieceType) -> bool {
    exists|i: int| 0 <= i < 7 && #[trigger] ps[i] == k
}

/// The total of the counts `cs` from index `i` on.
pub open spec fn total_from(cs: Seq<u32>, i: int) -> int
    decreases 7 - i,
{
    if i < 0 || i >= 7 {
        0
    } else {
        cs[i] + total_from(cs, i + 1)
    }
}

/// With all kinds distinct, the copies of a kind are exactly its own
/// slot's count.
proof fn lemma_count_at_from(ps: Seq<PieceType>, cs: Seq<u32>, k: PieceType, j: int, i: int)
    requires
        ps.len() == 7,
        forall|a: int, b: int| 0 <= a < b < 7 ==> ps[a] != ps[b],
        0 <= j < 7,
        ps[j] == k,
        0 <= i <= 7,
    ensures
        count_from(ps, cs, k, i) == if i <= j {
            cs[j] as int
        } else {
            0int
        },
    decreases 7 - i,
{
    if i < 7 {
        lemma_count_at_from(ps, cs, k, j, i + 1);
    }
}

/// Replacing one slot's count changes a kind's copies by the difference,
/// if that slot holds the kind, and not at all otherwise.
proof fn lemma_count_update(ps: Seq<PieceType>, cs: Seq<u32>, t: int, v: u32, k: PieceType, i: int)
    requires
        cs.len() == 7,
        0 <= t < 7,
        0 <= i <= 7,
    ensures
        count_from(ps, cs.update(t, v), k, i) == count_from(ps, cs, k, i) + (if i <= t && ps[t]
            == k {
            v - cs[t]
        } else {
            0int
        }),
    decreases 7 - i,
{
    if i < 7 {
        lemma_count_update(ps, cs, t, v, k, i + 1);
    }
}

/// Replacing one slot's count changes the total by the difference.
proof fn lemma_total_update(cs: Seq<u32>, t: int, v: u32, i: int)
    requires
        cs.len() == 7,
        0 <= t < 7,
        0 <= i <= 7,
    ensures
        total_from(cs.update(t, v), i) == total_from(cs, i) + (if i <= t {
            v - cs[t]
        } else {
            0int
        }),
    decreases 7 - i,
{
    if i < 7 {
        lemma_total_update(cs, t, v, i + 1);
    }
}

/// A run of equal counts totals its length times the count.
proof fn lemma_total_constant(cs: Seq<u32>, v: u32, i: int)
    requires
        cs.len() == 7,
        0 <= i <= 7,
        forall|j: int| i <= j < 7 ==> cs[j] == v,
    ensures
        total_from(cs, i) == (7 - i) * v,
    decreases 7 - i,
{
    if i < 7 {
        lemma_total_constant(cs, v, i + 1);
        assert(cs[i] == v);
        assert(total_from(cs, i) == v + total_from(cs, i + 1));
        assert((7 - i) * (v as int) == (7 - (i + 1)) * (v as int) + v) by (nonlinear_arith);
    } else {
        assert(total_from(cs, i) == 0);
        assert((7 - i) * (v as int) == 0) by (nonlinear_arith)
            requires
                i == 7,
        ;
    }
}

/// If every count is zero, the total is zero.
proof fn lemma_total_zero(cs: Seq<u32>, i: int)
    requires
        cs.len() == 7,
        0 <= i <= 7,
        forall|j: int| i <= j < 7 ==> cs[j] == 0,
    ensures
        total_from(cs, i) == 0,
    decreases 7 - i,
{
    if i < 7 {
        lemma_total_zero(cs, i + 1);
    }
}

/// If the total is positive, some slot's count is positive.
proof fn lemma_total_positive(cs: Seq<u32>, i: int)
    requires
        cs.len() == 7,
        0 <= i <= 7,
        total_from(cs, i) > 0,
    ensures
        exists|j: int| i <= j < 7 && #[trigger] cs[j] > 0,
    decreases 7 - i,
{
    if i < 7 {
        if cs[i] > 0 {
            assert(i <= i < 7 && cs[i] > 0);
        } else {
            lemma_total_positive(cs, i + 1);
        }
    }
}

/// One step of drawing without replacement, iterated over `ks`: each
/// drawn kind in turn must have a positive count, which the draw
/// decrements. `Bag::draw`'s contract is exactly one such step on the
/// bag's per-kind counts.
pub open spec fn draws_ok(c: Map<PieceType, int>, ks: Seq<PieceType>) -> bool
    decreases ks.len(),
{
    if ks.len() == 0 {
        true
    } else {
        &&& c.dom().contains(ks[0])
        &&& c[ks[0]] > 0
        &&& draws_ok(c.insert(ks[0], c[ks[0]] - 1), ks.drop_first())
    }
}

/// The per-kind counts left after drawing the kinds of `ks` in order.
pub open spec fn after_draws(c: Map<PieceType, int>, ks: Seq<PieceType>) -> Map<PieceType, int>
    decreases ks.len(),
{
    if ks.len() == 0 {
        c
    } else {
        after_draws(c.insert(ks[0], c[ks[0]] - 1), ks.drop_first())
    }
}

/// How often kind `k` occurs in `ks`.
pub open spec fn occurrences(ks: Seq<PieceType>, k: PieceType) -> int
    decreases ks.len(),
{
    if ks.len() == 0 {
        0
    } else {
        (if ks[0] == k {
            1int
        } else {
            0int
        }) + occurrences(ks.drop_first(), k)
    }
}

/// The per-kind counts of a freshly filled bag of the given size: every
/// kind holds its fill share.
pub open spec fn full_bag_counts(size: u32) -> Map<PieceType, int> {
    Map::new(|k: PieceType| true, |k: PieceType| spec_fill_share(size))
}

/// A draw sequence that empties the counts contains each kind exactly as
/// often as its initial count.
pub proof fn lemma_draw_sequence_counts(c: Map<PieceType, int>, ks: Seq<PieceType>)
    requires
        draws_ok(c, ks),
        forall|k: PieceType| c.dom().contains(k) ==> #[trigger] after_draws(c, ks)[k] == 0,
    ensures
        forall|k: PieceType| #[trigger] c.dom().contains(k) ==> occurrences(ks, k) == c[k],
    decreases ks.len(),
{
    if ks.len() == 0 {
        assert forall|k: PieceType| #[trigger] c.dom().contains(k) implies occurrences(ks, k)
            == c[k] by {
            assert(after_draws(c, ks)[k] == 0);
        }
    } else {
        let c2 = c.insert(ks[0], c[ks[0]] - 1);
        assert(c2.dom() == c.dom());
        assert forall|k: PieceType| c2.dom().contains(k) implies #[trigger] after_draws(
            c2,
            ks.drop_first(),
        )[k] == 0 by {
            assert(after_draws(c, ks)[k] == 0);
        }
        lemma_draw_sequence_counts(c2, ks.drop_first());
        assert forall|k: PieceType| #[trigger] c.dom().contains(k) implies occurrences(ks, k)
            == c[k] by {
            assert(c2.dom().contains(k));
            assert(occurrences(ks.drop_first(), k) == c2[k]);
        }
    }
}

/// Every draw sequence from a filled bag until per-kind exhaustion yields
/// every kind exactly its fill share: the fairness of the shuffle bag.
/// `Bag::fill` establishes `full_bag_counts` and each `Bag::draw` takes
/// one `draws_ok` step, so a full cycle of draws realizes such a
/// sequence.
pub proof fn lemma_bag_cycle_fair(size: u32, ks: Seq<PieceType>)
    requires
        draws_ok(full_bag_counts(size), ks),
        forall|k: PieceType| #[trigger] after_draws(full_bag_counts(size), ks)[k] == 0,
    ensures
        forall|k: PieceType| #[trigger] occurrences(ks, k) == spec_fill_share(size),
{
    lemma_draw_sequence_counts(full_bag_counts(size), ks);
    assert forall|k: PieceType| #[trigger] occurrences(ks, k) == spec_fill_share(size) by {
        assert(full_bag_counts(size).dom().contains(k));
    }
}

/// A fairness-constrained randomizer: a shuffle bag. One fill hands every
/// kind `spec_fill_share(size)` copies; draws remove one uniformly chosen
/// remaining piece at a time, so each cycle yields every kind exactly its
/// share, in random order, without replacement.
///
/// The kinds with copies left sit in the prefix `pieces[..unique_pieces_remaining]`;
/// a kind whose count reaches zero is swapped behind that prefix, so a
/// draw picks among live kinds in O(1).
#[derive(Debug)]
pub struct Bag {
    size: u32,
    curr_pieces: u32,
    unique_pieces_remaining: u8,
    pieces: [PieceType; 7],
    piece_counts: [u32; 7],
}

impl Bag {
    /// The configured size, for use in contracts.
    pub closed spec fn spec_size(self) -> u32 {
        self.size
    }

    /// How many pieces remain in the current fill, for use in contracts.
    pub closed spec fn spec_curr(self) -> u32 {
        self.curr_pieces
    }

    /// How many pieces of kind `k` remain in the current fill.
    pub closed spec fn kind_count(self, k: PieceType) -> int {
        count_from(self.pieces@, self.piece_counts@, k, 0)
    }

    /// The bag's invariant: the remaining-piece countdown equals the sum
    /// of the per-kind counts, the kinds with copies left fill the prefix
    /// of the kind array, exhausted kinds its suffix, and the kind array
    /// is a permutation of the 7 kinds. The size is positive and small
    /// enough that a fill cannot overflow the countdown.
    pub closed spec fn wf(self) -> bool {
        &&& 1 <= self.size <= u32::MAX - 7
        &&& self.unique_pieces_remaining <= 7
        &&& forall|i: int|
            0 <= i < 7 ==> (#[trigger] self.piece_counts@[i] > 0 <==> i
                < self.unique_pieces_remaining)
        &&& forall|a: int, b: int| 0 <= a < b < 7 ==> self.pieces@[a] != self.pieces@[b]
        &&& forall|k: PieceType| #[trigger] contains_kind(self.pieces@, k)
        &&& self.curr_pieces == total_from(self.piece_counts@, 0)
    }

    /// Creates a new, empty bag of size `size`.
    ///
    /// A bag of size zero could never yield a piece, and a size within 7
    /// of the integer maximum would overflow the fill's rounded-up split;
    /// both are caller errors.
    pub fn new(size: u32) -> (bag: Bag)
        requires
            1 <= size <= u32::MAX - 7,
        ensures
            bag.wf(),
            bag.spec_size() == size,
            bag.spec_curr() == 0,
            forall|k: PieceType| #[trigger] bag.kind_count(k) == 0,
    {
        let bag = Bag {
            size,
            curr_pieces: 0,
            unique_pieces_remaining: 0,
            pieces: [
                PieceType::I,
                PieceType::L,
                PieceType::J,
                PieceType::S,
                PieceType::Z,
                PieceType::T,
                PieceType::O,
            ],
            piece_counts: [0; 7],
        };
        proof {
            lemma_total_zero(bag.piece_counts@, 0);
            assert forall|k: PieceType| #[trigger] bag.kind_count(k) == 0 by {
                lemma_total_zero(bag.piece_counts@, 0);
                assert(count_from(bag.pieces@, bag.piece_counts@, k, 7) == 0);
                assert forall|i: int| 0 <= i <= 7 implies count_from(
                    bag.pieces@,
                    bag.piece_counts@,
                    k,
                    i,
                ) == 0 by {
                    lemma_count_zero_helper(bag.pieces@, bag.piece_counts@, k, i);
                }
            }
            assert forall|k: PieceType| #[trigger] contains_kind(bag.pieces@, k) by {
                match k {
                    PieceType::I => assert(bag.pieces@[0] == k),
                    PieceType::L => assert(bag.pieces@[1] == k),
                    PieceType::J => assert(bag.pieces@[2] == k),
                    PieceType::S => assert(bag.pieces@[3] == k),
                    PieceType::Z => assert(bag.pieces@[4] == k),
                    PieceType::T => assert(bag.pieces@[5] == k),
                    PieceType::O => assert(bag.pieces@[6] == k),
                }
            }
        }
        bag
    }

    /// Returns `true` if the bag is empty, `false` otherwise.
    pub fn empty(&self) -> (r: bool)
        ensures
            r == (self.spec_curr() == 0),
    {
        self.curr_pieces == 0
    }

    /// Returns `self.size`, the bag size.
    pub fn size(&self) -> (r: u32)
        ensures
            r == self.spec_size(),
    {
        self.size
    }

    /// Fills the bag: every kind receives its rounded-up share of
    /// `self.size`, and the countdown becomes their sum.
    fn fill(&mut self)
        requires
            old(self).wf(),
            old(self).spec_curr() == 0,
        ensures
            final(self).wf(),
            final(self).spec_size() == old(self).spec_size(),
            forall|k: PieceType| #[trigger] final(self).kind_count(k) == spec_fill_share(
                old(self).spec_size(),
            ),
            final(self).spec_curr() == 7 * spec_fill_share(old(self).spec_size()),
    {
        proof {
            if self.unique_pieces_remaining > 0 {
                assert(self.piece_counts@[0] > 0);
                assert(total_from(self.piece_counts@, 0) > 0) by {
                    lemma_total_lower(self.piece_counts@, 0, 0);
                }
            }
        }
        let initial_count = self.size / 7 + if self.size % 7 != 0 {
            1
        } else {
            0
        };
        let mut i: usize = self.unique_pieces_remaining as usize;
        while i < 7
            invariant
                0 <= i <= 7,
                initial_count == spec_fill_share(self.size),
                initial_count >= 1,
                self.size == old(self).size,
                self.unique_pieces_remaining == 0,
                self.pieces@ == old(self).pieces@,
                self.curr_pieces == old(self).curr_pieces,
                1 <= self.size <= u32::MAX - 7,
                forall|j: int| 0 <= j < i ==> self.piece_counts@[j] == initial_count,
                forall|j: int| i <= j < 7 ==> self.piece_counts@[j] == 0,
            decreases 7 - i,
        {
            self.piece_counts[i] = initial_count;
            i = i + 1;
        }
        self.curr_pieces = initial_count * 7;
        self.unique_pieces_remaining = 7;
        proof {
            lemma_total_constant(self.piece_counts@, initial_count, 0);
            assert(7 * spec_fill_share(self.size) == spec_fill_share(self.size) * 7) by (nonlinear_arith);
            assert forall|k: PieceType| #[trigger] self.kind_count(k) == spec_fill_share(
                self.size,
            ) by {
                assert(contains_kind(self.pieces@, k));
                let j = choose|j: int| 0 <= j < 7 && #[trigger] self.pieces@[j] == k;
                lemma_count_at_from(self.pieces@, self.piece_counts@, k, j, 0);
            }
        }
    }

    /// Draws a random piece from the remaining pieces in the bag,
    /// refilling the bag first if it is empty: one uniformly chosen
    /// remaining piece leaves the bag and is returned. Every kind's
    /// remaining count is preserved except the drawn kind's, which drops
    /// by exactly one — one step of drawing without replacement.
    pub fn draw(&mut self) -> (r: PieceType)
        requires
            old(self).wf(),
        ensures
            final(self).wf(),
            final(self).spec_size() == old(self).spec_size(),
            old(self).spec_curr() == 0 ==> {
                &&& forall|k: PieceType|
                    #[trigger] final(self).kind_count(k) == spec_fill_share(
                        old(self).spec_size(),
                    ) - (if k == r {
                        1int
                    } else {
                        0int
                    })
                &&& final(self).spec_curr() == 7 * spec_fill_share(old(self).spec_size()) - 1
            },
            old(self).spec_curr() != 0 ==> {
                &&& old(self).kind_count(r) > 0
                &&& forall|k: PieceType|
                    #[trigger] final(self).kind_count(k) == old(self).kind_count(k) - (if k == r {
                        1int
                    } else {
                        0int
                    })
                &&& final(self).spec_curr() == old(self).spec_curr() - 1
            },
    {
        if self.empty() {
            self.fill();
        }
        proof {
            assert(self.curr_pieces > 0);
            lemma_total_positive(self.piece_counts@, 0);
            let j = choose|j: int| 0 <= j < 7 && #[trigger] self.piece_counts@[j] > 0;
            assert(self.unique_pieces_remaining > 0);
        }
        let ghost base = *self;
        proof {
            if old(self).spec_curr() != 0 {
                assert(base == *old(self));
            }
        }
        let chosen_idx = random_below(self.unique_pieces_remaining) as usize;
        let r = self.pieces[chosen_idx];
        let ghost ps0 = self.pieces@;
        let ghost cs0 = self.piece_counts@;
        let ghost u0 = self.unique_pieces_remaining;
        proof {
            assert(cs0[chosen_idx as int] > 0);
            lemma_count_at_from(ps0, cs0, r, chosen_idx as int, 0);
            assert(base.kind_count(r) == cs0[chosen_idx as int]);
        }
        self.piece_counts[chosen_idx] = self.piece_counts[chosen_idx] - 1;
        self.curr_pieces = self.curr_pieces - 1;
        proof {
            lemma_total_update(cs0, chosen_idx as int, (cs0[chosen_idx as int] - 1) as u32, 0);
            assert forall|k: PieceType| #[trigger] self.kind_count(k) == base.kind_count(k) - (
            if k == r {
                1int
            } else {
                0int
            }) by {
                lemma_count_update(
                    ps0,
                    cs0,
                    chosen_idx as int,
                    (cs0[chosen_idx as int] - 1) as u32,
                    k,
                    0,
                );
                if k != r {
                    assert(ps0[chosen_idx as int] != k);
                }
            }
        }
        if self.piece_counts[chosen_idx] == 0 {
            self.unique_pieces_remaining = self.unique_pieces_remaining - 1;

            let new_idx = self.unique_pieces_remaining as usize;
            let ghost ps1 = self.pieces@;
            let ghost cs1 = self.piece_counts@;
            let tmp_piece = self.pieces[chosen_idx];
            self.pieces[chosen_idx] = self.pieces[new_idx];
            self.pieces[new_idx] = tmp_piece;
            let tmp_count = self.piece_counts[chosen_idx];
            self.piece_counts[chosen_idx] = self.piece_counts[new_idx];
            self.piece_counts[new_idx] = tmp_count;
            proof {
                assert(self.pieces@ == ps1.update(chosen_idx as int, ps1[new_idx as int]).update(
                    new_idx as int,
                    ps1[chosen_idx as int],
                ));
                assert(self.piece_counts@ == cs1.update(
                    chosen_idx as int,
                    cs1[new_idx as int],
                ).update(new_idx as int, cs1[chosen_idx as int]));
                lemma_swap_preserves(
                    ps1,
                    cs1,
                    self.pieces@,
                    self.piece_counts@,
                    chosen_idx as int,
                    new_idx as int,
                );
                assert forall|k: PieceType| #[trigger] self.kind_count(k) == base.kind_count(k)
                    - (if k == r {
                    1int
                } else {
                    0int
                }) by {
                    assert(count_from(self.pieces@, self.piece_counts@, k, 0) == count_from(
                        ps1,
                        cs1,
                        k,
                        0,
                    ));
                    assert(ps1 == ps0);
                    assert(cs1 == cs0.update(chosen_idx as int, (cs0[chosen_idx as int] - 1) as u32));
                    lemma_count_update(
                        ps0,
                        cs0,
                        chosen_idx as int,
                        (cs0[chosen_idx as int] - 1) as u32,
                        k,
                        0,
                    );
                    if k != r {
                        assert(ps0[chosen_idx as int] != k);
                    }
                    assert(base.kind_count(k) == count_from(ps0, cs0, k, 0));
                }
                assert forall|i: int| 0 <= i < 7 implies (#[trigger] self.piece_counts@[i] > 0
                    <==> i < self.unique_pieces_remaining) by {
                    assert(cs1[i] == (if i == chosen_idx as int {
                        (cs0[chosen_idx as int] - 1) as u32
                    } else {
                        cs0[i]
                    }));
                }
                assert(self.wf());
                assert(self.spec_curr() == base.spec_curr() - 1);
                if old(self).spec_curr() == 0 {
                    assert(forall|k: PieceType| #[trigger] base.kind_count(k) == spec_fill_share(
                        old(self).spec_size(),
                    ));
                    assert(base.spec_curr() == 7 * spec_fill_share(old(self).spec_size()));
                }
            }
            return r;
        }
        proof {
            assert(self.spec_curr() == base.spec_curr() - 1);
            if old(self).spec_curr() == 0 {
                assert(forall|k: PieceType| #[trigger] base.kind_count(k) == spec_fill_share(
                    old(self).spec_size(),
                ));
                assert(base.spec_curr() == 7 * spec_fill_share(old(self).spec_size()));
            }
        }
        r
    }
}

/// Copies of a kind are zero when every count is zero.
proof fn lemma_count_zero_helper(ps: Seq<PieceType>, cs: Seq<u32>, k: PieceType, i: int)
    requires
        cs.len() == 7,
        0 <= i <= 7,
        forall|j: int| 0 <= j < 7 ==> cs[j] == 0,
    ensures
        count_from(ps, cs, k, i) == 0,
    decreases 7 - i,
{
    if i < 7 {
        lemma_count_zero_helper(ps, cs, k, i + 1);
    }
}

/// The total from `i` on is at least any single count in that range.
proof fn lemma_total_lower(cs: Seq<u32>, i: int, j: int)
    requires
        cs.len() == 7,
        0 <= i <= j < 7,
    ensures
        total_from(cs, i) >= cs[j],
        total_from(cs, i) >= 0,
    decreases 7 - i,
{
    if i < 7 {
        if i < j {
            lemma_total_lower(cs, i + 1, j);
        } else {
            lemma_total_nonneg(cs, i + 1);
        }
    }
}

/// Totals of counts are nonnegative.
proof fn lemma_total_nonneg(cs: Seq<u32>, i: int)
    requires
        cs.len() == 7,
        0 <= i <= 7,
    ensures
        total_from(cs, i) >= 0,
    decreases 7 - i,
{
    if i < 7 {
        lemma_total_nonneg(cs, i + 1);
    }
}

/// Swapping two slots of the kind and count arrays together changes
/// neither any kind's copies nor the total.
proof fn lemma_swap_preserves(
    ps: Seq<PieceType>,
    cs: Seq<u32>,
    ps2: Seq<PieceType>,
    cs2: Seq<u32>,
    a: int,
    b: int,
)
    requires
        ps.len() == 7,
        cs.len() == 7,
        0 <= a < 7,
        0 <= b < 7,
        forall|x: int, y: int| 0 <= x < y < 7 ==> ps[x] != ps[y],
        forall|k: PieceType| #[trigger] contains_kind(ps, k),
        ps2 == ps.update(a, ps[b]).update(b, ps[a]),
        cs2 == cs.update(a, cs[b]).update(b, cs[a]),
    ensures
        forall|k: PieceType| #[trigger] count_from(ps2, cs2, k, 0) == count_from(ps, cs, k, 0),
        total_from(cs2, 0) == total_from(cs, 0),
        forall|x: int, y: int| 0 <= x < y < 7 ==> ps2[x] != ps2[y],
        forall|k: PieceType| #[trigger] contains_kind(ps2, k),
{
    lemma_total_update(cs, a, cs[b], 0);
    lemma_total_update(cs.update(a, cs[b]), b, cs[a], 0);
    assert forall|k: PieceType| #[trigger] count_from(ps2, cs2, k, 0) == count_from(
        ps,
        cs,
        k,
        0,
    ) by {
        assert(contains_kind(ps, k));
        let j = choose|i: int| 0 <= i < 7 && #[trigger] ps[i] == k;
        let j2: int = if j == a {
            b
        } else if j == b {
            a
        } else {
            j
        };
        assert(ps2[j2] == k);
        assert(cs2[j2] == cs[j]);
        lemma_count_at_from(ps, cs, k, j, 0);
        lemma_count_at_from(ps2, cs2, k, j2, 0);
    }
    assert forall|k: PieceType| #[trigger] contains_kind(ps2, k) by {
        assert(contains_kind(ps, k));
        let j = choose|i: int| 0 <= i < 7 && #[trigger] ps[i] == k;
        let j2: int = if j == a {
            b
        } else if j == b {
            a
        } else {
            j
        };
        assert(ps2[j2] == k);
    }
}

} // verus!
