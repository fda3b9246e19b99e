//! The adoption engine: the weight that the players' influence gives each
//! algorithm, normalised within each active challenge, and the adoption that
//! advances gather from the algorithms built on them.

use crate::cache::AddBlockCache;
use crate::number::{normalise, parts, PreciseNumber};
use crate::sums::{
    lemma_sum_bounds_item, lemma_sum_empty, lemma_sum_extend, lemma_sum_monotone, lemma_sum_whole,
    sum,
};
use crate::table::{find, lemma_index_in_range};
use crate::wide::mul_div;
use vstd::prelude::*;

verus! {

impl AddBlockCache {
    /// Whether one of the first `upto` active challenges is that of
    /// algorithm `j`.
    pub open spec fn challenge_among(&self, j: int, upto: int) -> bool {
        exists|c: int| 0 <= c < upto && #[trigger] self.active_challenge_ids@[c]@ == self.challenge_of(j)
    }

    /// The influence that entry `k` of the qualifiers of algorithm `i` brings
    /// to it, or `None` where it does not fit in a number.
    pub fn qualifier_share(&self, i: usize, k: usize) -> (r: Option<PreciseNumber>)
        requires
            self.consistent(),
            i < self.active_algorithms.count(),
            self.challenge_active(i as int),
            k < self.active_algorithms.rows@[i as int].block_data.num_qualifiers_by_player.count(),
        ensures
            match r {
                Some(s) => s@ == self.share(i as int, k as int),
                None => self.share(i as int, k as int) > u128::MAX,
            },
    {
        assert(self.share_defined(i as int, k as int));
        let algorithm = &self.active_algorithms.rows[i];
        let qualifiers = &algorithm.block_data.num_qualifiers_by_player;
        let o = self.active_opow.position(&qualifiers.ids[k]).unwrap();
        let data = &self.active_opow.rows[o];
        let c = data.num_qualifiers_by_challenge.position(&algorithm.details.challenge_id).unwrap();
        let total: u32 = data.num_qualifiers_by_challenge.rows[c];
        let count: u32 = qualifiers.rows[k];
        match mul_div(data.influence.raw, count as u128, total as u128) {
            Some(raw) => Some(PreciseNumber { raw }),
            None => None,
        }
    }

    /// The weight of algorithm `i` before normalising, or `None` where it
    /// does not fit in a number.
    pub fn algorithm_weight(&self, i: usize) -> (r: Option<PreciseNumber>)
        requires
            self.consistent(),
            i < self.active_algorithms.count(),
            self.challenge_active(i as int),
        ensures
            match r {
                Some(w) => w@ == self.weight(i as int),
                None => self.weight(i as int) > u128::MAX,
            },
    {
        let ghost shares = self.algorithm_shares(i as int);
        let entries = self.active_algorithms.rows[i].block_data.num_qualifiers_by_player.ids.len();
        let mut acc = PreciseNumber::zero();
        let mut k: usize = 0;
        proof {
            lemma_sum_empty(shares, 0);
            lemma_sum_whole(shares);
        }
        while k < entries
            invariant
                self.consistent(),
                i < self.active_algorithms.count(),
                self.challenge_active(i as int),
                entries == self.active_algorithms.rows@[i as int].block_data.num_qualifiers_by_player.count(),
                shares == self.algorithm_shares(i as int),
                k <= entries,
                acc@ == sum(shares.subrange(0, k as int)),
                sum(shares.subrange(0, entries as int)) == sum(shares),
            decreases entries - k,
        {
            proof {
                lemma_sum_extend(shares, 0, k as int);
                lemma_sum_monotone(shares, 0, k + 1, entries as int);
            }
            let share = match self.qualifier_share(i, k) {
                Some(s) => s,
                None => {
                    return None;
                },
            };
            acc = match acc.checked_add(share) {
                Some(next) => next,
                None => {
                    return None;
                },
            };
            k = k + 1;
        }
        Some(acc)
    }

    /// A weight beyond the range of numbers puts its challenge's weights
    /// beyond it too.
    proof fn lemma_weight_out_of_range(&self, i: int)
        requires
            0 <= i < self.active_algorithms.count(),
            self.challenge_active(i),
            self.weight(i) > u128::MAX,
        ensures
            !self.weights_in_range(),
    {
        let challenge = self.challenge_of(i);
        lemma_index_in_range(self.active_challenge_ids@, challenge);
        let c = crate::table::index_of(self.active_challenge_ids@, challenge);
        let weights = self.challenge_weights(self.active_challenge_ids@[c]@);
        assert(weights[i] == self.weight(i));
        lemma_sum_bounds_item(weights, i);
    }

    /// The weight of every algorithm on an active challenge, with zero for
    /// the others, or `None` where some weight does not fit in a number.
    pub fn algorithm_weights(&self) -> (r: Option<Vec<PreciseNumber>>)
        requires
            self.consistent(),
        ensures
            match r {
                Some(weights) => {
                    &&& weights@.len() == self.active_algorithms.count()
                    &&& forall|j: int|
                        0 <= j < weights@.len() && self.challenge_active(j) ==> (#[trigger] weights@[j])@
                            == self.weight(j)
                },
                None => !self.weights_in_range(),
            },
    {
        let algorithms = self.active_algorithms.rows.len();
        let mut weights: Vec<PreciseNumber> = Vec::new();
        let mut i: usize = 0;
        while i < algorithms
            invariant
                self.consistent(),
                algorithms == self.active_algorithms.count(),
                i <= algorithms,
                weights@.len() == i,
                forall|j: int|
                    0 <= j < i && self.challenge_active(j) ==> (#[trigger] weights@[j])@ == self.weight(j),
            decreases algorithms - i,
        {
            if self.is_challenge_active(i) {
                match self.algorithm_weight(i) {
                    Some(w) => {
                        weights.push(w);
                    },
                    None => {
                        proof {
                            self.lemma_weight_out_of_range(i as int);
                        }
                        return None;
                    },
                }
            } else {
                weights.push(PreciseNumber::zero());
            }
            i = i + 1;
        }
        Some(weights)
    }

    /// The weights of the algorithms of active challenge `c`, each at its
    /// algorithm's place, with zero at the places of other algorithms.
    pub fn weights_of_challenge(&self, weights: &Vec<PreciseNumber>, c: usize) -> (r: Vec<PreciseNumber>)
        requires
            self.consistent(),
            c < self.active_challenge_ids@.len(),
            weights@.len() == self.active_algorithms.count(),
            forall|j: int|
                0 <= j < weights@.len() && self.challenge_active(j) ==> (#[trigger] weights@[j])@
                    == self.weight(j),
        ensures
            parts(r@) == self.challenge_weights(self.active_challenge_ids@[c as int]@),
    {
        let algorithms = self.active_algorithms.rows.len();
        let ghost wanted = self.challenge_weights(self.active_challenge_ids@[c as int]@);
        let mut masked: Vec<PreciseNumber> = Vec::new();
        let mut j: usize = 0;
        while j < algorithms
            invariant
                self.consistent(),
                c < self.active_challenge_ids@.len(),
                algorithms == self.active_algorithms.count(),
                weights@.len() == algorithms,
                forall|l: int|
                    0 <= l < weights@.len() && self.challenge_active(l) ==> (#[trigger] weights@[l])@
                        == self.weight(l),
                wanted == self.challenge_weights(self.active_challenge_ids@[c as int]@),
                j <= algorithms,
                masked@.len() == j,
                forall|l: int| 0 <= l < j ==> (#[trigger] masked@[l])@ == wanted[l],
            decreases algorithms - j,
        {
            if self.active_algorithms.rows[j].details.challenge_id == self.active_challenge_ids[c] {
                assert(self.challenge_active(j as int));
                masked.push(weights[j]);
            } else {
                masked.push(PreciseNumber::zero());
            }
            j = j + 1;
        }
        assert(parts(masked@) =~= wanted);
        masked
    }

    /// The adoption of every algorithm after the update, in table order, or
    /// `None` where the weights of some active challenge together do not fit
    /// in a number.
    pub fn algorithm_adoptions(&self) -> (r: Option<Vec<PreciseNumber>>)
        requires
            self.consistent(),
        ensures
            match r {
                Some(adoptions) => {
                    &&& self.weights_in_range()
                    &&& adoptions@.len() == self.active_algorithms.count()
                    &&& forall|j: int|
                        0 <= j < adoptions@.len() ==> (#[trigger] adoptions@[j])@ == self.new_adoption(j)
                },
                None => !self.weights_in_range(),
            },
    {
        let weights = match self.algorithm_weights() {
            Some(w) => w,
            None => {
                return None;
            },
        };
        let algorithms = self.active_algorithms.rows.len();
        let mut adoptions: Vec<PreciseNumber> = Vec::new();
        let mut i: usize = 0;
        while i < algorithms
            invariant
                algorithms == self.active_algorithms.rows@.len(),
                i <= algorithms,
                adoptions@.len() == i,
                forall|j: int|
                    0 <= j < i ==> #[trigger] adoptions@[j]
                        == self.active_algorithms.rows@[j].block_data.adoption,
            decreases algorithms - i,
        {
            adoptions.push(self.active_algorithms.rows[i].block_data.adoption);
            i = i + 1;
        }
        let challenges = self.active_challenge_ids.len();
        let mut c: usize = 0;
        while c < challenges
            invariant
                self.consistent(),
                challenges == self.active_challenge_ids@.len(),
                algorithms == self.active_algorithms.count(),
                weights@.len() == algorithms,
                forall|j: int|
                    0 <= j < weights@.len() && self.challenge_active(j) ==> (#[trigger] weights@[j])@
                        == self.weight(j),
                c <= challenges,
                adoptions@.len() == algorithms,
                forall|d: int|
                    0 <= d < c ==> sum(self.challenge_weights(#[trigger] self.active_challenge_ids@[d]@))
                        <= u128::MAX,
                forall|j: int|
                    0 <= j < algorithms ==> (#[trigger] adoptions@[j])@ == if self.challenge_among(
                        j,
                        c as int,
                    ) {
                        self.new_adoption(j)
                    } else {
                        self.active_algorithms.rows@[j].block_data.adoption@
                    },
            decreases challenges - c,
        {
            let masked = self.weights_of_challenge(&weights, c);
            let shares = match normalise(&masked) {
                Some(s) => s,
                None => {
                    return None;
                },
            };
            let ghost challenge = self.active_challenge_ids@[c as int]@;
            let ghost before = adoptions@;
            assert(parts(masked@).len() == masked@.len());
            let mut j: usize = 0;
            while j < algorithms
                invariant
                    self.consistent(),
                    c < challenges,
                    challenges == self.active_challenge_ids@.len(),
                    algorithms == self.active_algorithms.count(),
                    challenge == self.active_challenge_ids@[c as int]@,
                    parts(shares@) == crate::number::normalised(self.challenge_weights(challenge)),
                    shares@.len() == algorithms,
                    j <= algorithms,
                    adoptions@.len() == algorithms,
                    before.len() == algorithms,
                    forall|l: int| j <= l < algorithms ==> #[trigger] adoptions@[l] == before[l],
                    forall|l: int|
                        0 <= l < j ==> (#[trigger] adoptions@[l]) == if self.challenge_of(l) == challenge {
                            shares@[l]
                        } else {
                            before[l]
                        },
                decreases algorithms - j,
            {
                if self.active_algorithms.rows[j].details.challenge_id == self.active_challenge_ids[c] {
                    adoptions.set(j, shares[j]);
                }
                j = j + 1;
            }
            proof {
                assert forall|l: int| 0 <= l < algorithms implies (#[trigger] adoptions@[l])@
                    == if self.challenge_among(l, c + 1) {
                    self.new_adoption(l)
                } else {
                    self.active_algorithms.rows@[l].block_data.adoption@
                } by {
                    if self.challenge_of(l) == challenge {
                        assert(self.active_challenge_ids@[c as int]@ == self.challenge_of(l));
                        assert(self.challenge_among(l, c + 1));
                        assert(self.challenge_active(l));
                        assert(parts(shares@)[l] == shares@[l]@);
                    } else {
                        assert(before[l]@ == if self.challenge_among(l, c as int) {
                            self.new_adoption(l)
                        } else {
                            self.active_algorithms.rows@[l].block_data.adoption@
                        });
                        if self.challenge_among(l, c + 1) {
                            let d = choose|d: int|
                                0 <= d < c + 1 && #[trigger] self.active_challenge_ids@[d]@
                                    == self.challenge_of(l);
                            assert(d < c);
                            assert(self.challenge_among(l, c as int));
                        }
                    }
                }
            }
            c = c + 1;
        }
        proof {
            assert forall|j: int| 0 <= j < adoptions@.len() implies (#[trigger] adoptions@[j])@
                == self.new_adoption(j) by {
                if self.challenge_active(j) {
                    lemma_index_in_range(self.active_challenge_ids@, self.challenge_of(j));
                    assert(self.challenge_among(j, challenges as int));
                } else {
                    if self.challenge_among(j, challenges as int) {
                        assert(self.challenge_active(j));
                    }
                }
            }
        }
        Some(adoptions)
    }

    /// Whether algorithm `j` adds its adoption to advance `v`.
    pub fn is_built_on(&self, j: usize, v: usize) -> (r: bool)
        requires
            self.wf(),
            j < self.active_algorithms.count(),
            v < self.active_advances.count(),
        ensures
            r == self.builds_on(j as int, v as int),
    {
        if !self.is_challenge_active(j) {
            return false;
        }
        match &self.active_algorithms.rows[j].details.advance_id {
            Some(id) => *id == self.active_advances.ids[v],
            None => false,
        }
    }

    /// The adoption of advance `v` after the update, or `None` where it does
    /// not fit in a number.
    pub fn advance_adoption(&self, adoptions: &Vec<PreciseNumber>, v: usize) -> (r: Option<PreciseNumber>)
        requires
            self.wf(),
            v < self.active_advances.count(),
            adoptions@.len() == self.active_algorithms.count(),
            forall|j: int|
                0 <= j < adoptions@.len() ==> (#[trigger] adoptions@[j])@ == self.new_adoption(j),
        ensures
            match r {
                Some(adoption) => adoption@ == self.new_advance_adoption(v as int),
                None => self.new_advance_adoption(v as int) > u128::MAX,
            },
    {
        let ghost gains = self.gains(v as int);
        let algorithms = self.active_algorithms.rows.len();
        let mut acc = PreciseNumber::zero();
        let mut j: usize = 0;
        proof {
            lemma_sum_empty(gains, 0);
            lemma_sum_whole(gains);
        }
        while j < algorithms
            invariant
                self.wf(),
                v < self.active_advances.count(),
                algorithms == self.active_algorithms.count(),
                adoptions@.len() == algorithms,
                forall|l: int|
                    0 <= l < adoptions@.len() ==> (#[trigger] adoptions@[l])@ == self.new_adoption(l),
                gains == self.gains(v as int),
                j <= algorithms,
                acc@ == sum(gains.subrange(0, j as int)),
                sum(gains.subrange(0, algorithms as int)) == sum(gains),
            decreases algorithms - j,
        {
            proof {
                lemma_sum_extend(gains, 0, j as int);
                lemma_sum_monotone(gains, 0, j + 1, algorithms as int);
            }
            if self.is_built_on(j, v) {
                acc = match acc.checked_add(adoptions[j]) {
                    Some(next) => next,
                    None => {
                        return None;
                    },
                };
            }
            j = j + 1;
        }
        self.active_advances.rows[v].block_data.adoption.checked_add(acc)
    }

    /// The adoption of every advance after the update, in table order, or
    /// `None` where the adoption of some advance does not fit in a number.
    pub fn advance_adoptions(&self, adoptions: &Vec<PreciseNumber>) -> (r: Option<Vec<PreciseNumber>>)
        requires
            self.wf(),
            adoptions@.len() == self.active_algorithms.count(),
            forall|j: int|
                0 <= j < adoptions@.len() ==> (#[trigger] adoptions@[j])@ == self.new_adoption(j),
        ensures
            match r {
                Some(out) => {
                    &&& self.advances_in_range()
                    &&& out@.len() == self.active_advances.count()
                    &&& forall|v: int|
                        0 <= v < out@.len() ==> (#[trigger] out@[v])@ == self.new_advance_adoption(v)
                },
                None => !self.advances_in_range(),
            },
    {
        let advances = self.active_advances.rows.len();
        let mut out: Vec<PreciseNumber> = Vec::new();
        let mut v: usize = 0;
        while v < advances
            invariant
                self.wf(),
                advances == self.active_advances.count(),
                adoptions@.len() == self.active_algorithms.count(),
                forall|j: int|
                    0 <= j < adoptions@.len() ==> (#[trigger] adoptions@[j])@ == self.new_adoption(j),
                v <= advances,
                out@.len() == v,
                forall|u: int| 0 <= u < v ==> #[trigger] self.new_advance_adoption(u) <= u128::MAX,
                forall|u: int| 0 <= u < v ==> (#[trigger] out@[u])@ == self.new_advance_adoption(u),
            decreases advances - v,
        {
            match self.advance_adoption(adoptions, v) {
                Some(adoption) => {
                    out.push(adoption);
                },
                None => {
                    return None;
                },
            }
            v = v + 1;
        }
        Some(out)
    }
}

} // verus!
