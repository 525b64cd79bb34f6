//! The capabilities that a swarm is assembled from: the particle that scores
//! positions, the providers of coefficients, and the views of a node and of a
//! swarm that generic code can rely on.
use rand::rngs::ThreadRng;
use std::fmt::Debug;
use vstd::prelude::*;

verus! {

/// A candidate solution as the caller models it: it scores the position it
/// holds and decides whether a proposed position is acceptable.
pub trait PsoParticle<T>: Sized {
    /// The score of the position that the particle last accepted; higher is
    /// better. An implementation that is to be verified says here what its
    /// score is; left as it stands, the score is some number of which nothing
    /// is known.
    open spec fn performance(&self) -> i64 {
        arbitrary()
    }

    /// Whether the particle `self`, asked to move to `position`, may answer
    /// with `repaired` and be left as `after`. Left as it stands, any answer is
    /// possible.
    open spec fn answers(&self, after: Self, position: Seq<T>, repaired: Option<Vec<T>>) -> bool {
        true
    }

    /// Whether `particle` may be the particle that is placed at `position`.
    /// Left as it stands, any particle may.
    open spec fn placed_at(position: Seq<T>, particle: Self) -> bool {
        true
    }

    /// Reads [`PsoParticle::performance`].
    fn get_performance(&self) -> (performance: i64)
        ensures
            performance == self.performance(),
    ;

    /// Moves the particle to `position`. `None` accepts the position as it is;
    /// `Some` hands back the position that the particle took instead, which has
    /// as many coordinates as the proposed one. Either way the particle scores
    /// the position it ends up with.
    fn update_position(&mut self, position: &Vec<T>) -> (repaired: Option<Vec<T>>)
        ensures
            old(self).answers(*final(self), position@, repaired),
            repaired matches Some(valid) ==> valid@.len() == position@.len(),
    ;

    /// A particle placed at `position`, with its score.
    fn init(position: Vec<T>) -> (particle: Self)
        ensures
            Self::placed_at(position@, particle),
    ;
}

/// A provider of one coefficient of the update rule. What it hands out may
/// depend on the generation and on the node that is about to move.
pub trait PsoAcc<N, T, X> where X: Debug, N: PsoNode<T> {
    /// Whether `value` is among the values that the provider may hand out for
    /// `node` in the generation `generation`. Left as it stands, the provider
    /// may hand out any value.
    open spec fn offers(&self, generation: usize, node: &N, value: X) -> bool {
        true
    }

    /// Whether `value` is among the values that the provider may hand out
    /// before any generation has run. Left as it stands, the provider may hand
    /// out any value.
    open spec fn offers_at_start(&self, value: X) -> bool {
        true
    }

    /// The coefficient for `this_node` in the generation `generation`.
    fn get_value(&self, generation: &usize, this_node: &N) -> (value: X)
        ensures
            self.offers(*generation, this_node, value),
    ;

    /// The coefficient before any generation has run. A swarm reads it once,
    /// to see how many coordinates the provider covers.
    fn init_value(&self) -> (value: X)
        ensures
            self.offers_at_start(value),
    ;
}

/// What generic code can read of a node, and the step that moves it.
pub trait PsoNode<T> {
    /// Whether the node can move under the velocity limits `vlimit` toward the
    /// swarm's best position `global_best`. Left as it stands, it always can.
    open spec fn can_update(&self, vlimit: Seq<(i64, i64)>, global_best: Seq<T>) -> bool {
        true
    }

    /// The position of the node.
    fn get_position(&self) -> &Vec<T>;

    /// The score of the node at its position.
    fn get_performance(&self) -> i64;

    /// The position at which the node reported its best score.
    fn get_best_position(&self) -> &Vec<T>;

    /// The best score that the node has reported.
    fn get_best_performance(&self) -> i64;

    /// The velocity of the node.
    fn get_speed(&self) -> &Vec<i64>;

    /// Moves the node once and returns the score it reaches.
    fn update_position(
        &mut self,
        rng: &mut ThreadRng,
        vlimit: &Vec<(i64, i64)>,
        inertia: &i64,
        lfactor1: &i64,
        lfactor2: &i64,
        global_best: &Vec<T>,
    ) -> i64
        requires
            old(self).can_update(vlimit@, global_best@),
    ;
}

/// What generic code can read of a swarm, and the run of its generations.
pub trait PsoHandler<T> {
    /// Whether the swarm is in a state from which generations can run. Left as
    /// it stands, it always is.
    open spec fn can_start(&self) -> bool {
        true
    }

    /// The position at which the swarm's best score was reported.
    fn get_global_best_position(&self) -> &Vec<T>;

    /// The best score that the swarm has seen.
    fn get_global_best_performance(&self) -> i64;

    /// Runs `generation` generations.
    fn start(&mut self, generation: usize)
        requires
            old(self).can_start(),
    ;
}

} // verus!
