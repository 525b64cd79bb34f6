//! The swarm over fixed-point coordinates: its nodes and the handler that runs
//! their generations.
use crate::error::{check_dimension, constructor_label, mismatch_message, Error};
use crate::fixed::ONE;
use crate::motion::{advance, blend, bound, next_position, next_velocity, wants_fresh, Draw};
use crate::sampling::{thread_source, uniform};
use crate::traits::{PsoAcc, PsoHandler, PsoNode, PsoParticle};
use rand::rngs::ThreadRng;
use vstd::prelude::*;

verus! {

/// Velocity limits for `dimension` coordinates: one pair per coordinate, the
/// lower limit first and no larger than the upper one.
pub open spec fn ordered_limits(limits: Seq<(i64, i64)>, dimension: nat) -> bool {
    &&& limits.len() == dimension
    &&& forall|i: int| 0 <= i < limits.len() ==> (#[trigger] limits[i]).0 <= limits[i].1
}

/// One draw per coordinate, each with unit scales.
pub open spec fn unit_draws(draws: Seq<Draw>, dimension: nat) -> bool {
    &&& draws.len() == dimension
    &&& forall|i: int| 0 <= i < draws.len() ==> (#[trigger] draws[i]).scales_in_unit()
}

/// One draw per coordinate, each suited to the limits of its coordinate.
pub open spec fn suited_draws(draws: Seq<Draw>, limits: Seq<(i64, i64)>) -> bool {
    &&& draws.len() == limits.len()
    &&& forall|i: int| 0 <= i < draws.len() ==> (#[trigger] draws[i]).suits(limits[i])
}

/// Every velocity lies between the limits of its coordinate.
pub open spec fn within_limits(speed: Seq<i64>, limits: Seq<(i64, i64)>) -> bool {
    &&& speed.len() == limits.len()
    &&& forall|i: int| 0 <= i < speed.len() ==> limits[i].0 <= #[trigger] speed[i] <= limits[i].1
}

/// The position that a node takes where its particle answers the proposed
/// position with `repaired`: the proposed one where the particle accepts it,
/// else the one that the particle hands back.
pub open spec fn landing(proposed: Seq<i64>, repaired: Option<Vec<i64>>) -> Seq<i64> {
    match repaired {
        Some(valid) => valid@,
        None => proposed,
    }
}

/// What one move of a node is given: the draws it consumes, the velocity
/// limits, the inertia, the two learning factors, and the swarm's best position.
pub struct Given {
    /// The random numbers, one draw per coordinate.
    pub draws: Seq<Draw>,
    /// The velocity limits, one pair per coordinate, the lower limit first.
    pub vlimit: Seq<(i64, i64)>,
    /// The weight of the velocity that the node has.
    pub inertia: i64,
    /// The learning factor of the pull toward the node's own best position.
    pub lfactor1: i64,
    /// The learning factor of the pull toward the swarm's best position.
    pub lfactor2: i64,
    /// The swarm's best position.
    pub global_best: Seq<i64>,
}

/// Puts together what one move of a node is given.
pub open spec fn given(
    draws: Seq<Draw>,
    vlimit: Seq<(i64, i64)>,
    inertia: i64,
    lfactor1: i64,
    lfactor2: i64,
    global_best: Seq<i64>,
) -> Given {
    Given { draws, vlimit, inertia, lfactor1, lfactor2, global_best }
}

/// One member of the swarm: a particle with its position, its velocity and the
/// best it has reached.
#[derive(Debug, Clone)]
pub struct BasePsoNode<T> where T: PsoParticle<i64> {
    /// The caller's model of the candidate solution that the node carries.
    pub particle: T,
    position: Vec<i64>,
    speed: Vec<i64>,
    self_best_position: Vec<i64>,
    self_best_performance: i64,
}

impl<T> BasePsoNode<T> where T: PsoParticle<i64> {
    /// The particle of the node.
    pub closed spec fn particle(&self) -> T {
        self.particle
    }

    /// The position of the node.
    pub closed spec fn position(&self) -> Seq<i64> {
        self.position@
    }

    /// The velocity of the node.
    pub closed spec fn speed(&self) -> Seq<i64> {
        self.speed@
    }

    /// The position at which the node reported its best score.
    pub closed spec fn best_position(&self) -> Seq<i64> {
        self.self_best_position@
    }

    /// The best score that the node has reported.
    pub closed spec fn best_performance(&self) -> i64 {
        self.self_best_performance
    }

    /// The number of coordinates of the node.
    pub open spec fn dimension(&self) -> nat {
        self.position().len()
    }

    /// Position, velocity and best position have the same number of coordinates.
    pub open spec fn wf(&self) -> bool {
        &&& self.speed().len() == self.dimension()
        &&& self.best_position().len() == self.dimension()
    }

    /// Whether the node can make the move: it is well formed; limits, swarm
    /// best and draws cover its coordinates; and the draws have unit scales.
    pub open spec fn accepts(&self, given: Given) -> bool {
        &&& self.wf()
        &&& given.vlimit.len() == self.dimension()
        &&& given.global_best.len() == self.dimension()
        &&& unit_draws(given.draws, self.dimension())
    }

    /// The velocity that the move gives the node.
    pub open spec fn proposed_speed(&self, given: Given) -> Seq<i64> {
        Seq::new(
            self.dimension(),
            |i: int|
                next_velocity(
                    self.speed()[i] as int,
                    self.position()[i] as int,
                    self.best_position()[i] as int,
                    given.global_best[i] as int,
                    given.inertia as int,
                    given.lfactor1 as int,
                    given.lfactor2 as int,
                    given.vlimit[i],
                    given.draws[i],
                ) as i64,
        )
    }

    /// The position that the move proposes to the particle.
    pub open spec fn proposed_position(&self, given: Given) -> Seq<i64> {
        Seq::new(
            self.dimension(),
            |i: int|
                next_position(self.position()[i] as int, self.proposed_speed(given)[i] as int)
                    as i64,
        )
    }

    /// What the move makes of the node: `after` is the node it leaves and
    /// `performance` the score it returns. The velocity is the proposed one;
    /// the position is the proposed one where the particle accepts it, else the
    /// one that the particle hands back; the score is that of the particle
    /// after the move; a score above the best so far becomes the best, with the
    /// proposed position as best position, and any other score leaves both as
    /// they were.
    pub open spec fn moves_to(&self, after: Self, performance: i64, given: Given) -> bool {
        &&& after.wf()
        &&& after.dimension() == self.dimension()
        &&& after.speed() == self.proposed_speed(given)
        &&& exists|repaired: Option<Vec<i64>>|
            {
                &&& #[trigger] self.particle().answers(
                    after.particle(),
                    self.proposed_position(given),
                    repaired,
                )
                &&& after.position() == landing(self.proposed_position(given), repaired)
            }
        &&& performance == after.particle().performance()
        &&& performance > self.best_performance() ==> {
            &&& after.best_performance() == performance
            &&& after.best_position() == self.proposed_position(given)
        }
        &&& performance <= self.best_performance() ==> {
            &&& after.best_performance() == self.best_performance()
            &&& after.best_position() == self.best_position()
        }
    }

    /// Replaying the draws replays the proposal: two nodes with the same
    /// position, velocity and best position propose the same velocity and the
    /// same position when given the same, whatever their particles are.
    pub proof fn lemma_same_draws_same_proposal(first: Self, second: Self, given: Given)
        requires
            first.position() == second.position(),
            first.speed() == second.speed(),
            first.best_position() == second.best_position(),
        ensures
            first.proposed_speed(given) == second.proposed_speed(given),
            first.proposed_position(given) == second.proposed_position(given),
    {
        assert(first.proposed_speed(given) =~= second.proposed_speed(given));
        assert(first.proposed_position(given) =~= second.proposed_position(given));
    }

    /// Replaying the draws replays the move: where two nodes that agree in
    /// position, velocity and best make a move with the same given, and their
    /// particles give the same answer `repaired` and the same score, the nodes
    /// agree again after the move.
    pub proof fn lemma_same_draws_same_move(
        first: Self,
        second: Self,
        first_after: Self,
        second_after: Self,
        repaired: Option<Vec<i64>>,
        performance: i64,
        given: Given,
    )
        requires
            first.position() == second.position(),
            first.speed() == second.speed(),
            first.best_position() == second.best_position(),
            first.best_performance() == second.best_performance(),
            first.moves_to(first_after, performance, given),
            second.moves_to(second_after, performance, given),
            first_after.position() == landing(first.proposed_position(given), repaired),
            second_after.position() == landing(second.proposed_position(given), repaired),
        ensures
            first_after.position() == second_after.position(),
            first_after.speed() == second_after.speed(),
            first_after.best_position() == second_after.best_position(),
            first_after.best_performance() == second_after.best_performance(),
    {
        Self::lemma_same_draws_same_proposal(first, second, given);
    }

    /// With ordered limits and suited draws, every proposed velocity lies
    /// within the limits of its coordinate.
    pub proof fn lemma_proposed_speed_within_limits(node: Self, given: Given)
        requires
            ordered_limits(given.vlimit, node.dimension()),
            suited_draws(given.draws, given.vlimit),
        ensures
            within_limits(node.proposed_speed(given), given.vlimit),
    {
        assert forall|i: int| 0 <= i < node.dimension() implies given.vlimit[i].0
            <= #[trigger] node.proposed_speed(given)[i] <= given.vlimit[i].1 by {
            assert(given.draws[i].suits(given.vlimit[i]));
        }
    }

    /// A node at `position`: at rest, with a particle placed there, and with
    /// that position and the particle's score as its best so far.
    pub fn new(position: Vec<i64>) -> (node: Self)
        ensures
            node.wf(),
            node.position() == position@,
            node.speed() == Seq::new(position@.len(), |i: int| 0i64),
            node.best_position() == position@,
            node.best_performance() == node.particle().performance(),
            T::placed_at(position@, node.particle()),
    {
        let d: usize = position.len();
        let pz: Vec<i64> = position.clone();
        let ptc: T = T::init(position);
        let mut v: Vec<i64> = Vec::with_capacity(d);
        let pms: i64 = ptc.get_performance();
        let pzb: Vec<i64> = pz.clone();
        let mut i: usize = 0;
        while i < d
            invariant
                i <= d,
                v@ == Seq::new(i as nat, |k: int| 0i64),
            decreases d - i,
        {
            v.push(0);
            i = i + 1;
        }
        Self {
            particle: ptc,
            position: pz,
            speed: v,
            self_best_position: pzb,
            self_best_performance: pms,
        }
    }

    /// Computes the velocity and the position that the move proposes, without
    /// moving the node.
    pub fn propose(
        &self,
        draws: &Vec<Draw>,
        vlimit: &Vec<(i64, i64)>,
        inertia: i64,
        lfactor1: i64,
        lfactor2: i64,
        global_best: &Vec<i64>,
    ) -> (proposal: (Vec<i64>, Vec<i64>))
        requires
            self.accepts(given(draws@, vlimit@, inertia, lfactor1, lfactor2, global_best@)),
        ensures
            proposal.0@ == self.proposed_speed(
                given(draws@, vlimit@, inertia, lfactor1, lfactor2, global_best@),
            ),
            proposal.1@ == self.proposed_position(
                given(draws@, vlimit@, inertia, lfactor1, lfactor2, global_best@),
            ),
    {
        let len: usize = self.position.len();
        let mut nspeed: Vec<i64> = Vec::with_capacity(len);
        let mut npos: Vec<i64> = Vec::with_capacity(len);
        let ghost all = given(draws@, vlimit@, inertia, lfactor1, lfactor2, global_best@);
        let mut i: usize = 0;
        while i < len
            invariant
                i <= len,
                len == self.dimension(),
                all == given(draws@, vlimit@, inertia, lfactor1, lfactor2, global_best@),
                self.accepts(all),
                nspeed@ == self.proposed_speed(all).take(i as int),
                npos@ == self.proposed_position(all).take(i as int),
            decreases len - i,
        {
            let xi: i64 = self.position[i];
            let vi: i64 = self.speed[i];
            let gi: i64 = global_best[i];
            let pi: i64 = self.self_best_position[i];
            let vlim: (i64, i64) = vlimit[i];
            let draw: Draw = draws[i];
            assert(draws@[i as int].scales_in_unit());
            let raw: i64 = blend(vi, xi, pi, gi, inertia, lfactor1, lfactor2, draw.own, draw.swarm);
            let vin: i64 = bound(raw, vlim.0, vlim.1, draw.fresh);
            let xin: i64 = advance(xi, vin);
            nspeed.push(vin);
            npos.push(xin);
            proof {
                assert(vin == self.proposed_speed(all)[i as int]);
                assert(xin == self.proposed_position(all)[i as int]);
                assert(self.proposed_speed(all).take(i as int + 1) =~= self.proposed_speed(
                    all,
                ).take(i as int).push(vin));
                assert(self.proposed_position(all).take(i as int + 1)
                    =~= self.proposed_position(all).take(i as int).push(xin));
            }
            i = i + 1;
        }
        proof {
            assert(self.proposed_speed(all).take(len as int) =~= self.proposed_speed(all));
            assert(self.proposed_position(all).take(len as int) =~= self.proposed_position(all));
        }
        (nspeed, npos)
    }

    /// Takes over the outcome of a move: the velocity `speed`, and as position
    /// what the particle made of `candidate`. Where `performance` exceeds the
    /// best score so far it becomes the best score, with `candidate` (not the
    /// repaired position) as the best position.
    pub fn settle(
        &mut self,
        speed: Vec<i64>,
        candidate: Vec<i64>,
        repaired: Option<Vec<i64>>,
        performance: i64,
    )
        requires
            old(self).wf(),
            speed@.len() == old(self).dimension(),
            candidate@.len() == old(self).dimension(),
            repaired matches Some(valid) ==> valid@.len() == old(self).dimension(),
        ensures
            final(self).wf(),
            final(self).particle() == old(self).particle(),
            final(self).speed() == speed@,
            final(self).position() == landing(candidate@, repaired),
            performance > old(self).best_performance() ==> {
                &&& final(self).best_performance() == performance
                &&& final(self).best_position() == candidate@
            },
            performance <= old(self).best_performance() ==> {
                &&& final(self).best_performance() == old(self).best_performance()
                &&& final(self).best_position() == old(self).best_position()
            },
    {
        self.speed = speed;
        match repaired {
            None => {
                self.position = candidate.clone();
            },
            Some(valid) => {
                self.position = valid;
            },
        }
        if performance > self.self_best_performance {
            self.self_best_performance = performance;
            self.self_best_position = candidate;
        }
    }

    /// Moves the node once with the given draws in place of a random source:
    /// proposes velocity and position, lets the particle accept or repair the
    /// position, and takes over the outcome. Returns the score of the particle
    /// after the move. The same node, coefficients and draws always propose the
    /// same velocity and position.
    pub fn update_with_draws(
        &mut self,
        draws: &Vec<Draw>,
        vlimit: &Vec<(i64, i64)>,
        inertia: i64,
        lfactor1: i64,
        lfactor2: i64,
        global_best: &Vec<i64>,
    ) -> (performance: i64)
        requires
            old(self).accepts(given(draws@, vlimit@, inertia, lfactor1, lfactor2, global_best@)),
        ensures
            old(self).moves_to(
                *final(self),
                performance,
                given(draws@, vlimit@, inertia, lfactor1, lfactor2, global_best@),
            ),
            final(self).best_performance() >= old(self).best_performance(),
            suited_draws(draws@, vlimit@) && ordered_limits(vlimit@, old(self).dimension())
                ==> within_limits(final(self).speed(), vlimit@),
    {
        let ghost all = given(draws@, vlimit@, inertia, lfactor1, lfactor2, global_best@);
        let proposal: (Vec<i64>, Vec<i64>) = self.propose(
            draws,
            vlimit,
            inertia,
            lfactor1,
            lfactor2,
            global_best,
        );
        let nspeed: Vec<i64> = proposal.0;
        let npos: Vec<i64> = proposal.1;
        let res: Option<Vec<i64>> = self.particle.update_position(&npos);
        let performance: i64 = self.particle.get_performance();
        let ghost answer = res;
        self.settle(nspeed, npos, res, performance);
        proof {
            assert(old(self).particle().answers(
                self.particle(),
                old(self).proposed_position(all),
                answer,
            ));
            if suited_draws(draws@, vlimit@) && ordered_limits(vlimit@, old(self).dimension()) {
                Self::lemma_proposed_speed_within_limits(*old(self), all);
            }
        }
        performance
    }

    /// Draws what one move of the node consumes, coordinate by coordinate: two
    /// unit scales, and a velocity between the limits where the limits ask for
    /// a fresh one.
    fn draw_for_move(
        &self,
        rng: &mut ThreadRng,
        vlimit: &Vec<(i64, i64)>,
        inertia: i64,
        lfactor1: i64,
        lfactor2: i64,
        global_best: &Vec<i64>,
    ) -> (draws: Vec<Draw>)
        requires
            self.wf(),
            ordered_limits(vlimit@, self.dimension()),
            global_best@.len() == self.dimension(),
        ensures
            suited_draws(draws@, vlimit@),
    {
        let len: usize = self.position.len();
        let mut draws: Vec<Draw> = Vec::with_capacity(len);
        let mut i: usize = 0;
        while i < len
            invariant
                i <= len,
                len == self.dimension(),
                self.wf(),
                ordered_limits(vlimit@, self.dimension()),
                global_best@.len() == self.dimension(),
                draws@.len() == i,
                forall|k: int| 0 <= k < i ==> (#[trigger] draws@[k]).suits(vlimit@[k]),
            decreases len - i,
        {
            let vlim: (i64, i64) = vlimit[i];
            assert(vlimit@[i as int].0 <= vlimit@[i as int].1);
            let rand1: i64 = uniform(rng, 0, ONE - 1);
            let rand2: i64 = uniform(rng, 0, ONE - 1);
            let raw: i64 = blend(
                self.speed[i],
                self.position[i],
                self.self_best_position[i],
                global_best[i],
                inertia,
                lfactor1,
                lfactor2,
                rand1,
                rand2,
            );
            let fresh: i64 = if wants_fresh(raw, vlim.0, vlim.1) {
                uniform(rng, vlim.0, vlim.1)
            } else {
                vlim.0
            };
            draws.push(Draw { own: rand1, swarm: rand2, fresh });
            i = i + 1;
        }
        draws
    }
}

impl<T> PsoNode<i64> for BasePsoNode<T> where T: PsoParticle<i64> {
    /// The node is well formed, and the limits are ordered pairs that cover its
    /// coordinates, as does the swarm's best position.
    open spec fn can_update(&self, vlimit: Seq<(i64, i64)>, global_best: Seq<i64>) -> bool {
        &&& self.wf()
        &&& ordered_limits(vlimit, self.dimension())
        &&& global_best.len() == self.dimension()
    }

    fn get_best_position(&self) -> (best: &Vec<i64>)
        ensures
            best@ == self.best_position(),
    {
        &self.self_best_position
    }

    fn get_best_performance(&self) -> (best: i64)
        ensures
            best == self.best_performance(),
    {
        self.self_best_performance
    }

    fn get_position(&self) -> (position: &Vec<i64>)
        ensures
            position@ == self.position(),
    {
        &self.position
    }

    fn get_performance(&self) -> (performance: i64)
        ensures
            performance == self.particle().performance(),
    {
        self.particle.get_performance()
    }

    fn get_speed(&self) -> (speed: &Vec<i64>)
        ensures
            speed@ == self.speed(),
    {
        &self.speed
    }

    /// Moves the node once with draws from `rng`: two unit scales for every
    /// coordinate, and a velocity from between the limits where the limits ask
    /// for a fresh one. What the draws make of the node is what
    /// [`BasePsoNode::update_with_draws`] makes of it. The velocity that the
    /// node is left with lies within the limits, and its best score does not
    /// fall.
    fn update_position(
        &mut self,
        rng: &mut ThreadRng,
        vlimit: &Vec<(i64, i64)>,
        inertia: &i64,
        lfactor1: &i64,
        lfactor2: &i64,
        global_best: &Vec<i64>,
    ) -> (performance: i64)
        ensures
            exists|draws: Seq<Draw>|
                suited_draws(draws, vlimit@) && #[trigger] old(self).moves_to(
                    *final(self),
                    performance,
                    given(draws, vlimit@, *inertia, *lfactor1, *lfactor2, global_best@),
                ),
            final(self).wf(),
            final(self).dimension() == old(self).dimension(),
            within_limits(final(self).speed(), vlimit@),
            final(self).best_performance() >= old(self).best_performance(),
            performance == final(self).particle().performance(),
    {
        let draws: Vec<Draw> = self.draw_for_move(
            rng,
            vlimit,
            *inertia,
            *lfactor1,
            *lfactor2,
            global_best,
        );
        let performance: i64 = self.update_with_draws(
            &draws,
            vlimit,
            *inertia,
            *lfactor1,
            *lfactor2,
            global_best,
        );
        assert(old(self).moves_to(
            *self,
            performance,
            given(draws@, vlimit@, *inertia, *lfactor1, *lfactor2, global_best@),
        ));
        performance
    }
}

/// Whether the provider of velocity limits hands out, for every generation and
/// every well-formed node of `dimension` coordinates, ordered limits that cover
/// those coordinates.
pub open spec fn supplies_limits<T, SF>(speed_field: SF, dimension: nat) -> bool where
    T: PsoParticle<i64>,
    SF: PsoAcc<BasePsoNode<T>, i64, Vec<(i64, i64)>>,
 {
    forall|generation: usize, node: BasePsoNode<T>, limits: Vec<(i64, i64)>|
        node.wf() && node.dimension() == dimension && #[trigger] speed_field.offers(
            generation,
            &node,
            limits,
        ) ==> ordered_limits(limits@, dimension)
}

/// A node as the swarm starts with it: at rest at a position within the position
/// limits, which with the particle's score is also its best so far.
pub open spec fn placed<T>(node: BasePsoNode<T>, position_field: Seq<(i64, i64)>) -> bool where
    T: PsoParticle<i64>,
 {
    &&& node.wf()
    &&& within_limits(node.position(), position_field)
    &&& node.speed() == Seq::new(node.dimension(), |i: int| 0i64)
    &&& node.best_position() == node.position()
    &&& node.best_performance() == node.particle().performance()
    &&& T::placed_at(node.position(), node.particle())
}

/// The swarm: its nodes, the providers of the coefficients, and the best score
/// seen so far with the position it was reported at.
#[derive(Debug, Clone)]
pub struct BasicPsoHandler<T, SF, I, LF> where
    T: PsoParticle<i64>,
    SF: PsoAcc<BasePsoNode<T>, i64, Vec<(i64, i64)>>,
    I: PsoAcc<BasePsoNode<T>, i64, i64>,
    LF: PsoAcc<BasePsoNode<T>, i64, i64>,
 {
    nodes: Vec<BasePsoNode<T>>,
    node_amount: usize,
    speed_field: SF,
    inertia: I,
    lfactor1: LF,
    lfactor2: LF,
    global_best_position: Vec<i64>,
    global_best_performance: i64,
}

impl<T, SF, I, LF> BasicPsoHandler<T, SF, I, LF> where
    T: PsoParticle<i64>,
    SF: PsoAcc<BasePsoNode<T>, i64, Vec<(i64, i64)>>,
    I: PsoAcc<BasePsoNode<T>, i64, i64>,
    LF: PsoAcc<BasePsoNode<T>, i64, i64>,
 {
    /// The nodes of the swarm, in the order in which a generation moves them.
    pub closed spec fn nodes(&self) -> Seq<BasePsoNode<T>> {
        self.nodes@
    }

    /// The number of nodes that the swarm was declared with.
    pub closed spec fn node_amount(&self) -> usize {
        self.node_amount
    }

    /// The provider of the velocity limits.
    pub closed spec fn speed_field(&self) -> SF {
        self.speed_field
    }

    /// The provider of the inertia.
    pub closed spec fn inertia(&self) -> I {
        self.inertia
    }

    /// The provider of the learning factor toward a node's own best.
    pub closed spec fn lfactor1(&self) -> LF {
        self.lfactor1
    }

    /// The provider of the learning factor toward the swarm's best.
    pub closed spec fn lfactor2(&self) -> LF {
        self.lfactor2
    }

    /// The position at which the best score was reported.
    pub closed spec fn best_position(&self) -> Seq<i64> {
        self.global_best_position@
    }

    /// The best score seen so far.
    pub closed spec fn best_performance(&self) -> i64 {
        self.global_best_performance
    }

    /// The number of coordinates of the search space.
    pub open spec fn dimension(&self) -> nat {
        self.best_position().len()
    }

    /// The swarm has the nodes it was declared with, at least one; every node
    /// is well formed and has the swarm's dimension; and the velocity limits
    /// that the provider hands out fit that dimension.
    pub open spec fn wf(&self) -> bool {
        &&& self.nodes().len() == self.node_amount()
        &&& self.nodes().len() > 0
        &&& forall|i: int|
            0 <= i < self.nodes().len() ==> (#[trigger] self.nodes()[i]).wf()
                && self.nodes()[i].dimension() == self.dimension()
        &&& supplies_limits(self.speed_field(), self.dimension())
    }

    /// `after` has the providers, the number of nodes and the dimension of `self`.
    pub open spec fn same_setup(&self, after: Self) -> bool {
        &&& after.speed_field() == self.speed_field()
        &&& after.inertia() == self.inertia()
        &&& after.lfactor1() == self.lfactor1()
        &&& after.lfactor2() == self.lfactor2()
        &&& after.node_amount() == self.node_amount()
        &&& after.nodes().len() == self.nodes().len()
        &&& after.dimension() == self.dimension()
    }

    /// What taking note of the score `performance`, reported by the node
    /// `index`, makes of the swarm's best: a score above the best so far
    /// replaces it, with the position of that node; any other score changes
    /// nothing.
    pub open spec fn notes(&self, after: Self, index: int, performance: i64) -> bool {
        &&& performance > self.best_performance() ==> {
            &&& after.best_performance() == performance
            &&& after.best_position() == after.nodes()[index].position()
        }
        &&& performance <= self.best_performance() ==> {
            &&& after.best_performance() == self.best_performance()
            &&& after.best_position() == self.best_position()
        }
    }

    /// What moving the node `index` in the generation `generation` makes of the
    /// swarm, where the node returns the score `performance`: the node moves
    /// with coefficients that the providers offer for it, with suited draws and
    /// toward the best position of the swarm before the move, and is left with
    /// a velocity within the limits; no other node changes; and the swarm takes
    /// note of the score.
    pub open spec fn steps_to(
        &self,
        after: Self,
        generation: usize,
        index: int,
        performance: i64,
    ) -> bool {
        &&& self.same_setup(after)
        &&& forall|j: int|
            0 <= j < self.nodes().len() && j != index ==> #[trigger] after.nodes()[j]
                == self.nodes()[j]
        &&& exists|limits: Vec<(i64, i64)>, all: Given|
            {
                &&& #[trigger] self.speed_field().offers(generation, &self.nodes()[index], limits)
                &&& self.inertia().offers(generation, &self.nodes()[index], all.inertia)
                &&& self.lfactor1().offers(generation, &self.nodes()[index], all.lfactor1)
                &&& self.lfactor2().offers(generation, &self.nodes()[index], all.lfactor2)
                &&& all.vlimit == limits@
                &&& all.global_best == self.best_position()
                &&& suited_draws(all.draws, all.vlimit)
                &&& within_limits(after.nodes()[index].speed(), all.vlimit)
                &&& #[trigger] self.nodes()[index].moves_to(
                    after.nodes()[index],
                    performance,
                    all,
                )
            }
        &&& self.notes(after, index, performance)
    }

    /// `after` is a state that the swarm `self` can reach by moving nodes: the
    /// setup is the same, no best score has fallen, neither the swarm's nor a
    /// node's, and a best position has changed only together with its score.
    pub open spec fn leads_to(&self, after: Self) -> bool {
        &&& self.same_setup(after)
        &&& after.wf()
        &&& after.best_performance() >= self.best_performance()
        &&& after.best_performance() == self.best_performance() ==> after.best_position()
            == self.best_position()
        &&& forall|i: int|
            0 <= i < self.nodes().len() ==> (#[trigger] after.nodes()[i]).best_performance()
                >= self.nodes()[i].best_performance()
        &&& forall|i: int|
            0 <= i < self.nodes().len() && (#[trigger] after.nodes()[i]).best_performance()
                == self.nodes()[i].best_performance() ==> after.nodes()[i].best_position()
                == self.nodes()[i].best_position()
    }

    /// `states` and `scores` record one generation that takes the swarm from
    /// `self` to `after`: the nodes move one after the other in their order,
    /// each from the state that the node before it has left, so that a node
    /// sees the best position as updated by the nodes before it.
    pub open spec fn traces_generation(
        &self,
        after: Self,
        generation: usize,
        states: Seq<Self>,
        scores: Seq<i64>,
    ) -> bool {
        &&& states.len() == self.nodes().len() + 1
        &&& scores.len() == self.nodes().len()
        &&& states[0] == *self
        &&& states[self.nodes().len() as int] == after
        &&& forall|k: int|
            0 <= k < self.nodes().len() ==> (#[trigger] states[k]).steps_to(
                states[k + 1],
                generation,
                k,
                scores[k],
            )
    }

    /// One generation can take the swarm from `self` to `after`.
    pub open spec fn runs_generation(&self, after: Self, generation: usize) -> bool {
        exists|states: Seq<Self>, scores: Seq<i64>| #[trigger]
            self.traces_generation(after, generation, states, scores)
    }

    /// `rounds` records a run of `generations` generations that takes the swarm
    /// from `self` to `after`: the state before the first generation, and the
    /// state after each, the generations being numbered from zero.
    pub open spec fn traces_run(&self, after: Self, generations: usize, rounds: Seq<Self>) -> bool {
        &&& rounds.len() == generations + 1
        &&& rounds[0] == *self
        &&& rounds[generations as int] == after
        &&& forall|g: int|
            0 <= g < generations ==> (#[trigger] rounds[g]).runs_generation(
                rounds[g + 1],
                g as usize,
            )
    }

    /// A run of `generations` generations can take the swarm from `self` to `after`.
    pub open spec fn runs(&self, after: Self, generations: usize) -> bool {
        exists|rounds: Seq<Self>| #[trigger] self.traces_run(after, generations, rounds)
    }

    /// Each of the first `count` nodes scores no higher than its own best and
    /// no higher than the swarm's best.
    pub open spec fn settled_up_to(&self, count: int) -> bool {
        forall|i: int|
            0 <= i < count ==> {
                &&& (#[trigger] self.nodes()[i]).particle().performance()
                    <= self.nodes()[i].best_performance()
                &&& self.nodes()[i].particle().performance() <= self.best_performance()
            }
    }

    /// Every node scores no higher than its own best and no higher than the
    /// swarm's best: the state after a full generation.
    pub open spec fn settled(&self) -> bool {
        self.settled_up_to(self.nodes().len() as int)
    }

    /// One random position within the limits `flimit`, coordinate by coordinate.
    fn random_list(rng: &mut ThreadRng, flimit: &Vec<(i64, i64)>) -> (res: Vec<i64>)
        requires
            ordered_limits(flimit@, flimit@.len()),
        ensures
            within_limits(res@, flimit@),
    {
        let flen: usize = flimit.len();
        let mut res: Vec<i64> = Vec::with_capacity(flen);
        let mut i: usize = 0;
        while i < flen
            invariant
                i <= flen,
                flen == flimit@.len(),
                ordered_limits(flimit@, flimit@.len()),
                res@.len() == i,
                forall|k: int| 0 <= k < i ==> flimit@[k].0 <= #[trigger] res@[k] <= flimit@[k].1,
            decreases flen - i,
        {
            let limit: (i64, i64) = flimit[i];
            assert(flimit@[i as int].0 <= flimit@[i as int].1);
            let n: i64 = uniform(rng, limit.0, limit.1);
            res.push(n);
            i = i + 1;
        }
        res
    }

    /// Fills the swarm with its nodes, each at a random position within
    /// `position_field`, and takes the position of the first node as the best
    /// position. Hands the swarm back for further calls.
    fn init(&mut self, position_field: Vec<(i64, i64)>) -> (filled: &mut Self)
        requires
            old(self).node_amount() > 0,
            ordered_limits(position_field@, position_field@.len()),
        ensures
            *final(self) == *final(filled),
            filled.nodes().len() == old(self).node_amount(),
            forall|i: int|
                0 <= i < filled.nodes().len() ==> placed(#[trigger] filled.nodes()[i], position_field@),
            filled.best_position() == filled.nodes()[0].position(),
            filled.best_performance() == old(self).best_performance(),
            filled.node_amount() == old(self).node_amount(),
            filled.speed_field() == old(self).speed_field(),
            filled.inertia() == old(self).inertia(),
            filled.lfactor1() == old(self).lfactor1(),
            filled.lfactor2() == old(self).lfactor2(),
    {
        let mut nds: Vec<BasePsoNode<T>> = Vec::with_capacity(self.node_amount);
        let mut rng: ThreadRng = thread_source();
        let init_limit: Vec<(i64, i64)> = position_field;
        let mut k: usize = 0;
        while k < self.node_amount
            invariant
                k <= self.node_amount,
                *self == *old(self),
                init_limit == position_field,
                ordered_limits(init_limit@, init_limit@.len()),
                nds@.len() == k,
                forall|i: int| 0 <= i < k ==> placed(#[trigger] nds@[i], init_limit@),
            decreases self.node_amount - k,
        {
            let rlist: Vec<i64> = Self::random_list(&mut rng, &init_limit);
            let bn: BasePsoNode<T> = BasePsoNode::new(rlist);
            nds.push(bn);
            k = k + 1;
        }
        self.global_best_position = nds[0].get_position().clone();
        self.nodes = nds;
        self
    }

    /// Builds a swarm of `node_amo` nodes in a space of `dimension`
    /// coordinates. The swarm is built exactly when the velocity limits that
    /// `speed_field` hands out at the start cover `dimension` coordinates;
    /// otherwise the result is the error of [`Error::dimension_mismatch`]. The
    /// nodes start at rest at random positions within `position_field`; the
    /// best score starts as `init_best`, and the best position as the position
    /// of the first node.
    ///
    /// Where the swarm can be built, the caller owes it at least one node,
    /// position limits that are ordered pairs for `dimension` coordinates, and
    /// a provider of velocity limits that hands out ordered pairs for
    /// `dimension` coordinates whenever it is asked.
    pub fn new(
        node_amo: usize,
        dimension: usize,
        speed_field: SF,
        position_field: Vec<(i64, i64)>,
        inertia: I,
        lfactor1: LF,
        lfactor2: LF,
        init_best: i64,
    ) -> (outcome: Result<Self, Error>)
        requires
            (exists|limits: Vec<(i64, i64)>| #[trigger]
                speed_field.offers_at_start(limits) && limits@.len() == dimension) ==> {
                &&& node_amo > 0
                &&& ordered_limits(position_field@, dimension as nat)
                &&& supplies_limits(speed_field, dimension as nat)
            },
        ensures
            (forall|limits: Vec<(i64, i64)>| #[trigger]
                speed_field.offers_at_start(limits) ==> limits@.len() == dimension)
                ==> outcome is Ok,
            (forall|limits: Vec<(i64, i64)>| #[trigger]
                speed_field.offers_at_start(limits) ==> limits@.len() != dimension)
                ==> outcome is Err,
            match outcome {
                Ok(handler) => {
                    &&& exists|limits: Vec<(i64, i64)>| #[trigger]
                        speed_field.offers_at_start(limits) && limits@.len() == dimension
                    &&& handler.wf()
                    &&& handler.dimension() == dimension
                    &&& handler.nodes().len() == node_amo
                    &&& handler.speed_field() == speed_field
                    &&& handler.inertia() == inertia
                    &&& handler.lfactor1() == lfactor1
                    &&& handler.lfactor2() == lfactor2
                    &&& handler.best_performance() == init_best
                    &&& handler.best_position() == handler.nodes()[0].position()
                    &&& forall|i: int|
                        0 <= i < handler.nodes().len() ==> placed(
                            #[trigger] handler.nodes()[i],
                            position_field@,
                        )
                },
                Err(error) => exists|limits: Vec<(i64, i64)>|
                    {
                        &&& #[trigger] speed_field.offers_at_start(limits)
                        &&& limits@.len() != dimension
                        &&& error.message() == mismatch_message(limits@.len(), dimension as nat)
                        &&& error.header() == Some(constructor_label())
                    },
            },
    {
        let start_limits: Vec<(i64, i64)> = speed_field.init_value();
        let inv: usize = start_limits.len();
        match check_dimension(inv, dimension) {
            Err(error) => {
                return Err(error);
            },
            Ok(_) => {},
        }
        let mut s: Self = Self {
            nodes: Vec::new(),
            node_amount: node_amo,
            speed_field,
            inertia,
            lfactor1,
            lfactor2,
            global_best_performance: init_best,
            global_best_position: Vec::new(),
        };
        s.init(position_field);
        Ok(s)
    }

    /// The nodes of the swarm.
    pub fn get_nodes(&self) -> (nodes: &Vec<BasePsoNode<T>>)
        ensures
            nodes@ == self.nodes(),
    {
        &self.nodes
    }

    /// Takes note of the score `performance` that the node `index` has
    /// reported: where it exceeds the best score so far, it becomes the best
    /// score and the node's position the best position. Nothing else changes.
    pub fn record(&mut self, index: usize, performance: i64)
        requires
            index < old(self).nodes().len(),
        ensures
            old(self).notes(*final(self), index as int, performance),
            final(self).nodes() == old(self).nodes(),
            final(self).node_amount() == old(self).node_amount(),
            final(self).speed_field() == old(self).speed_field(),
            final(self).inertia() == old(self).inertia(),
            final(self).lfactor1() == old(self).lfactor1(),
            final(self).lfactor2() == old(self).lfactor2(),
            old(self).wf() ==> final(self).wf() && final(self).dimension() == old(self).dimension(),
    {
        if performance > self.global_best_performance {
            self.global_best_performance = performance;
            self.global_best_position = self.nodes[index].get_position().clone();
        }
    }

    /// Moves the node `index` once, with the coefficients that the providers
    /// hand out for it in the generation `generation` and toward the best
    /// position as it stands, and takes note of the score it returns.
    pub fn advance_node(&mut self, rng: &mut ThreadRng, generation: usize, index: usize) -> (performance: i64)
        requires
            old(self).wf(),
            index < old(self).nodes().len(),
        ensures
            old(self).steps_to(*final(self), generation, index as int, performance),
            old(self).leads_to(*final(self)),
            performance == final(self).nodes()[index as int].particle().performance(),
            performance <= final(self).nodes()[index as int].best_performance(),
            performance <= final(self).best_performance(),
    {
        let spf: Vec<(i64, i64)> = self.speed_field.get_value(&generation, &self.nodes[index]);
        let ine: i64 = self.inertia.get_value(&generation, &self.nodes[index]);
        let l1: i64 = self.lfactor1.get_value(&generation, &self.nodes[index]);
        let l2: i64 = self.lfactor2.get_value(&generation, &self.nodes[index]);
        assert(ordered_limits(spf@, self.dimension()));
        let nbest: i64 = self.nodes[index].update_position(
            rng,
            &spf,
            &ine,
            &l1,
            &l2,
            &self.global_best_position,
        );
        self.record(index, nbest);
        nbest
    }

    /// Runs one generation: moves every node once, in order. Each node moves
    /// toward the best position as the nodes before it have left it.
    pub fn run_generation(&mut self, rng: &mut ThreadRng, generation: usize)
        requires
            old(self).wf(),
        ensures
            old(self).runs_generation(*final(self), generation),
            old(self).leads_to(*final(self)),
            final(self).settled(),
    {
        let count: usize = self.nodes.len();
        let ghost mut states: Seq<Self> = seq![*self];
        let ghost mut scores: Seq<i64> = Seq::empty();
        let mut index: usize = 0;
        while index < count
            invariant
                index <= count,
                count == self.nodes().len(),
                count == old(self).nodes().len(),
                old(self).leads_to(*self),
                self.settled_up_to(index as int),
                states.len() == index + 1,
                scores.len() == index,
                states[0] == *old(self),
                states[index as int] == *self,
                forall|k: int|
                    0 <= k < index ==> (#[trigger] states[k]).steps_to(
                        states[k + 1],
                        generation,
                        k,
                        scores[k],
                    ),
            decreases count - index,
        {
            let ghost before = *self;
            let performance: i64 = self.advance_node(rng, generation, index);
            proof {
                Self::lemma_leads_to_transitive(*old(self), before, *self);
                states = states.push(*self);
                scores = scores.push(performance);
            }
            index = index + 1;
        }
        assert(old(self).traces_generation(*self, generation, states, scores));
    }

    /// Reaching is transitive: what a reachable state leads to is reachable.
    pub proof fn lemma_leads_to_transitive(first: Self, second: Self, third: Self)
        requires
            first.leads_to(second),
            second.leads_to(third),
        ensures
            first.leads_to(third),
    {
    }

    /// A run of no generation leaves the swarm as it is.
    pub proof fn lemma_empty_run_changes_nothing(before: Self, after: Self)
        requires
            before.runs(after, 0),
        ensures
            after == before,
    {
        let rounds = choose|rounds: Seq<Self>| #[trigger] before.traces_run(after, 0, rounds);
        assert(rounds[0] == before);
    }

    /// Moving one node lowers no best score: the state after the move is one
    /// that the state before it leads to.
    pub proof fn lemma_step_never_lowers(
        before: Self,
        after: Self,
        generation: usize,
        index: int,
        performance: i64,
    )
        requires
            before.wf(),
            0 <= index < before.nodes().len(),
            before.steps_to(after, generation, index, performance),
        ensures
            before.leads_to(after),
    {
        assert forall|i: int| 0 <= i < after.nodes().len() implies (#[trigger] after.nodes()[i]).wf()
            && after.nodes()[i].dimension() == after.dimension() by {
            if i != index {
                assert(after.nodes()[i] == before.nodes()[i]);
            }
        }
        assert forall|i: int| 0 <= i < before.nodes().len() implies {
            &&& (#[trigger] after.nodes()[i]).best_performance()
                >= before.nodes()[i].best_performance()
            &&& after.nodes()[i].best_performance() == before.nodes()[i].best_performance()
                ==> after.nodes()[i].best_position() == before.nodes()[i].best_position()
        } by {
            if i != index {
                assert(after.nodes()[i] == before.nodes()[i]);
            }
        }
    }

    /// The states of a recorded generation, up to the one before the node
    /// `count` moves, lower no best score.
    proof fn lemma_trace_never_lowers(
        before: Self,
        generation: usize,
        states: Seq<Self>,
        scores: Seq<i64>,
        count: nat,
    )
        requires
            before.wf(),
            states.len() == before.nodes().len() + 1,
            scores.len() == before.nodes().len(),
            states[0] == before,
            forall|k: int|
                0 <= k < before.nodes().len() ==> (#[trigger] states[k]).steps_to(
                    states[k + 1],
                    generation,
                    k,
                    scores[k],
                ),
            count <= before.nodes().len(),
        ensures
            before.leads_to(states[count as int]),
        decreases count,
    {
        if count > 0 {
            let last: int = count - 1;
            Self::lemma_trace_never_lowers(before, generation, states, scores, last as nat);
            assert(states[last].steps_to(states[last + 1], generation, last, scores[last]));
            Self::lemma_step_never_lowers(
                states[last],
                states[last + 1],
                generation,
                last,
                scores[last],
            );
            Self::lemma_leads_to_transitive(before, states[last], states[count as int]);
        }
    }

    /// A generation lowers no best score, neither the swarm's nor a node's.
    pub proof fn lemma_generation_never_lowers(before: Self, after: Self, generation: usize)
        requires
            before.wf(),
            before.runs_generation(after, generation),
        ensures
            before.leads_to(after),
    {
        let (states, scores) = choose|states: Seq<Self>, scores: Seq<i64>| #[trigger]
            before.traces_generation(after, generation, states, scores);
        Self::lemma_trace_never_lowers(before, generation, states, scores, before.nodes().len());
    }

    /// The states of a recorded run, up to the one after `count` generations,
    /// lower no best score.
    proof fn lemma_rounds_never_lower(
        before: Self,
        generations: usize,
        rounds: Seq<Self>,
        count: nat,
    )
        requires
            before.wf(),
            rounds.len() == generations + 1,
            rounds[0] == before,
            forall|g: int|
                0 <= g < generations ==> (#[trigger] rounds[g]).runs_generation(
                    rounds[g + 1],
                    g as usize,
                ),
            count <= generations,
        ensures
            before.leads_to(rounds[count as int]),
        decreases count,
    {
        if count > 0 {
            let last: int = count - 1;
            Self::lemma_rounds_never_lower(before, generations, rounds, last as nat);
            assert(rounds[last].runs_generation(rounds[last + 1], last as usize));
            Self::lemma_generation_never_lowers(rounds[last], rounds[last + 1], last as usize);
            Self::lemma_leads_to_transitive(before, rounds[last], rounds[count as int]);
        }
    }

    /// A run of any number of generations lowers no best score: after every
    /// generation the swarm's best score is at least what it was after the
    /// generation before, and so is the best score of every node.
    pub proof fn lemma_run_never_lowers(before: Self, after: Self, generations: usize)
        requires
            before.wf(),
            before.runs(after, generations),
        ensures
            before.leads_to(after),
            after.best_performance() >= before.best_performance(),
            forall|i: int|
                0 <= i < before.nodes().len() ==> (#[trigger] after.nodes()[i]).best_performance()
                    >= before.nodes()[i].best_performance(),
    {
        let rounds = choose|rounds: Seq<Self>| #[trigger]
            before.traces_run(after, generations, rounds);
        Self::lemma_rounds_never_lower(before, generations, rounds, generations as nat);
    }
}

impl<T, SF, I, LF> PsoHandler<i64> for BasicPsoHandler<T, SF, I, LF> where
    T: PsoParticle<i64>,
    SF: PsoAcc<BasePsoNode<T>, i64, Vec<(i64, i64)>>,
    I: PsoAcc<BasePsoNode<T>, i64, i64>,
    LF: PsoAcc<BasePsoNode<T>, i64, i64>,
 {
    /// Generations can run from every well-formed swarm.
    open spec fn can_start(&self) -> bool {
        self.wf()
    }

    fn get_global_best_performance(&self) -> (best: i64)
        ensures
            best == self.best_performance(),
    {
        self.global_best_performance
    }

    fn get_global_best_position(&self) -> (best: &Vec<i64>)
        ensures
            best@ == self.best_position(),
    {
        &self.global_best_position
    }

    /// Runs `generation` generations, one after the other. No best score falls,
    /// neither the swarm's nor a node's. Without a generation nothing changes;
    /// after at least one, the swarm is settled.
    fn start(&mut self, generation: usize)
        ensures
            old(self).runs(*final(self), generation),
            old(self).leads_to(*final(self)),
            generation == 0 ==> *final(self) == *old(self),
            generation > 0 ==> final(self).settled(),
    {
        let mut rng: ThreadRng = thread_source();
        let ghost mut rounds: Seq<Self> = seq![*self];
        let mut gene: usize = 0;
        while gene < generation
            invariant
                gene <= generation,
                old(self).leads_to(*self),
                gene == 0 ==> *self == *old(self),
                gene > 0 ==> self.settled(),
                rounds.len() == gene + 1,
                rounds[0] == *old(self),
                rounds[gene as int] == *self,
                forall|g: int|
                    0 <= g < gene ==> (#[trigger] rounds[g]).runs_generation(
                        rounds[g + 1],
                        g as usize,
                    ),
            decreases generation - gene,
        {
            let ghost before = *self;
            self.run_generation(&mut rng, gene);
            proof {
                Self::lemma_leads_to_transitive(*old(self), before, *self);
                rounds = rounds.push(*self);
            }
            gene = gene + 1;
        }
        assert(old(self).traces_run(*self, generation, rounds));
    }
}

} // verus!
