use pso_rust::basic::BasePsoNode;
use pso_rust::fixed::ONE;
use pso_rust::motion::Draw;
use pso_rust::traits::{PsoNode, PsoParticle};

fn square(x: i64) -> i64 {
    ((x as i128 * x as i128) / ONE as i128) as i64
}

fn bowl(position: &[i64]) -> i64 {
    -position.iter().map(|x| square(*x)).sum::<i64>()
}

/// Scores a position by its distance from the origin and resets every
/// coordinate beyond ten to zero.
#[derive(Debug, Clone, PartialEq)]
struct Bowl {
    at: Vec<i64>,
    score: i64,
}

impl PsoParticle<i64> for Bowl {
    fn get_performance(&self) -> i64 {
        self.score
    }

    fn update_position(&mut self, position: &Vec<i64>) -> Option<Vec<i64>> {
        let inside = |x: &i64| -10 * ONE <= *x && *x <= 10 * ONE;
        if position.iter().all(inside) {
            self.at = position.clone();
            self.score = bowl(&self.at);
            None
        } else {
            self.at = position.iter().map(|x| if inside(x) { *x } else { 0 }).collect();
            self.score = bowl(&self.at);
            Some(self.at.clone())
        }
    }

    fn init(position: Vec<i64>) -> Self {
        let score = bowl(&position);
        Bowl { at: position, score }
    }
}

fn even(own: i64, swarm: i64, count: usize) -> Vec<Draw> {
    vec![Draw { own, swarm, fresh: 0 }; count]
}

#[test]
fn new_node_rests_at_its_position() {
    let node: BasePsoNode<Bowl> = BasePsoNode::new(vec![3 * ONE, -4 * ONE]);
    assert_eq!(node.get_position(), &vec![3 * ONE, -4 * ONE]);
    assert_eq!(node.get_speed(), &vec![0, 0]);
    assert_eq!(node.get_best_position(), &vec![3 * ONE, -4 * ONE]);
    assert_eq!(node.get_best_performance(), -25 * ONE);
    assert_eq!(node.get_performance(), -25 * ONE);
    assert_eq!(node.particle.at, vec![3 * ONE, -4 * ONE]);
}

#[test]
fn new_node_without_coordinates() {
    let node: BasePsoNode<Bowl> = BasePsoNode::new(Vec::new());
    assert!(node.get_position().is_empty());
    assert!(node.get_speed().is_empty());
    assert!(node.get_best_position().is_empty());
    assert_eq!(node.get_best_performance(), 0);
}

#[test]
fn update_with_draws_moves_by_the_rule() {
    let mut node: BasePsoNode<Bowl> = BasePsoNode::new(vec![ONE, -ONE]);
    let limits = vec![(-2 * ONE, 2 * ONE), (-2 * ONE, 2 * ONE)];
    let best = vec![0, 0];
    let draws = even(ONE / 2, ONE / 4, 2);

    // 0.5 * 0 + 2 * 0.5 * (1 - 1) + 2 * 0.25 * (0 - 1) = -0.5, and the mirror image
    let score = node.update_with_draws(&draws, &limits, ONE / 2, 2 * ONE, 2 * ONE, &best);
    assert_eq!(node.get_speed(), &vec![-ONE / 2, ONE / 2]);
    assert_eq!(node.get_position(), &vec![ONE / 2, -ONE / 2]);
    assert_eq!(score, -ONE / 2);
    assert_eq!(node.get_performance(), -ONE / 2);
    assert_eq!(node.get_best_performance(), -ONE / 2);
    assert_eq!(node.get_best_position(), &vec![ONE / 2, -ONE / 2]);

    // 0.5 * (-0.5) + 2 * 0.5 * (0.5 - 0.5) + 2 * 0.25 * (0 - 0.5) = -0.5
    let score = node.update_with_draws(&draws, &limits, ONE / 2, 2 * ONE, 2 * ONE, &best);
    assert_eq!(node.get_speed(), &vec![-ONE / 2, ONE / 2]);
    assert_eq!(node.get_position(), &vec![0, 0]);
    assert_eq!(score, 0);
    assert_eq!(node.get_best_performance(), 0);
    assert_eq!(node.get_best_position(), &vec![0, 0]);
}

#[test]
fn update_with_draws_is_pulled_toward_its_own_best() {
    let mut node: BasePsoNode<Bowl> = BasePsoNode::new(vec![0]);
    let limits = vec![(-5 * ONE, 5 * ONE)];
    // moves to 3 and scores -9: the best stays at the origin
    let away = node.update_with_draws(&even(0, ONE / 2, 1), &limits, 0, ONE, 2 * ONE, &vec![3 * ONE]);
    assert_eq!(node.get_position(), &vec![3 * ONE]);
    assert_eq!(away, -9 * ONE);
    assert_eq!(node.get_best_position(), &vec![0]);
    // 0 * 3 + 1 * 0.5 * (0 - 3) + 2 * 0 * (3 - 3) = -1.5
    let back = node.update_with_draws(&even(ONE / 2, 0, 1), &limits, 0, ONE, 2 * ONE, &vec![3 * ONE]);
    assert_eq!(node.get_speed(), &vec![-3 * ONE / 2]);
    assert_eq!(node.get_position(), &vec![3 * ONE / 2]);
    assert_eq!(back, -9 * ONE / 4);
}

#[test]
fn velocity_beyond_the_limits_stops_at_the_limit() {
    let mut node: BasePsoNode<Bowl> = BasePsoNode::new(vec![0, 0]);
    let limits = vec![(-2 * ONE, 2 * ONE), (-2 * ONE, 2 * ONE)];
    let best = vec![8 * ONE, -8 * ONE];
    // 2 * 0.5 * (8 - 0) = 8 and 2 * 0.5 * (-8 - 0) = -8
    node.update_with_draws(&even(0, ONE / 2, 2), &limits, ONE, 2 * ONE, 2 * ONE, &best);
    assert_eq!(node.get_speed(), &vec![2 * ONE, -2 * ONE]);
    assert_eq!(node.get_position(), &vec![2 * ONE, -2 * ONE]);
}

#[test]
fn fresh_velocity_is_taken_when_the_limits_ask() {
    let mut node: BasePsoNode<Bowl> = BasePsoNode::new(vec![ONE]);
    let limits = vec![(2 * ONE, 4 * ONE)];
    let draws = vec![Draw { own: 0, swarm: 0, fresh: 3 * ONE }];
    // the velocity 0 lies below the lower limit 2 by the whole of it
    node.update_with_draws(&draws, &limits, ONE, ONE, ONE, &vec![ONE]);
    assert_eq!(node.get_speed(), &vec![3 * ONE]);
    assert_eq!(node.get_position(), &vec![4 * ONE]);
}

#[test]
fn fresh_velocity_is_ignored_when_the_limits_do_not_ask() {
    let mut node: BasePsoNode<Bowl> = BasePsoNode::new(vec![ONE]);
    let limits = vec![(2 * ONE, 4 * ONE)];
    let draws = vec![Draw { own: 0, swarm: ONE / 2, fresh: 3 * ONE }];
    // 2 * 0.5 * (2 - 1) = 1 lies below the lower limit 2 by half of it
    node.update_with_draws(&draws, &limits, ONE, ONE, 2 * ONE, &vec![2 * ONE]);
    assert_eq!(node.get_speed(), &vec![2 * ONE]);
    assert_eq!(node.get_position(), &vec![3 * ONE]);
}

#[test]
fn repaired_position_becomes_the_position() {
    let mut node: BasePsoNode<Bowl> = BasePsoNode::new(vec![19 * ONE / 2, ONE]);
    let limits = vec![(-2 * ONE, 2 * ONE), (-2 * ONE, 2 * ONE)];
    let best = vec![20 * ONE, ONE];
    // 2 * 0.5 * (20 - 9.5) = 10.5 stops at 2; 9.5 + 2 lies beyond ten
    let score = node.update_with_draws(&even(0, ONE / 2, 2), &limits, ONE, ONE, 2 * ONE, &best);
    assert_eq!(node.get_speed(), &vec![2 * ONE, 0]);
    assert_eq!(node.get_position(), &vec![0, ONE]);
    assert_eq!(node.particle.at, vec![0, ONE]);
    assert_eq!(score, -ONE);
}

#[test]
fn best_position_is_the_proposed_one_even_when_repaired() {
    let mut node: BasePsoNode<Bowl> = BasePsoNode::new(vec![19 * ONE / 2, ONE]);
    let limits = vec![(-2 * ONE, 2 * ONE), (-2 * ONE, 2 * ONE)];
    let best = vec![20 * ONE, ONE];
    let before = node.get_best_performance();
    let score = node.update_with_draws(&even(0, ONE / 2, 2), &limits, ONE, ONE, 2 * ONE, &best);
    assert!(score > before);
    assert_eq!(node.get_best_performance(), score);
    assert_eq!(node.get_best_position(), &vec![23 * ONE / 2, ONE]);
    assert_eq!(node.get_position(), &vec![0, ONE]);
}

#[test]
fn score_below_the_best_keeps_the_best() {
    let mut node: BasePsoNode<Bowl> = BasePsoNode::new(vec![ONE]);
    let limits = vec![(-2 * ONE, 2 * ONE)];
    // 2 * 0.5 * (3 - 1) = 2: moves to 3 and scores -9 after -1
    let score = node.update_with_draws(&even(0, ONE / 2, 1), &limits, ONE, ONE, 2 * ONE, &vec![3 * ONE]);
    assert_eq!(score, -9 * ONE);
    assert_eq!(node.get_position(), &vec![3 * ONE]);
    assert_eq!(node.get_best_performance(), -ONE);
    assert_eq!(node.get_best_position(), &vec![ONE]);
}

#[test]
fn score_equal_to_the_best_keeps_the_best_position() {
    let mut node: BasePsoNode<Bowl> = BasePsoNode::new(vec![ONE]);
    let limits = vec![(-2 * ONE, 2 * ONE)];
    // 2 * 0.5 * (-1 - 1) = -2: moves to -1, which scores -1 again
    let score = node.update_with_draws(&even(0, ONE / 2, 1), &limits, ONE, ONE, 2 * ONE, &vec![-ONE]);
    assert_eq!(score, -ONE);
    assert_eq!(node.get_position(), &vec![-ONE]);
    assert_eq!(node.get_best_performance(), -ONE);
    assert_eq!(node.get_best_position(), &vec![ONE]);
}

#[test]
fn propose_leaves_the_node_alone() {
    let node: BasePsoNode<Bowl> = BasePsoNode::new(vec![ONE, -ONE]);
    let limits = vec![(-2 * ONE, 2 * ONE), (-2 * ONE, 2 * ONE)];
    let (speed, position) =
        node.propose(&even(ONE / 2, ONE / 4, 2), &limits, ONE / 2, 2 * ONE, 2 * ONE, &vec![0, 0]);
    assert_eq!(speed, vec![-ONE / 2, ONE / 2]);
    assert_eq!(position, vec![ONE / 2, -ONE / 2]);
    assert_eq!(node.get_position(), &vec![ONE, -ONE]);
    assert_eq!(node.get_speed(), &vec![0, 0]);
}

#[test]
fn settle_takes_over_the_outcome() {
    let mut node: BasePsoNode<Bowl> = BasePsoNode::new(vec![ONE, ONE]);
    node.settle(vec![5, 6], vec![7, 8], None, -ONE);
    assert_eq!(node.get_speed(), &vec![5, 6]);
    assert_eq!(node.get_position(), &vec![7, 8]);
    assert_eq!(node.get_best_performance(), -ONE);
    assert_eq!(node.get_best_position(), &vec![7, 8]);

    node.settle(vec![1, 2], vec![3, 4], Some(vec![9, 9]), -ONE);
    assert_eq!(node.get_speed(), &vec![1, 2]);
    assert_eq!(node.get_position(), &vec![9, 9]);
    assert_eq!(node.get_best_performance(), -ONE);
    assert_eq!(node.get_best_position(), &vec![7, 8]);

    node.settle(vec![0, 0], vec![3, 4], Some(vec![9, 9]), 0);
    assert_eq!(node.get_position(), &vec![9, 9]);
    assert_eq!(node.get_best_performance(), 0);
    assert_eq!(node.get_best_position(), &vec![3, 4]);
}

#[test]
fn replaying_draws_replays_the_trajectory() {
    let limits = vec![(-2 * ONE, 2 * ONE), (ONE, 3 * ONE), (-3 * ONE, -ONE)];
    let best = vec![ONE, -2 * ONE, 4 * ONE];
    let mut first: BasePsoNode<Bowl> = BasePsoNode::new(vec![5 * ONE, -7 * ONE, 9 * ONE]);
    let mut second: BasePsoNode<Bowl> = BasePsoNode::new(vec![5 * ONE, -7 * ONE, 9 * ONE]);
    let mut seed: i64 = 12345;
    for _ in 0..50 {
        let mut draws = Vec::new();
        for limit in &limits {
            seed = (seed * 1_103_515_245 + 12345) % 2_147_483_648;
            let own = seed % ONE;
            seed = (seed * 1_103_515_245 + 12345) % 2_147_483_648;
            let swarm = seed % ONE;
            seed = (seed * 1_103_515_245 + 12345) % 2_147_483_648;
            let fresh = limit.0 + seed % (limit.1 - limit.0 + 1);
            draws.push(Draw { own, swarm, fresh });
        }
        let a = first.update_with_draws(&draws, &limits, ONE / 2, 2 * ONE, 2 * ONE, &best);
        let b = second.update_with_draws(&draws, &limits, ONE / 2, 2 * ONE, 2 * ONE, &best);
        assert_eq!(a, b);
        assert_eq!(first.get_position(), second.get_position());
        assert_eq!(first.get_speed(), second.get_speed());
        assert_eq!(first.get_best_position(), second.get_best_position());
        assert_eq!(first.get_best_performance(), second.get_best_performance());
        assert_eq!(first.particle, second.particle);
    }
}

#[test]
fn update_position_keeps_shape_limits_and_best() {
    let mut rng = rand::thread_rng();
    let limits = vec![(-2 * ONE, 2 * ONE), (ONE, 3 * ONE), (-3 * ONE, -ONE), (0, ONE)];
    let best = vec![ONE, -2 * ONE, 4 * ONE, 0];
    let mut node: BasePsoNode<Bowl> = BasePsoNode::new(vec![5 * ONE, -7 * ONE, 9 * ONE, 0]);
    let mut best_so_far = node.get_best_performance();
    for _ in 0..300 {
        let score = node.update_position(&mut rng, &limits, &(ONE / 2), &(2 * ONE), &(2 * ONE), &best);
        assert_eq!(node.get_position().len(), 4);
        assert_eq!(node.get_speed().len(), 4);
        assert_eq!(node.get_best_position().len(), 4);
        for (speed, limit) in node.get_speed().iter().zip(&limits) {
            assert!(limit.0 <= *speed && *speed <= limit.1);
        }
        assert_eq!(score, node.get_performance());
        assert!(node.get_best_performance() >= best_so_far);
        assert!(node.get_best_performance() >= score);
        best_so_far = node.get_best_performance();
    }
}

#[test]
fn update_position_draws_fresh_velocities_from_the_whole_range() {
    let mut rng = rand::thread_rng();
    let limits = vec![(ONE, 3 * ONE)];
    let mut seen = Vec::new();
    for _ in 0..64 {
        let mut node: BasePsoNode<Bowl> = BasePsoNode::new(vec![0]);
        // the velocity 0 lies below the lower limit by the whole of it
        node.update_position(&mut rng, &limits, &0, &0, &0, &vec![0]);
        let speed = node.get_speed()[0];
        assert!(ONE <= speed && speed <= 3 * ONE);
        seen.push(speed);
    }
    assert!(seen.iter().any(|speed| *speed != ONE));
    assert!(seen.iter().any(|speed| *speed != 3 * ONE));
    assert!(seen.iter().any(|speed| *speed != seen[0]));
}

#[test]
fn update_position_draws_scales_below_one() {
    let mut rng = rand::thread_rng();
    let limits = vec![(-100 * ONE, 100 * ONE)];
    let mut seen = Vec::new();
    for _ in 0..64 {
        let mut node: BasePsoNode<Bowl> = BasePsoNode::new(vec![0]);
        // the velocity is the scale itself: 1 * scale * (1 - 0)
        node.update_position(&mut rng, &limits, &0, &0, &ONE, &vec![ONE]);
        let speed = node.get_speed()[0];
        assert!(0 <= speed && speed < ONE);
        seen.push(speed);
    }
    assert!(seen.iter().any(|speed| *speed != 0));
    assert!(seen.iter().any(|speed| *speed != seen[0]));
}

#[test]
fn crossed_limits_stop_the_velocity_at_the_lower_one() {
    let mut node: BasePsoNode<Bowl> = BasePsoNode::new(vec![0]);
    let limits = vec![(2 * ONE, -2 * ONE)];
    let draws = vec![Draw { own: 0, swarm: ONE / 2, fresh: 0 }];
    // 2 * 0.5 * (1 - 0) = 1 lies below the lower limit 2 by half of it
    node.update_with_draws(&draws, &limits, ONE, ONE, 2 * ONE, &vec![ONE]);
    assert_eq!(node.get_speed(), &vec![2 * ONE]);
}
