use king_of_the_hill::board::{
    ArrowPhase, Board, CharacterPhase, ExplosionSlot, Foe, ARROW_POOL_SIZE, CANNONBALL_POOL_SIZE,
    EXPLOSION_POOL_SIZE,
};
use king_of_the_hill::strike::Reach;

const NONE: Reach = Reach { triguy: false, wedgeguy: false };
const TRI: Reach = Reach { triguy: true, wedgeguy: false };
const WEDGE: Reach = Reach { triguy: false, wedgeguy: true };
const BOTH: Reach = Reach { triguy: true, wedgeguy: true };

fn quiet(n: usize) -> Vec<Reach> {
    vec![NONE; n]
}

fn with(n: usize, i: usize, r: Reach) -> Vec<Reach> {
    let mut v = quiet(n);
    v[i] = r;
    v
}

/// Both foes on the field.
fn field() -> Board {
    let mut b = Board::new();
    b.advance_foe(Foe::Triguy, true, false);
    b.advance_foe(Foe::Wedgeguy, true, false);
    b
}

#[test]
fn arrow_knocks_out_foe_for_a_point() {
    let mut b = field();
    b.fire(true, true, true, true);
    let rep = b.resolve_hits(
        &with(ARROW_POOL_SIZE, 0, TRI),
        &quiet(CANNONBALL_POOL_SIZE),
        &quiet(EXPLOSION_POOL_SIZE),
        &quiet(CANNONBALL_POOL_SIZE),
    );
    assert!(rep.triguy_hit);
    assert!(!rep.wedgeguy_hit);
    assert_eq!(rep.points, 1);
    assert_eq!(b.score(), 1);
    assert!(rep.spent_arrows[0]);
    assert_eq!(b.arrow(0), ArrowPhase::Inactive);
    assert_eq!(b.phase(Foe::Triguy), CharacterPhase::Inactive);
    assert_eq!(b.phase(Foe::Wedgeguy), CharacterPhase::Approaching);
}

#[test]
fn one_arrow_can_knock_out_both() {
    let mut b = field();
    b.fire(true, true, true, true);
    let rep = b.resolve_hits(
        &with(ARROW_POOL_SIZE, 0, BOTH),
        &quiet(CANNONBALL_POOL_SIZE),
        &quiet(EXPLOSION_POOL_SIZE),
        &quiet(CANNONBALL_POOL_SIZE),
    );
    assert_eq!(rep.points, 2);
    assert_eq!(b.score(), 2);
    assert!(rep.triguy_hit && rep.wedgeguy_hit);
}

#[test]
fn foe_already_out_cannot_be_hit() {
    let mut b = field();
    b.fire(true, true, true, true);
    b.fire(true, true, true, true);
    let mut reach = quiet(ARROW_POOL_SIZE);
    reach[0] = TRI;
    reach[1] = TRI;
    let rep = b.resolve_hits(
        &reach,
        &quiet(CANNONBALL_POOL_SIZE),
        &quiet(EXPLOSION_POOL_SIZE),
        &quiet(CANNONBALL_POOL_SIZE),
    );
    assert_eq!(rep.points, 1);
    assert!(rep.spent_arrows[0]);
    assert!(!rep.spent_arrows[1]);
    assert_eq!(b.arrow(1), ArrowPhase::Flying);
    // A waiting foe is out too.
    let mut idle = Board::new();
    idle.fire(true, true, true, true);
    let rep = idle.resolve_hits(
        &with(ARROW_POOL_SIZE, 0, BOTH),
        &quiet(CANNONBALL_POOL_SIZE),
        &quiet(EXPLOSION_POOL_SIZE),
        &quiet(CANNONBALL_POOL_SIZE),
    );
    assert_eq!(rep.points, 0);
    assert_eq!(idle.arrow(0), ArrowPhase::Flying);
}

#[test]
fn grounded_or_idle_arrows_do_not_hit() {
    let mut b = field();
    b.fire(true, true, true, true);
    b.advance_arrow(0, true, false);
    let rep = b.resolve_hits(
        &vec![BOTH; ARROW_POOL_SIZE],
        &vec![BOTH; CANNONBALL_POOL_SIZE],
        &vec![BOTH; EXPLOSION_POOL_SIZE],
        &vec![BOTH; CANNONBALL_POOL_SIZE],
    );
    assert_eq!(rep.points, 0);
    assert_eq!(b.arrow(0), ArrowPhase::Grounded);
    assert_eq!(b.score(), 0);
}

#[test]
fn cannonball_hit_bursts_into_explosion() {
    let mut b = field();
    b.fire(true, false, true, true);
    b.fire(true, false, true, true);
    // Ball 1 reaches the Triguy; the explosion lit there reaches the Wedgeguy.
    let rep = b.resolve_hits(
        &quiet(ARROW_POOL_SIZE),
        &with(CANNONBALL_POOL_SIZE, 1, TRI),
        &quiet(EXPLOSION_POOL_SIZE),
        &with(CANNONBALL_POOL_SIZE, 1, WEDGE),
    );
    assert_eq!(rep.points, 2);
    assert!(rep.spent_cannonballs[1]);
    assert!(!rep.spent_cannonballs[0]);
    assert!(b.cannonball_active(0));
    assert!(!b.cannonball_active(1));
    assert_eq!(rep.blast_origin[0], Some(1));
    for k in 1..EXPLOSION_POOL_SIZE {
        assert_eq!(rep.blast_origin[k], None);
    }
    assert_eq!(b.explosion(0), ExplosionSlot { active: true, stage: 0 });
    assert_eq!(b.score(), 2);
}

#[test]
fn missing_cannonball_lights_nothing() {
    let mut b = field();
    b.fire(true, false, true, true);
    let rep = b.resolve_hits(
        &quiet(ARROW_POOL_SIZE),
        &quiet(CANNONBALL_POOL_SIZE),
        &quiet(EXPLOSION_POOL_SIZE),
        &with(CANNONBALL_POOL_SIZE, 0, BOTH),
    );
    assert_eq!(rep.points, 0);
    assert!(b.cannonball_active(0));
    assert!(!b.explosion(0).active);
}

#[test]
fn burning_explosion_hits_and_stays() {
    let mut b = field();
    b.spawn_explosion();
    b.spawn_explosion();
    let rep = b.resolve_hits(
        &quiet(ARROW_POOL_SIZE),
        &quiet(CANNONBALL_POOL_SIZE),
        &with(EXPLOSION_POOL_SIZE, 1, WEDGE),
        &quiet(CANNONBALL_POOL_SIZE),
    );
    assert_eq!(rep.points, 1);
    assert!(rep.wedgeguy_hit);
    assert!(b.explosion(1).active);
    // An idle slot's reach is not read.
    let rep = b.resolve_hits(
        &quiet(ARROW_POOL_SIZE),
        &quiet(CANNONBALL_POOL_SIZE),
        &with(EXPLOSION_POOL_SIZE, 4, TRI),
        &quiet(CANNONBALL_POOL_SIZE),
    );
    assert_eq!(rep.points, 0);
}

#[test]
fn no_reach_changes_nothing() {
    let mut b = field();
    b.fire(true, true, true, true);
    b.fire(true, false, true, true);
    b.spawn_explosion();
    let rep = b.resolve_hits(
        &quiet(ARROW_POOL_SIZE),
        &quiet(CANNONBALL_POOL_SIZE),
        &quiet(EXPLOSION_POOL_SIZE),
        &quiet(CANNONBALL_POOL_SIZE),
    );
    assert_eq!(rep.points, 0);
    assert_eq!(b.score(), 0);
    assert_eq!(b.arrow(0), ArrowPhase::Flying);
    assert!(b.cannonball_active(0));
    assert!(b.explosion(0).active);
    assert!(!b.explosion(1).active);
    assert_eq!(b.phase(Foe::Triguy), CharacterPhase::Approaching);
}

#[test]
fn score_accumulates_across_rounds_of_hits() {
    let mut b = field();
    for round in 1..=3u32 {
        b.advance_foe(Foe::Triguy, true, false);
        let slot = match b.fire(true, true, true, true) {
            Some(king_of_the_hill::board::Shot::Arrow(i)) => i,
            other => panic!("unexpected shot {:?}", other),
        };
        let rep = b.resolve_hits(
            &with(ARROW_POOL_SIZE, slot, TRI),
            &quiet(CANNONBALL_POOL_SIZE),
            &quiet(EXPLOSION_POOL_SIZE),
            &quiet(CANNONBALL_POOL_SIZE),
        );
        assert_eq!(rep.points, 1);
        assert_eq!(b.score(), round);
    }
}
