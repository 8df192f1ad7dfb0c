use king_of_the_hill::board::{
    ArrowPhase, ArrowStep, BallStep, Board, CharacterPhase, ExplosionSlot, Foe, FrameStep, Motion,
    Shot, ARROW_POOL_SIZE, CANNONBALL_POOL_SIZE, EXPLOSION_POOL_SIZE, EXPLOSION_STAGE_COUNT,
};

#[test]
fn new_board_is_idle() {
    let b = Board::new();
    assert_eq!(b.score(), 0);
    assert!(!b.game_over());
    assert_eq!(b.phase(Foe::Triguy), CharacterPhase::Inactive);
    assert_eq!(b.phase(Foe::Wedgeguy), CharacterPhase::Inactive);
    for i in 0..ARROW_POOL_SIZE {
        assert_eq!(b.arrow(i), ArrowPhase::Inactive);
    }
    for j in 0..CANNONBALL_POOL_SIZE {
        assert!(!b.cannonball_active(j));
    }
    for k in 0..EXPLOSION_POOL_SIZE {
        assert_eq!(b.explosion(k), ExplosionSlot { active: false, stage: 0 });
    }
    assert_eq!(b.attackers(), 0);
}

#[test]
fn crossbow_fires_first_idle_arrow() {
    let mut b = Board::new();
    assert_eq!(b.fire(true, true, true, true), Some(Shot::Arrow(0)));
    assert_eq!(b.fire(true, true, true, true), Some(Shot::Arrow(1)));
    assert_eq!(b.arrow(0), ArrowPhase::Flying);
    assert_eq!(b.arrow(1), ArrowPhase::Flying);
    assert_eq!(b.arrow(2), ArrowPhase::Inactive);
    // The first arrow lands and fades: its slot is the first idle one again.
    assert_eq!(b.advance_arrow(0, false, true), ArrowStep::Lost);
    assert_eq!(b.fire(true, true, true, true), Some(Shot::Arrow(0)));
}

#[test]
fn nothing_fires_without_pull_or_cooldown() {
    let mut b = Board::new();
    assert_eq!(b.fire(false, true, true, true), None);
    assert_eq!(b.fire(true, true, false, true), None);
    assert_eq!(b.fire(true, false, true, false), None);
    assert_eq!(b.arrow(0), ArrowPhase::Inactive);
    assert!(!b.cannonball_active(0));
}

#[test]
fn cannon_fires_right_of_centre() {
    let mut b = Board::new();
    assert_eq!(b.fire(true, false, false, true), Some(Shot::Cannonball(0)));
    assert_eq!(b.fire(true, false, false, true), Some(Shot::Cannonball(1)));
    assert!(b.cannonball_active(0));
    assert!(b.cannonball_active(1));
    assert!(!b.cannonball_active(2));
    assert_eq!(b.arrow(0), ArrowPhase::Inactive);
}

#[test]
fn empty_pool_fires_nothing_and_never_switches_weapon() {
    let mut b = Board::new();
    for i in 0..ARROW_POOL_SIZE {
        assert_eq!(b.fire(true, true, true, true), Some(Shot::Arrow(i)));
    }
    assert_eq!(b.fire(true, true, true, true), None);
    assert!(!b.cannonball_active(0));
    for j in 0..CANNONBALL_POOL_SIZE {
        assert_eq!(b.fire(true, false, true, true), Some(Shot::Cannonball(j)));
    }
    assert_eq!(b.fire(true, false, true, true), None);
}

#[test]
fn arrow_lands_rests_and_fades() {
    let mut b = Board::new();
    assert_eq!(b.advance_arrow(0, true, true), ArrowStep::Idle);
    assert_eq!(b.arrow(0), ArrowPhase::Inactive);
    b.fire(true, true, true, true);
    assert_eq!(b.advance_arrow(0, false, false), ArrowStep::InFlight);
    assert_eq!(b.arrow(0), ArrowPhase::Flying);
    // Landing wins over leaving the screen.
    assert_eq!(b.advance_arrow(0, true, true), ArrowStep::Landed);
    assert_eq!(b.arrow(0), ArrowPhase::Grounded);
    assert_eq!(b.advance_arrow(0, true, false), ArrowStep::Resting);
    assert_eq!(b.arrow(0), ArrowPhase::Grounded);
    assert_eq!(b.advance_arrow(0, false, true), ArrowStep::Faded);
    assert_eq!(b.arrow(0), ArrowPhase::Inactive);
}

#[test]
fn cannonball_lands_or_is_lost() {
    let mut b = Board::new();
    assert_eq!(b.advance_cannonball(0, true, true), BallStep::Idle);
    b.fire(true, false, true, true);
    b.fire(true, false, true, true);
    assert_eq!(b.advance_cannonball(0, false, false), BallStep::InFlight);
    assert_eq!(b.advance_cannonball(0, true, true), BallStep::Landed);
    assert!(!b.cannonball_active(0));
    assert_eq!(b.advance_cannonball(1, false, true), BallStep::Lost);
    assert!(!b.cannonball_active(1));
}

#[test]
fn explosions_fill_first_free_slot() {
    let mut b = Board::new();
    for k in 0..EXPLOSION_POOL_SIZE {
        assert_eq!(b.spawn_explosion(), Some(k));
        assert_eq!(b.explosion(k), ExplosionSlot { active: true, stage: 0 });
    }
    assert_eq!(b.spawn_explosion(), None);
    // Burn out slot 2; the next explosion takes it.
    for _ in 0..EXPLOSION_STAGE_COUNT {
        b.explosion_frame(2);
    }
    assert!(!b.explosion(2).active);
    assert_eq!(b.spawn_explosion(), Some(2));
}

#[test]
fn explosion_shows_each_stage_once_then_goes_out() {
    let mut b = Board::new();
    let k = b.spawn_explosion().unwrap();
    for stage in 1..EXPLOSION_STAGE_COUNT {
        assert_eq!(b.explosion_frame(k), FrameStep::Advanced(stage));
        assert_eq!(b.explosion(k), ExplosionSlot { active: true, stage });
    }
    assert_eq!(b.explosion_frame(k), FrameStep::Finished);
    assert_eq!(b.explosion(k), ExplosionSlot { active: false, stage: 0 });
}

#[test]
fn foe_walks_to_wall_and_attacks() {
    let mut b = Board::new();
    assert_eq!(b.advance_foe(Foe::Triguy, false, true), Motion::Lurk);
    assert_eq!(b.phase(Foe::Triguy), CharacterPhase::Inactive);
    assert_eq!(b.advance_foe(Foe::Triguy, true, true), Motion::Enter);
    assert_eq!(b.phase(Foe::Triguy), CharacterPhase::Approaching);
    assert_eq!(b.advance_foe(Foe::Triguy, true, false), Motion::Walk);
    assert_eq!(b.phase(Foe::Triguy), CharacterPhase::Approaching);
    assert_eq!(b.attackers(), 0);
    assert_eq!(b.advance_foe(Foe::Triguy, false, true), Motion::Halt);
    assert_eq!(b.phase(Foe::Triguy), CharacterPhase::Attacking);
    assert_eq!(b.attackers(), 1);
    assert_eq!(b.advance_foe(Foe::Triguy, false, false), Motion::Halt);
    assert_eq!(b.phase(Foe::Triguy), CharacterPhase::Attacking);
    assert_eq!(b.phase(Foe::Wedgeguy), CharacterPhase::Inactive);
    b.advance_foe(Foe::Wedgeguy, true, false);
    b.advance_foe(Foe::Wedgeguy, false, true);
    assert_eq!(b.attackers(), 2);
}

#[test]
fn fallen_wall_ends_round_until_restart() {
    let mut b = Board::new();
    b.record_wall(false);
    assert!(!b.game_over());
    b.record_wall(true);
    assert!(b.game_over());
    b.record_wall(false);
    assert!(b.game_over());
    b.fire(true, true, true, true);
    b.advance_foe(Foe::Triguy, true, false);
    b.restart();
    assert!(!b.game_over());
    assert_eq!(b.arrow(0), ArrowPhase::Inactive);
    assert_eq!(b.phase(Foe::Triguy), CharacterPhase::Inactive);
    assert_eq!(b.score(), 0);
}

#[test]
fn idle_explosion_slot_has_no_frames() {
    let mut b = Board::new();
    assert_eq!(b.explosion_frame(3), FrameStep::Idle);
    assert_eq!(b.explosion(3), ExplosionSlot { active: false, stage: 0 });
}
