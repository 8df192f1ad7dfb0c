//! The discrete state of a round: which projectiles are in flight, which
//! explosions are burning and at what stage, where each foe is in its attack
//! cycle, the score, and whether the wall has fallen.
//!
//! Positions, velocities and timers are floating-point values and are kept by
//! the host; every decision that the host makes from them reaches the board as
//! a plain boolean, and the board answers with what the host has to do.
use vstd::prelude::*;
use crate::strike::{
    burning, flying_arrows, knocked_count, lit_reach, resolve_spec, spawn_for_hits, spawn_from,
    struck, volley, HitReport, Reach,
};

verus! {

/// Arrows the crossbow keeps in its pool.
pub const ARROW_POOL_SIZE: usize = 6;

/// Cannonballs the cannon keeps in its pool.
pub const CANNONBALL_POOL_SIZE: usize = 4;

/// Explosions that can burn at the same time.
pub const EXPLOSION_POOL_SIZE: usize = 6;

/// Stages in which an explosion grows.
pub const EXPLOSION_GROW_STAGES: u8 = 5;

/// Stages in which an explosion shrinks after its largest one.
pub const EXPLOSION_SHRINK_STAGES: u8 = 2;

/// Stages of an explosion's animation.
pub const EXPLOSION_STAGE_COUNT: u8 = EXPLOSION_GROW_STAGES + EXPLOSION_SHRINK_STAGES;

/// Where a foe stands in its attack cycle.
#[derive(Clone, Copy, Debug, PartialEq, Eq, Structural)]
pub enum CharacterPhase {
    /// Waiting off screen for its respawn timer.
    Inactive,
    /// Walking towards the castle wall.
    Approaching,
    /// Standing at the wall and damaging it.
    Attacking,
}

/// The two foes.
#[derive(Clone, Copy, Debug, PartialEq, Eq, Structural)]
pub enum Foe {
    /// Comes from the left edge and stops at the castle's left side.
    Triguy,
    /// Comes from the right edge and stops at the castle's right side.
    Wedgeguy,
}

/// The discrete part of an arrow's state.
#[derive(Clone, Copy, Debug, PartialEq, Eq, Structural)]
pub enum ArrowPhase {
    /// In the pool, hidden.
    Inactive,
    /// In the air.
    Flying,
    /// Stuck in the ground and fading out.
    Grounded,
}

/// One slot of the explosion pool.
#[derive(Clone, Copy, Debug, PartialEq, Eq, Structural)]
pub struct ExplosionSlot {
    /// Whether the explosion is burning.
    pub active: bool,
    /// The animation stage it shows.
    pub stage: u8,
}

/// What the host does with a foe after a call of `Board::advance_foe`.
#[derive(Clone, Copy, Debug, PartialEq, Eq, Structural)]
pub enum Motion {
    /// Keep it parked far off screen.
    Lurk,
    /// Place it at its screen edge on the ground and give it walking speed.
    Enter,
    /// Keep the position reached by walking on.
    Walk,
    /// Place it at its stop by the wall and clear its velocity.
    Halt,
}

/// What the host does with an arrow after a call of `Board::advance_arrow`.
#[derive(Clone, Copy, Debug, PartialEq, Eq, Structural)]
pub enum ArrowStep {
    /// An idle arrow: keep it hidden.
    Idle,
    /// Still in the air: keep the new position and velocity.
    InFlight,
    /// It reached the ground: pin it there, keep its heading, full alpha.
    Landed,
    /// It left the screen: hide it.
    Lost,
    /// It lies on the ground: keep the new fade values.
    Resting,
    /// It has faded out: hide it.
    Faded,
}

/// What the host does with a cannonball after `Board::advance_cannonball`.
#[derive(Clone, Copy, Debug, PartialEq, Eq, Structural)]
pub enum BallStep {
    /// An idle cannonball: keep it hidden.
    Idle,
    /// Still in the air: keep the new position and velocity.
    InFlight,
    /// It hit the ground: hide it and spawn an explosion at the impact.
    Landed,
    /// It left the screen: hide it.
    Lost,
}

/// What happened to an explosion in `Board::explosion_frame`.
#[derive(Clone, Copy, Debug, PartialEq, Eq, Structural)]
pub enum FrameStep {
    /// It moved on to the given stage.
    Advanced(u8),
    /// It had shown its last stage and is over.
    Finished,
    /// The slot was not burning; nothing happened.
    Idle,
}

/// The projectile that a call of `Board::fire` launched, by pool index.
#[derive(Clone, Copy, Debug, PartialEq, Eq, Structural)]
pub enum Shot {
    /// The arrow in this slot of the arrow pool.
    Arrow(usize),
    /// The cannonball in this slot of the cannonball pool.
    Cannonball(usize),
}

/// The discrete state of a round.
pub struct Board {
    arrows: Vec<ArrowPhase>,
    cannonballs: Vec<bool>,
    explosions: Vec<ExplosionSlot>,
    triguy: CharacterPhase,
    wedgeguy: CharacterPhase,
    score: u32,
    game_over: bool,
}

/// The mathematical value of a `Board`.
pub struct BoardView {
    pub arrows: Seq<ArrowPhase>,
    pub cannonballs: Seq<bool>,
    pub explosions: Seq<ExplosionSlot>,
    pub triguy: CharacterPhase,
    pub wedgeguy: CharacterPhase,
    pub score: u32,
    pub game_over: bool,
}

impl View for Board {
    type V = BoardView;

    closed spec fn view(&self) -> BoardView {
        BoardView {
            arrows: self.arrows@,
            cannonballs: self.cannonballs@,
            explosions: self.explosions@,
            triguy: self.triguy,
            wedgeguy: self.wedgeguy,
            score: self.score,
            game_over: self.game_over,
        }
    }
}

/// An explosion slot is consistent: its stage is one of the animation's,
/// and an idle slot rests at stage 0.
pub open spec fn slot_wf(s: ExplosionSlot) -> bool {
    &&& s.stage < EXPLOSION_STAGE_COUNT
    &&& !s.active ==> s.stage == 0
}

/// The idle explosion slot.
pub open spec fn idle_slot() -> ExplosionSlot {
    ExplosionSlot { active: false, stage: 0 }
}

/// A freshly lit explosion.
pub open spec fn lit_slot() -> ExplosionSlot {
    ExplosionSlot { active: true, stage: 0 }
}

/// The first index at or after `i` where `s` holds `true`.
pub open spec fn first_true_from(s: Seq<bool>, i: int) -> Option<int>
    decreases s.len() - i,
{
    if i < 0 || i >= s.len() {
        None
    } else if s[i] {
        Some(i)
    } else {
        first_true_from(s, i + 1)
    }
}

/// The first index where `s` holds `true`, if there is one.
pub open spec fn first_true(s: Seq<bool>) -> Option<int> {
    first_true_from(s, 0)
}

/// What `first_true_from` finds: the least index from `i` on that holds
/// `true`, or nothing when none does.
pub proof fn lemma_first_true_from(s: Seq<bool>, i: int)
    requires
        0 <= i <= s.len(),
    ensures
        match first_true_from(s, i) {
            Some(k) => i <= k < s.len() && s[k] && forall|j: int| i <= j < k ==> !s[j],
            None => forall|j: int| i <= j < s.len() ==> !s[j],
        },
    decreases s.len() - i,
{
    if i < s.len() && !s[i] {
        lemma_first_true_from(s, i + 1);
    }
}

/// What `first_true` finds: the least index that holds `true`, or nothing
/// when none does.
pub proof fn lemma_first_true(s: Seq<bool>)
    ensures
        match first_true(s) {
            Some(k) => 0 <= k < s.len() && s[k] && forall|j: int| 0 <= j < k ==> !s[j],
            None => forall|j: int| 0 <= j < s.len() ==> !s[j],
        },
{
    lemma_first_true_from(s, 0);
}

/// The least index that holds `true` is what `first_true` finds.
pub proof fn lemma_first_true_is(s: Seq<bool>, i: int)
    requires
        0 <= i < s.len(),
        s[i],
        forall|j: int| 0 <= j < i ==> !s[j],
    ensures
        first_true(s) == Some(i),
{
    lemma_first_true(s);
}

/// With no index holding `true`, `first_true` finds nothing.
pub proof fn lemma_first_true_none(s: Seq<bool>)
    requires
        forall|j: int| 0 <= j < s.len() ==> !s[j],
    ensures
        first_true(s) == None::<int>,
{
    lemma_first_true(s);
    if first_true(s) is Some {
        let k = first_true(s)->0;
        assert(s[k]);
    }
}

/// Which arrows are in the pool, ready to be fired.
pub open spec fn idle_arrows(a: Seq<ArrowPhase>) -> Seq<bool> {
    Seq::new(a.len(), |i: int| a[i] is Inactive)
}

/// Which cannonballs are in the pool, ready to be fired.
pub open spec fn idle_balls(b: Seq<bool>) -> Seq<bool> {
    Seq::new(b.len(), |i: int| !b[i])
}

/// Which explosion slots are free.
pub open spec fn idle_blasts(e: Seq<ExplosionSlot>) -> Seq<bool> {
    Seq::new(e.len(), |i: int| !e[i].active)
}

/// Lighting an explosion: the first free slot starts at stage 0; with no free
/// slot nothing changes.
pub open spec fn spawn_spec(e: Seq<ExplosionSlot>) -> (Seq<ExplosionSlot>, Option<int>) {
    match first_true(idle_blasts(e)) {
        Some(k) => (e.update(k, lit_slot()), Some(k)),
        None => (e, None),
    }
}

impl BoardView {
    /// The pools have their sizes and every explosion slot is consistent.
    pub open spec fn wf(self) -> bool {
        &&& self.arrows.len() == ARROW_POOL_SIZE
        &&& self.cannonballs.len() == CANNONBALL_POOL_SIZE
        &&& self.explosions.len() == EXPLOSION_POOL_SIZE
        &&& forall|k: int| 0 <= k < self.explosions.len() ==> slot_wf(#[trigger] self.explosions[k])
    }

    /// The phase of one foe.
    pub open spec fn phase(self, foe: Foe) -> CharacterPhase {
        match foe {
            Foe::Triguy => self.triguy,
            Foe::Wedgeguy => self.wedgeguy,
        }
    }

    /// The board with one foe's phase replaced.
    pub open spec fn with_phase(self, foe: Foe, p: CharacterPhase) -> BoardView {
        match foe {
            Foe::Triguy => BoardView { triguy: p, ..self },
            Foe::Wedgeguy => BoardView { wedgeguy: p, ..self },
        }
    }

    /// Foes at the wall, each of which wears it down.
    pub open spec fn attackers(self) -> nat {
        (if self.triguy is Attacking { 1nat } else { 0nat }) + (if self.wedgeguy is Attacking {
            1nat
        } else {
            0nat
        })
    }
}

/// The board at the start of a round: every pool idle, both foes waiting,
/// no score, the wall standing.
pub open spec fn initial_view() -> BoardView {
    BoardView {
        arrows: Seq::new(ARROW_POOL_SIZE as nat, |i: int| ArrowPhase::Inactive),
        cannonballs: Seq::new(CANNONBALL_POOL_SIZE as nat, |i: int| false),
        explosions: Seq::new(EXPLOSION_POOL_SIZE as nat, |i: int| idle_slot()),
        triguy: CharacterPhase::Inactive,
        wedgeguy: CharacterPhase::Inactive,
        score: 0,
        game_over: false,
    }
}

/// What a pull of the trigger does. With the pointer left of the centre the
/// crossbow fires the first idle arrow if it has cooled down; otherwise the
/// cannon fires the first idle cannonball if it has cooled down. Nothing is
/// fired without a pull, before the chosen weapon is ready, or from an empty
/// pool; the other weapon is never tried instead.
pub open spec fn fire_spec(
    b: BoardView,
    wants_fire: bool,
    aim_left: bool,
    crossbow_ready: bool,
    cannon_ready: bool,
) -> (BoardView, Option<Shot>) {
    if !wants_fire {
        (b, None)
    } else if aim_left {
        if !crossbow_ready {
            (b, None)
        } else {
            match first_true(idle_arrows(b.arrows)) {
                Some(i) => (
                    BoardView { arrows: b.arrows.update(i, ArrowPhase::Flying), ..b },
                    Some(Shot::Arrow(i as usize)),
                ),
                None => (b, None),
            }
        }
    } else if !cannon_ready {
        (b, None)
    } else {
        match first_true(idle_balls(b.cannonballs)) {
            Some(j) => (
                BoardView { cannonballs: b.cannonballs.update(j, true), ..b },
                Some(Shot::Cannonball(j as usize)),
            ),
            None => (b, None),
        }
    }
}

/// One tick of an arrow. `landed` says that a flying arrow has reached the
/// ground line, `gone` that a flying arrow has left the screen or that a
/// grounded one has faded to nothing. Landing is checked before leaving.
pub open spec fn arrow_next(p: ArrowPhase, landed: bool, gone: bool) -> (ArrowPhase, ArrowStep) {
    match p {
        ArrowPhase::Inactive => (ArrowPhase::Inactive, ArrowStep::Idle),
        ArrowPhase::Flying => if landed {
            (ArrowPhase::Grounded, ArrowStep::Landed)
        } else if gone {
            (ArrowPhase::Inactive, ArrowStep::Lost)
        } else {
            (ArrowPhase::Flying, ArrowStep::InFlight)
        },
        ArrowPhase::Grounded => if gone {
            (ArrowPhase::Inactive, ArrowStep::Faded)
        } else {
            (ArrowPhase::Grounded, ArrowStep::Resting)
        },
    }
}

/// One tick of a cannonball: a ball in the air lands on the ground line or
/// is lost off screen, landing checked first; an idle ball stays idle.
pub open spec fn ball_next(active: bool, landed: bool, gone: bool) -> (bool, BallStep) {
    if !active {
        (false, BallStep::Idle)
    } else if landed {
        (false, BallStep::Landed)
    } else if gone {
        (false, BallStep::Lost)
    } else {
        (true, BallStep::InFlight)
    }
}

/// One frame interval of an explosion: a burning one moves to its next
/// stage, or, at its last stage, goes out and returns to stage 0; an idle
/// slot stays as it is.
pub open spec fn frame_next(s: ExplosionSlot) -> (ExplosionSlot, FrameStep) {
    if !s.active {
        (s, FrameStep::Idle)
    } else if s.stage + 1 < EXPLOSION_STAGE_COUNT {
        (
            ExplosionSlot { active: true, stage: (s.stage + 1) as u8 },
            FrameStep::Advanced((s.stage + 1) as u8),
        )
    } else {
        (idle_slot(), FrameStep::Finished)
    }
}

/// One tick of a foe. A waiting foe enters once its respawn timer is due; a
/// walking foe stops at the wall once it has reached it; a foe at the wall
/// stays there.
pub open spec fn foe_next(p: CharacterPhase, respawn_due: bool, reached_stop: bool) -> (
    CharacterPhase,
    Motion,
) {
    match p {
        CharacterPhase::Inactive => if respawn_due {
            (CharacterPhase::Approaching, Motion::Enter)
        } else {
            (CharacterPhase::Inactive, Motion::Lurk)
        },
        CharacterPhase::Approaching => if reached_stop {
            (CharacterPhase::Attacking, Motion::Halt)
        } else {
            (CharacterPhase::Approaching, Motion::Walk)
        },
        CharacterPhase::Attacking => (CharacterPhase::Attacking, Motion::Halt),
    }
}

/// The explosion slot after `n` frame intervals.
pub open spec fn frames(s: ExplosionSlot, n: nat) -> ExplosionSlot
    decreases n,
{
    if n == 0 {
        s
    } else {
        frame_next(frames(s, (n - 1) as nat)).0
    }
}

/// Law: a freshly lit explosion shows each of its stages for one frame
/// interval, in order, and goes out at the end of the last one.
pub proof fn law_explosion_lifetime(n: nat)
    ensures
        n < EXPLOSION_STAGE_COUNT ==> frames(lit_slot(), n) == (ExplosionSlot { active: true, stage: n as u8 }),
        frames(lit_slot(), EXPLOSION_STAGE_COUNT as nat) == idle_slot(),
    decreases n,
{
    if n > 0 {
        law_explosion_lifetime((n - 1) as nat);
    }
    lemma_lit_frames((EXPLOSION_STAGE_COUNT - 1) as nat);
}

proof fn lemma_lit_frames(n: nat)
    requires
        n < EXPLOSION_STAGE_COUNT,
    ensures
        frames(lit_slot(), n) == (ExplosionSlot { active: true, stage: n as u8 }),
    decreases n,
{
    if n > 0 {
        lemma_lit_frames((n - 1) as nat);
    }
}

/// Law: a shot always takes the first idle slot of the chosen weapon's pool
/// and puts that projectile in the air, touching nothing else; when nothing
/// is fired the board is unchanged, and that happens exactly without a pull,
/// with the chosen weapon still cooling down, or with its pool empty.
pub proof fn law_shot_takes_first_idle(b: BoardView, wants_fire: bool, aim_left: bool, crossbow_ready: bool, cannon_ready: bool)
    requires
        b.wf(),
    ensures
        ({
            let (b2, shot) = fire_spec(b, wants_fire, aim_left, crossbow_ready, cannon_ready);
            match shot {
                Some(Shot::Arrow(i)) => {
                    &&& wants_fire && aim_left && crossbow_ready
                    &&& i < ARROW_POOL_SIZE
                    &&& b.arrows[i as int] is Inactive
                    &&& forall|j: int| 0 <= j < i ==> !(b.arrows[j] is Inactive)
                    &&& b2 == BoardView { arrows: b.arrows.update(i as int, ArrowPhase::Flying), ..b }
                },
                Some(Shot::Cannonball(i)) => {
                    &&& wants_fire && !aim_left && cannon_ready
                    &&& i < CANNONBALL_POOL_SIZE
                    &&& !b.cannonballs[i as int]
                    &&& forall|j: int| 0 <= j < i ==> b.cannonballs[j]
                    &&& b2 == BoardView { cannonballs: b.cannonballs.update(i as int, true), ..b }
                },
                None => {
                    &&& b2 == b
                    &&& (!wants_fire
                        || (aim_left && (!crossbow_ready || forall|j: int| 0 <= j < ARROW_POOL_SIZE ==> !(b.arrows[j] is Inactive)))
                        || (!aim_left && (!cannon_ready || forall|j: int| 0 <= j < CANNONBALL_POOL_SIZE ==> b.cannonballs[j])))
                },
            }
        }),
{
    let sa = idle_arrows(b.arrows);
    let sb = idle_balls(b.cannonballs);
    lemma_first_true(sa);
    lemma_first_true(sb);
    assert forall|j: int| #![trigger b.arrows[j]] 0 <= j < ARROW_POOL_SIZE implies (sa[j] == b.arrows[j] is Inactive) by {}
    assert forall|j: int| #![trigger b.cannonballs[j]] 0 <= j < CANNONBALL_POOL_SIZE implies (sb[j] == !b.cannonballs[j]) by {}
}

/// Law: a foe reaches the wall only by walking up to it, and leaves the field
/// only by being hit: no tick of its own takes a foe on the field back out,
/// and none takes a waiting foe straight to the wall.
pub proof fn law_foe_cycle(p: CharacterPhase, respawn_due: bool, reached_stop: bool)
    ensures
        foe_next(p, respawn_due, reached_stop).0 is Attacking ==> !(p is Inactive),
        !(p is Inactive) ==> !(foe_next(p, respawn_due, reached_stop).0 is Inactive),
        p is Attacking ==> foe_next(p, respawn_due, reached_stop).0 is Attacking,
{
}

/// Law: a foe's tick. A waiting foe enters exactly when its respawn is due and
/// lurks otherwise, whether or not the host saw it reach a stop; a walking foe
/// halts at the wall and starts attacking exactly when it has reached its
/// stop, and walks on otherwise, whatever its respawn timer says; a foe at the
/// wall halts there and keeps attacking. Only a waiting foe's step depends on
/// the respawn flag, and only a walking foe's on the stop flag.
pub proof fn law_foe_stops_at_wall(respawn_due: bool, reached_stop: bool, d2: bool, r2: bool)
    ensures
        foe_next(CharacterPhase::Approaching, respawn_due, true) == (CharacterPhase::Attacking, Motion::Halt),
        foe_next(CharacterPhase::Approaching, respawn_due, false) == (CharacterPhase::Approaching, Motion::Walk),
        foe_next(CharacterPhase::Inactive, true, reached_stop) == (CharacterPhase::Approaching, Motion::Enter),
        foe_next(CharacterPhase::Inactive, false, reached_stop) == (CharacterPhase::Inactive, Motion::Lurk),
        foe_next(CharacterPhase::Attacking, respawn_due, reached_stop) == (CharacterPhase::Attacking, Motion::Halt),
        foe_next(CharacterPhase::Approaching, respawn_due, reached_stop)
            == foe_next(CharacterPhase::Approaching, d2, reached_stop),
        foe_next(CharacterPhase::Inactive, respawn_due, reached_stop)
            == foe_next(CharacterPhase::Inactive, respawn_due, r2),
        (foe_next(CharacterPhase::Approaching, respawn_due, reached_stop).1 is Halt) == reached_stop,
{
}

/// Law: a cannonball's tick. A ball in the air that has reached the ground
/// line lands (and bursts), whether or not it is also off screen; one that has
/// not landed is lost exactly when it is off screen, and flies on otherwise;
/// an idle ball stays idle whatever the flags. A ball that lands or is lost
/// returns to its pool.
pub proof fn law_ball_landing_bursts(landed: bool, gone: bool, g2: bool)
    ensures
        ball_next(true, true, gone) == (false, BallStep::Landed),
        ball_next(true, false, true) == (false, BallStep::Lost),
        ball_next(true, false, false) == (true, BallStep::InFlight),
        ball_next(false, landed, gone) == (false, BallStep::Idle),
        ball_next(true, true, gone) == ball_next(true, true, g2),
        (ball_next(true, landed, gone).1 is Landed) == landed,
        (ball_next(true, landed, gone).1 is Lost) == (!landed && gone),
        ball_next(true, landed, gone).0 == (!landed && !gone),
{
}

/// Law: an arrow's tick. An arrow in the air sticks in the ground when it has
/// landed, whether or not it is also off screen, is lost when it has not
/// landed and is off screen, and flies on otherwise. A grounded arrow rests
/// until it has faded out and then returns to its pool, whatever the landing
/// flag says. An idle arrow stays idle.
pub proof fn law_grounded_arrow_rests_until_faded(landed: bool, gone: bool, l2: bool, g2: bool)
    ensures
        arrow_next(ArrowPhase::Grounded, landed, false) == (ArrowPhase::Grounded, ArrowStep::Resting),
        arrow_next(ArrowPhase::Grounded, landed, true) == (ArrowPhase::Inactive, ArrowStep::Faded),
        arrow_next(ArrowPhase::Grounded, landed, gone) == arrow_next(ArrowPhase::Grounded, l2, gone),
        arrow_next(ArrowPhase::Flying, true, gone) == (ArrowPhase::Grounded, ArrowStep::Landed),
        arrow_next(ArrowPhase::Flying, true, gone) == arrow_next(ArrowPhase::Flying, true, g2),
        arrow_next(ArrowPhase::Flying, false, true) == (ArrowPhase::Inactive, ArrowStep::Lost),
        arrow_next(ArrowPhase::Flying, false, false) == (ArrowPhase::Flying, ArrowStep::InFlight),
        arrow_next(ArrowPhase::Inactive, landed, gone) == (ArrowPhase::Inactive, ArrowStep::Idle),
        (arrow_next(ArrowPhase::Grounded, landed, gone).0 is Grounded) == !gone,
{
}

/// Law: the wall is worn down by the foes that attack it and by no others: a
/// foe that is waiting or still walking adds nothing, each foe at the wall
/// adds one.
pub proof fn law_attackers_count_wall_attackers(b: BoardView)
    ensures
        b.triguy is Attacking && b.wedgeguy is Attacking ==> b.attackers() == 2,
        b.triguy is Attacking && !(b.wedgeguy is Attacking) ==> b.attackers() == 1,
        !(b.triguy is Attacking) && b.wedgeguy is Attacking ==> b.attackers() == 1,
        !(b.triguy is Attacking) && !(b.wedgeguy is Attacking) ==> b.attackers() == 0,
        (BoardView { wedgeguy: CharacterPhase::Approaching, ..b }).attackers()
            == (BoardView { wedgeguy: CharacterPhase::Inactive, ..b }).attackers(),
        (BoardView { triguy: CharacterPhase::Approaching, ..b }).attackers()
            == (BoardView { triguy: CharacterPhase::Inactive, ..b }).attackers(),
        (BoardView { wedgeguy: CharacterPhase::Attacking, ..b }).attackers()
            == (BoardView { wedgeguy: CharacterPhase::Inactive, ..b }).attackers() + 1,
        (BoardView { triguy: CharacterPhase::Attacking, ..b }).attackers()
            == (BoardView { triguy: CharacterPhase::Inactive, ..b }).attackers() + 1,
{
}

/// Law: one frame interval of an explosion. A burning explosion below its
/// last stage moves up exactly one stage and keeps burning; one at its last
/// stage goes out and returns to stage 0; an idle slot is left alone.
pub proof fn law_frame_steps_one_stage(s: ExplosionSlot)
    requires
        slot_wf(s),
    ensures
        s.active && s.stage < EXPLOSION_STAGE_COUNT - 1 ==> frame_next(s).0.active
            && frame_next(s).0.stage == s.stage + 1 && frame_next(s).1 == FrameStep::Advanced(
            (s.stage + 1) as u8,
        ),
        s.active && s.stage == EXPLOSION_STAGE_COUNT - 1 ==> !frame_next(s).0.active
            && frame_next(s).0.stage == 0 && frame_next(s).1 == FrameStep::Finished,
        !s.active ==> frame_next(s).0 == s && frame_next(s).1 == FrameStep::Idle,
        slot_wf(frame_next(s).0),
{
}

/// Law: a round starts with nothing in play: no projectile in the air or on
/// the ground, no explosion, both foes waiting, nobody at the wall, no score,
/// and the wall standing.
pub proof fn law_round_starts_empty()
    ensures
        initial_view().wf(),
        forall|i: int| 0 <= i < ARROW_POOL_SIZE ==> #[trigger] initial_view().arrows[i] == ArrowPhase::Inactive,
        forall|j: int| 0 <= j < CANNONBALL_POOL_SIZE ==> !#[trigger] initial_view().cannonballs[j],
        forall|k: int| 0 <= k < EXPLOSION_POOL_SIZE ==> !(#[trigger] initial_view().explosions[k]).active,
        initial_view().triguy == CharacterPhase::Inactive,
        initial_view().wedgeguy == CharacterPhase::Inactive,
        initial_view().attackers() == 0,
        initial_view().score == 0,
        !initial_view().game_over,
{
}

/// Index of the first idle arrow.
fn first_idle_arrow(arrows: &Vec<ArrowPhase>) -> (r: Option<usize>)
    ensures
        r == (match first_true(idle_arrows(arrows@)) {
            Some(i) => Some(i as usize),
            None => None,
        }),
{
    let ghost s = idle_arrows(arrows@);
    let n = arrows.len();
    let mut i: usize = 0;
    while i < n
        invariant
            n == arrows@.len(),
            s == idle_arrows(arrows@),
            i <= n,
            forall|j: int| 0 <= j < i ==> !s[j],
        decreases n - i,
    {
        if matches!(arrows[i], ArrowPhase::Inactive) {
            proof {
                lemma_first_true_is(s, i as int);
            }
            return Some(i);
        }
        i = i + 1;
    }
    proof {
        lemma_first_true_none(s);
    }
    None
}

/// Index of the first idle cannonball.
fn first_idle_ball(balls: &Vec<bool>) -> (r: Option<usize>)
    ensures
        r == (match first_true(idle_balls(balls@)) {
            Some(i) => Some(i as usize),
            None => None,
        }),
{
    let ghost s = idle_balls(balls@);
    let n = balls.len();
    let mut i: usize = 0;
    while i < n
        invariant
            n == balls@.len(),
            s == idle_balls(balls@),
            i <= n,
            forall|j: int| 0 <= j < i ==> !s[j],
        decreases n - i,
    {
        if !balls[i] {
            proof {
                lemma_first_true_is(s, i as int);
            }
            return Some(i);
        }
        i = i + 1;
    }
    proof {
        lemma_first_true_none(s);
    }
    None
}

/// Index of the first free explosion slot.
fn first_idle_blast(blasts: &Vec<ExplosionSlot>) -> (r: Option<usize>)
    ensures
        r == (match first_true(idle_blasts(blasts@)) {
            Some(i) => Some(i as usize),
            None => None,
        }),
{
    let ghost s = idle_blasts(blasts@);
    let n = blasts.len();
    let mut i: usize = 0;
    while i < n
        invariant
            n == blasts@.len(),
            s == idle_blasts(blasts@),
            i <= n,
            forall|j: int| 0 <= j < i ==> !s[j],
        decreases n - i,
    {
        if !blasts[i].active {
            proof {
                lemma_first_true_is(s, i as int);
            }
            return Some(i);
        }
        i = i + 1;
    }
    proof {
        lemma_first_true_none(s);
    }
    None
}

/// One empty origin per explosion slot.
fn no_origins() -> (r: Vec<Option<usize>>)
    ensures
        r@ == Seq::new(EXPLOSION_POOL_SIZE as nat, |m: int| None::<usize>),
{
    let mut r: Vec<Option<usize>> = Vec::new();
    let mut k: usize = 0;
    while k < EXPLOSION_POOL_SIZE
        invariant
            k <= EXPLOSION_POOL_SIZE,
            r@ == Seq::new(k as nat, |m: int| None::<usize>),
        decreases EXPLOSION_POOL_SIZE - k,
    {
        r.push(None);
        k = k + 1;
    }
    r
}

impl Board {
    /// A board at the start of a round.
    pub fn new() -> (b: Board)
        ensures
            b@ == initial_view(),
            b@.wf(),
    {
        let mut arrows: Vec<ArrowPhase> = Vec::new();
        let mut i: usize = 0;
        while i < ARROW_POOL_SIZE
            invariant
                i <= ARROW_POOL_SIZE,
                arrows@ == Seq::new(i as nat, |j: int| ArrowPhase::Inactive),
            decreases ARROW_POOL_SIZE - i,
        {
            arrows.push(ArrowPhase::Inactive);
            i = i + 1;
        }
        let mut cannonballs: Vec<bool> = Vec::new();
        let mut i: usize = 0;
        while i < CANNONBALL_POOL_SIZE
            invariant
                i <= CANNONBALL_POOL_SIZE,
                cannonballs@ == Seq::new(i as nat, |j: int| false),
            decreases CANNONBALL_POOL_SIZE - i,
        {
            cannonballs.push(false);
            i = i + 1;
        }
        let mut explosions: Vec<ExplosionSlot> = Vec::new();
        let mut i: usize = 0;
        while i < EXPLOSION_POOL_SIZE
            invariant
                i <= EXPLOSION_POOL_SIZE,
                explosions@ == Seq::new(i as nat, |j: int| idle_slot()),
            decreases EXPLOSION_POOL_SIZE - i,
        {
            explosions.push(ExplosionSlot { active: false, stage: 0 });
            i = i + 1;
        }
        Board {
            arrows,
            cannonballs,
            explosions,
            triguy: CharacterPhase::Inactive,
            wedgeguy: CharacterPhase::Inactive,
            score: 0,
            game_over: false,
        }
    }

    /// Starts a new round: the board becomes what `Board::new` makes.
    pub fn restart(&mut self)
        ensures
            final(self)@ == initial_view(),
    {
        *self = Board::new();
    }

    /// Points scored so far.
    pub fn score(&self) -> (r: u32)
        ensures
            r == self@.score,
    {
        self.score
    }

    /// Whether the wall has fallen.
    pub fn game_over(&self) -> (r: bool)
        ensures
            r == self@.game_over,
    {
        self.game_over
    }

    /// The phase of one foe.
    pub fn phase(&self, foe: Foe) -> (r: CharacterPhase)
        ensures
            r == self@.phase(foe),
    {
        match foe {
            Foe::Triguy => self.triguy,
            Foe::Wedgeguy => self.wedgeguy,
        }
    }

    /// The phase of the arrow in slot `i`.
    pub fn arrow(&self, i: usize) -> (r: ArrowPhase)
        requires
            i < self@.arrows.len(),
        ensures
            r == self@.arrows[i as int],
    {
        self.arrows[i]
    }

    /// Whether the cannonball in slot `j` is in the air.
    pub fn cannonball_active(&self, j: usize) -> (r: bool)
        requires
            j < self@.cannonballs.len(),
        ensures
            r == self@.cannonballs[j as int],
    {
        self.cannonballs[j]
    }

    /// The explosion in slot `k`.
    pub fn explosion(&self, k: usize) -> (r: ExplosionSlot)
        requires
            k < self@.explosions.len(),
        ensures
            r == self@.explosions[k as int],
    {
        self.explosions[k]
    }

    /// The number of foes at the wall.
    pub fn attackers(&self) -> (r: u32)
        ensures
            r == self@.attackers(),
            r <= 2,
            r == (if self@.triguy == CharacterPhase::Attacking { 1u32 } else { 0u32 })
                + (if self@.wedgeguy == CharacterPhase::Attacking { 1u32 } else { 0u32 }),
    {
        let mut n: u32 = 0;
        if matches!(self.triguy, CharacterPhase::Attacking) {
            n = n + 1;
        }
        if matches!(self.wedgeguy, CharacterPhase::Attacking) {
            n = n + 1;
        }
        n
    }

    /// Records the wall's state after it took damage: once it is worn down
    /// the round is over, and it stays over until a restart.
    pub fn record_wall(&mut self, depleted: bool)
        requires
            old(self)@.wf(),
        ensures
            final(self)@ == (BoardView {
                game_over: old(self)@.game_over || depleted,
                ..old(self)@
            }),
            final(self)@.wf(),
    {
        if depleted {
            self.game_over = true;
        }
    }

    /// A pull of the trigger; see `fire_spec`.
    pub fn fire(&mut self, wants_fire: bool, aim_left: bool, crossbow_ready: bool, cannon_ready: bool) -> (shot: Option<Shot>)
        requires
            old(self)@.wf(),
        ensures
            (final(self)@, shot) == fire_spec(old(self)@, wants_fire, aim_left, crossbow_ready, cannon_ready),
            final(self)@.wf(),
            final(self)@.score == old(self)@.score,
            final(self)@.game_over == old(self)@.game_over,
    {
        if !wants_fire {
            return None;
        }
        if aim_left {
            if !crossbow_ready {
                return None;
            }
            proof {
                lemma_first_true(idle_arrows(self.arrows@));
            }
            match first_idle_arrow(&self.arrows) {
                Some(i) => {
                    self.arrows.set(i, ArrowPhase::Flying);
                    Some(Shot::Arrow(i))
                },
                None => None,
            }
        } else {
            if !cannon_ready {
                return None;
            }
            proof {
                lemma_first_true(idle_balls(self.cannonballs@));
            }
            match first_idle_ball(&self.cannonballs) {
                Some(j) => {
                    self.cannonballs.set(j, true);
                    Some(Shot::Cannonball(j))
                },
                None => None,
            }
        }
    }

    /// One tick of the arrow in slot `i`; see `arrow_next`.
    pub fn advance_arrow(&mut self, i: usize, landed: bool, gone: bool) -> (step: ArrowStep)
        requires
            old(self)@.wf(),
            i < ARROW_POOL_SIZE,
        ensures
            final(self)@ == (BoardView {
                arrows: old(self)@.arrows.update(i as int, arrow_next(old(self)@.arrows[i as int], landed, gone).0),
                ..old(self)@
            }),
            step == arrow_next(old(self)@.arrows[i as int], landed, gone).1,
            old(self)@.arrows[i as int] == ArrowPhase::Grounded ==> (step == ArrowStep::Faded) == gone
                && final(self)@.arrows[i as int] == (if gone { ArrowPhase::Inactive } else { ArrowPhase::Grounded }),
            old(self)@.arrows[i as int] == ArrowPhase::Flying ==> (step == ArrowStep::Landed) == landed
                && (step == ArrowStep::Lost) == (!landed && gone)
                && final(self)@.arrows[i as int] == (if landed { ArrowPhase::Grounded } else if gone {
                    ArrowPhase::Inactive } else { ArrowPhase::Flying }),
            old(self)@.arrows[i as int] == ArrowPhase::Inactive ==> step == ArrowStep::Idle
                && final(self)@.arrows[i as int] == ArrowPhase::Inactive,
            final(self)@.wf(),
    {
        let (p, step) = match self.arrows[i] {
            ArrowPhase::Inactive => (ArrowPhase::Inactive, ArrowStep::Idle),
            ArrowPhase::Flying => if landed {
                (ArrowPhase::Grounded, ArrowStep::Landed)
            } else if gone {
                (ArrowPhase::Inactive, ArrowStep::Lost)
            } else {
                (ArrowPhase::Flying, ArrowStep::InFlight)
            },
            ArrowPhase::Grounded => if gone {
                (ArrowPhase::Inactive, ArrowStep::Faded)
            } else {
                (ArrowPhase::Grounded, ArrowStep::Resting)
            },
        };
        self.arrows.set(i, p);
        step
    }

    /// One tick of the cannonball in slot `j`; see `ball_next`.
    pub fn advance_cannonball(&mut self, j: usize, landed: bool, gone: bool) -> (step: BallStep)
        requires
            old(self)@.wf(),
            j < CANNONBALL_POOL_SIZE,
        ensures
            final(self)@ == (BoardView {
                cannonballs: old(self)@.cannonballs.update(
                    j as int,
                    ball_next(old(self)@.cannonballs[j as int], landed, gone).0,
                ),
                ..old(self)@
            }),
            step == ball_next(old(self)@.cannonballs[j as int], landed, gone).1,
            old(self)@.cannonballs[j as int] ==> (step == BallStep::Landed) == landed
                && (step == BallStep::Lost) == (!landed && gone)
                && final(self)@.cannonballs[j as int] == (!landed && !gone),
            !old(self)@.cannonballs[j as int] ==> step == BallStep::Idle && !final(self)@.cannonballs[j as int],
            final(self)@.wf(),
    {
        let (a, step) = if !self.cannonballs[j] {
            (false, BallStep::Idle)
        } else if landed {
            (false, BallStep::Landed)
        } else if gone {
            (false, BallStep::Lost)
        } else {
            (true, BallStep::InFlight)
        };
        self.cannonballs.set(j, a);
        step
    }

    /// Lights an explosion in the first free slot, at stage 0, and returns
    /// that slot; with every slot burning nothing happens.
    pub fn spawn_explosion(&mut self) -> (r: Option<usize>)
        requires
            old(self)@.wf(),
        ensures
            final(self)@.explosions == spawn_spec(old(self)@.explosions).0,
            r == (match spawn_spec(old(self)@.explosions).1 {
                Some(k) => Some(k as usize),
                None => None,
            }),
            final(self)@ == (BoardView { explosions: final(self)@.explosions, ..old(self)@ }),
            match r {
                Some(k) => {
                    &&& k < EXPLOSION_POOL_SIZE
                    &&& !old(self)@.explosions[k as int].active
                    &&& forall|j: int| 0 <= j < k ==> old(self)@.explosions[j].active
                    &&& final(self)@.explosions == old(self)@.explosions.update(k as int, lit_slot())
                },
                None => {
                    &&& forall|j: int| 0 <= j < EXPLOSION_POOL_SIZE ==> old(self)@.explosions[j].active
                    &&& final(self)@.explosions == old(self)@.explosions
                },
            },
            final(self)@.wf(),
    {
        proof {
            lemma_first_true(idle_blasts(self.explosions@));
        }
        match first_idle_blast(&self.explosions) {
            Some(k) => {
                proof {
                    let s = idle_blasts(self.explosions@);
                    assert(s[k as int]);
                    assert forall|j: int| 0 <= j < k implies old(self)@.explosions[j].active by {
                        assert(!s[j]);
                    }
                }
                self.explosions.set(k, ExplosionSlot { active: true, stage: 0 });
                Some(k)
            },
            None => {
                proof {
                    let s = idle_blasts(self.explosions@);
                    assert forall|j: int| 0 <= j < EXPLOSION_POOL_SIZE implies old(self)@.explosions[j].active by {
                        assert(!s[j]);
                    }
                }
                None
            },
        }
    }

    /// One frame interval of the explosion in slot `k`; see `frame_next`.
    pub fn explosion_frame(&mut self, k: usize) -> (step: FrameStep)
        requires
            old(self)@.wf(),
            k < EXPLOSION_POOL_SIZE,
        ensures
            final(self)@ == (BoardView {
                explosions: old(self)@.explosions.update(k as int, frame_next(old(self)@.explosions[k as int]).0),
                ..old(self)@
            }),
            step == frame_next(old(self)@.explosions[k as int]).1,
            !old(self)@.explosions[k as int].active ==> step == FrameStep::Idle
                && final(self)@.explosions == old(self)@.explosions,
            old(self)@.explosions[k as int].active && old(self)@.explosions[k as int].stage + 1 < EXPLOSION_STAGE_COUNT
                ==> step == FrameStep::Advanced((old(self)@.explosions[k as int].stage + 1) as u8)
                && final(self)@.explosions[k as int].active
                && final(self)@.explosions[k as int].stage == old(self)@.explosions[k as int].stage + 1,
            old(self)@.explosions[k as int].active && old(self)@.explosions[k as int].stage + 1 >= EXPLOSION_STAGE_COUNT
                ==> step == FrameStep::Finished && !final(self)@.explosions[k as int].active
                && final(self)@.explosions[k as int].stage == 0,
            final(self)@.wf(),
    {
        let s = self.explosions[k];
        if !s.active {
            proof {
                assert(self.explosions@.update(k as int, s) =~= self.explosions@);
            }
            FrameStep::Idle
        } else if s.stage + 1 < EXPLOSION_STAGE_COUNT {
            let next = s.stage + 1;
            self.explosions.set(k, ExplosionSlot { active: true, stage: next });
            FrameStep::Advanced(next)
        } else {
            self.explosions.set(k, ExplosionSlot { active: false, stage: 0 });
            FrameStep::Finished
        }
    }

    /// One tick of a foe; see `foe_next`.
    pub fn advance_foe(&mut self, foe: Foe, respawn_due: bool, reached_stop: bool) -> (m: Motion)
        requires
            old(self)@.wf(),
        ensures
            final(self)@ == old(self)@.with_phase(foe, foe_next(old(self)@.phase(foe), respawn_due, reached_stop).0),
            m == foe_next(old(self)@.phase(foe), respawn_due, reached_stop).1,
            old(self)@.phase(foe) == CharacterPhase::Approaching ==> (m == Motion::Halt) == reached_stop
                && final(self)@.phase(foe) == (if reached_stop { CharacterPhase::Attacking } else { CharacterPhase::Approaching }),
            old(self)@.phase(foe) == CharacterPhase::Inactive ==> (m == Motion::Enter) == respawn_due
                && final(self)@.phase(foe) == (if respawn_due { CharacterPhase::Approaching } else { CharacterPhase::Inactive }),
            old(self)@.phase(foe) == CharacterPhase::Attacking ==> m == Motion::Halt
                && final(self)@.phase(foe) == CharacterPhase::Attacking,
            final(self)@.wf(),
    {
        let p = match foe {
            Foe::Triguy => self.triguy,
            Foe::Wedgeguy => self.wedgeguy,
        };
        let (q, m) = match p {
            CharacterPhase::Inactive => if respawn_due {
                (CharacterPhase::Approaching, Motion::Enter)
            } else {
                (CharacterPhase::Inactive, Motion::Lurk)
            },
            CharacterPhase::Approaching => if reached_stop {
                (CharacterPhase::Attacking, Motion::Halt)
            } else {
                (CharacterPhase::Approaching, Motion::Walk)
            },
            CharacterPhase::Attacking => (CharacterPhase::Attacking, Motion::Halt),
        };
        match foe {
            Foe::Triguy => {
                self.triguy = q;
            },
            Foe::Wedgeguy => {
                self.wedgeguy = q;
            },
        }
        m
    }
}

impl Board {
    /// Resolves the hits of a tick; see `resolve_spec` and the module's
    /// documentation. `arrow_reach`, `ball_reach` and `blast_reach` say how far
    /// each arrow, cannonball and burning explosion reaches; `fresh_reach`
    /// how far an explosion lit where each cannonball is would reach. Entries
    /// for projectiles that do not take part are not read.
    pub fn resolve_hits(
        &mut self,
        arrow_reach: &Vec<Reach>,
        ball_reach: &Vec<Reach>,
        blast_reach: &Vec<Reach>,
        fresh_reach: &Vec<Reach>,
    ) -> (report: HitReport)
        requires
            old(self)@.wf(),
            arrow_reach@.len() == ARROW_POOL_SIZE,
            ball_reach@.len() == CANNONBALL_POOL_SIZE,
            blast_reach@.len() == EXPLOSION_POOL_SIZE,
            fresh_reach@.len() == CANNONBALL_POOL_SIZE,
        ensures
            (final(self)@, report@) == resolve_spec(
                old(self)@,
                arrow_reach@,
                ball_reach@,
                blast_reach@,
                fresh_reach@,
            ),
            final(self)@.wf(),
    {
        let ghost b0 = self@;
        let ghost pair0 = (b0.triguy, b0.wedgeguy);
        let ghost fa = flying_arrows(b0.arrows);
        let t0 = self.triguy;
        let w0 = self.wedgeguy;
        let mut t = t0;
        let mut w = w0;
        let mut points: u32 = 0;

        // Arrows in the air, in slot order.
        let mut spent_arrows: Vec<bool> = Vec::new();
        let mut i: usize = 0;
        while i < ARROW_POOL_SIZE
            invariant
                b0.wf(),
                pair0 == (b0.triguy, b0.wedgeguy),
                fa == flying_arrows(b0.arrows),
                arrow_reach@.len() == ARROW_POOL_SIZE,
                i <= ARROW_POOL_SIZE,
                (t, w) == volley(pair0, fa, arrow_reach@, i as int),
                pair0.0 is Inactive ==> t is Inactive,
                pair0.1 is Inactive ==> w is Inactive,
                points as nat == knocked_count(pair0, (t, w)),
                spent_arrows@ == Seq::new(i as nat, |j: int| struck(pair0, fa, arrow_reach@, j)),
                self.arrows@.len() == ARROW_POOL_SIZE,
                forall|j: int|
                    0 <= j < i ==> #[trigger] self.arrows@[j] == (if struck(pair0, fa, arrow_reach@, j) {
                        ArrowPhase::Inactive
                    } else {
                        b0.arrows[j]
                    }),
                forall|j: int| i <= j < ARROW_POOL_SIZE ==> #[trigger] self.arrows@[j] == b0.arrows[j],
                self.cannonballs@ == b0.cannonballs,
                self.explosions@ == b0.explosions,
                self.score == b0.score,
                self.game_over == b0.game_over,
                self.triguy == b0.triguy,
                self.wedgeguy == b0.wedgeguy,
            decreases ARROW_POOL_SIZE - i,
        {
            let r = arrow_reach[i];
            let mut hit = false;
            if matches!(self.arrows[i], ArrowPhase::Flying) {
                if r.triguy && !matches!(t, CharacterPhase::Inactive) {
                    t = CharacterPhase::Inactive;
                    points = points + 1;
                    hit = true;
                }
                if r.wedgeguy && !matches!(w, CharacterPhase::Inactive) {
                    w = CharacterPhase::Inactive;
                    points = points + 1;
                    hit = true;
                }
                if hit {
                    self.arrows.set(i, ArrowPhase::Inactive);
                }
            }
            spent_arrows.push(hit);
            proof {
                assert(fa[i as int] == (b0.arrows[i as int] is Flying));
            }
            i = i + 1;
            proof {
                assert(spent_arrows@ =~= Seq::new(i as nat, |j: int| struck(pair0, fa, arrow_reach@, j)));
            }
        }
        let ghost pair1 = (t, w);
        let ghost a1 = self.arrows@;
        proof {
            assert(a1 =~= resolve_spec(b0, arrow_reach@, ball_reach@, blast_reach@, fresh_reach@).0.arrows);
        }

        // Cannonballs in the air, in slot order.
        let mut spent_cannonballs: Vec<bool> = Vec::new();
        let mut j: usize = 0;
        while j < CANNONBALL_POOL_SIZE
            invariant
                b0.wf(),
                pair0 == (b0.triguy, b0.wedgeguy),
                ball_reach@.len() == CANNONBALL_POOL_SIZE,
                j <= CANNONBALL_POOL_SIZE,
                (t, w) == volley(pair1, b0.cannonballs, ball_reach@, j as int),
                pair0.0 is Inactive ==> t is Inactive,
                pair0.1 is Inactive ==> w is Inactive,
                pair0.0 is Inactive ==> pair1.0 is Inactive,
                pair0.1 is Inactive ==> pair1.1 is Inactive,
                points as nat == knocked_count(pair0, (t, w)),
                spent_cannonballs@ == Seq::new(
                    j as nat,
                    |m: int| struck(pair1, b0.cannonballs, ball_reach@, m),
                ),
                self.cannonballs@.len() == CANNONBALL_POOL_SIZE,
                forall|m: int|
                    0 <= m < j ==> #[trigger] self.cannonballs@[m] == (b0.cannonballs[m] && !struck(
                        pair1,
                        b0.cannonballs,
                        ball_reach@,
                        m,
                    )),
                forall|m: int| j <= m < CANNONBALL_POOL_SIZE ==> #[trigger] self.cannonballs@[m] == b0.cannonballs[m],
                self.arrows@ == a1,
                a1.len() == ARROW_POOL_SIZE,
                self.explosions@ == b0.explosions,
                self.score == b0.score,
                self.game_over == b0.game_over,
                self.triguy == b0.triguy,
                self.wedgeguy == b0.wedgeguy,
            decreases CANNONBALL_POOL_SIZE - j,
        {
            let r = ball_reach[j];
            let mut hit = false;
            if self.cannonballs[j] {
                if r.triguy && !matches!(t, CharacterPhase::Inactive) {
                    t = CharacterPhase::Inactive;
                    points = points + 1;
                    hit = true;
                }
                if r.wedgeguy && !matches!(w, CharacterPhase::Inactive) {
                    w = CharacterPhase::Inactive;
                    points = points + 1;
                    hit = true;
                }
                if hit {
                    self.cannonballs.set(j, false);
                }
            }
            spent_cannonballs.push(hit);
            j = j + 1;
            proof {
                assert(spent_cannonballs@ =~= Seq::new(
                    j as nat,
                    |m: int| struck(pair1, b0.cannonballs, ball_reach@, m),
                ));
            }
        }
        let ghost pair2 = (t, w);
        let ghost c1 = self.cannonballs@;
        proof {
            assert(c1 =~= resolve_spec(b0, arrow_reach@, ball_reach@, blast_reach@, fresh_reach@).0.cannonballs);
        }

        // Each cannonball that hit bursts, in cannonball order.
        let mut blast_origin = no_origins();
        let ghost origin0 = blast_origin@;
        proof {
            assert(origin0 =~= Seq::new(b0.explosions.len(), |m: int| None::<usize>));
        }
        let mut j: usize = 0;
        while j < CANNONBALL_POOL_SIZE
            invariant
                b0.wf(),
                ball_reach@.len() == CANNONBALL_POOL_SIZE,
                j <= CANNONBALL_POOL_SIZE,
                spent_cannonballs@ == Seq::new(
                    CANNONBALL_POOL_SIZE as nat,
                    |m: int| struck(pair1, b0.cannonballs, ball_reach@, m),
                ),
                origin0 == Seq::new(EXPLOSION_POOL_SIZE as nat, |m: int| None::<usize>),
                (self.explosions@, blast_origin@) == spawn_for_hits(
                    b0.explosions,
                    origin0,
                    pair1,
                    b0.cannonballs,
                    ball_reach@,
                    j as int,
                ),
                self@.wf(),
                blast_origin@.len() == EXPLOSION_POOL_SIZE,
                forall|m: int|
                    0 <= m < EXPLOSION_POOL_SIZE ==> (#[trigger] blast_origin@[m] matches Some(q) ==> q < j),
                self.arrows@ == a1,
                self.cannonballs@ == c1,
                self.triguy == b0.triguy,
                self.wedgeguy == b0.wedgeguy,
                self.score == b0.score,
                self.game_over == b0.game_over,
            decreases CANNONBALL_POOL_SIZE - j,
        {
            if spent_cannonballs[j] {
                let ghost e_prev = self.explosions@;
                let ghost o_prev = blast_origin@;
                proof {
                    lemma_first_true(idle_blasts(e_prev));
                }
                match self.spawn_explosion() {
                    Some(slot) => {
                        blast_origin.set(slot, Some(j));
                    },
                    None => {},
                }
                proof {
                    assert(spawn_from(e_prev, o_prev, j as int).1 == blast_origin@);
                }
            }
            j = j + 1;
        }
        let ghost e2 = self.explosions@;
        let ghost lr = lit_reach(blast_origin@, blast_reach@, fresh_reach@);

        // Burning explosions, in slot order.
        let mut k: usize = 0;
        while k < EXPLOSION_POOL_SIZE
            invariant
                e2 == self.explosions@,
                e2.len() == EXPLOSION_POOL_SIZE,
                blast_origin@.len() == EXPLOSION_POOL_SIZE,
                blast_reach@.len() == EXPLOSION_POOL_SIZE,
                fresh_reach@.len() == CANNONBALL_POOL_SIZE,
                forall|m: int|
                    0 <= m < EXPLOSION_POOL_SIZE ==> (#[trigger] blast_origin@[m] matches Some(q) ==> q
                        < CANNONBALL_POOL_SIZE),
                lr == lit_reach(blast_origin@, blast_reach@, fresh_reach@),
                k <= EXPLOSION_POOL_SIZE,
                (t, w) == volley(pair2, burning(e2), lr, k as int),
                pair0.0 is Inactive ==> t is Inactive,
                pair0.1 is Inactive ==> w is Inactive,
                points as nat == knocked_count(pair0, (t, w)),
                self@.wf(),
                self.arrows@ == a1,
                self.cannonballs@ == c1,
                self.score == b0.score,
                self.game_over == b0.game_over,
            decreases EXPLOSION_POOL_SIZE - k,
        {
            let r = match blast_origin[k] {
                Some(q) => fresh_reach[q],
                None => blast_reach[k],
            };
            proof {
                assert(lr[k as int] == r);
                assert(burning(e2)[k as int] == e2[k as int].active);
            }
            if self.explosions[k].active {
                if r.triguy && !matches!(t, CharacterPhase::Inactive) {
                    t = CharacterPhase::Inactive;
                    points = points + 1;
                }
                if r.wedgeguy && !matches!(w, CharacterPhase::Inactive) {
                    w = CharacterPhase::Inactive;
                    points = points + 1;
                }
            }
            k = k + 1;
        }

        self.triguy = t;
        self.wedgeguy = w;
        self.score = self.score.saturating_add(points);
        let report = HitReport {
            triguy_hit: !matches!(t0, CharacterPhase::Inactive) && matches!(t, CharacterPhase::Inactive),
            wedgeguy_hit: !matches!(w0, CharacterPhase::Inactive) && matches!(w, CharacterPhase::Inactive),
            spent_arrows,
            spent_cannonballs,
            blast_origin,
            points,
        };
        report
    }
}

} // verus!
