//! Hit resolution: which foes the projectiles and explosions of a tick knock
//! out, what the projectiles that hit become, and the points scored.
//!
//! Flying arrows are taken first, in slot order, then cannonballs in the air,
//! then burning explosions, each of them tested against the Triguy and then
//! against the Wedgeguy. A foe that is already out cannot be hit. An arrow or a
//! cannonball that hits goes back to its pool, and a cannonball that hits
//! bursts: once all cannonballs are done, each of them lights an explosion in
//! the first free slot, in cannonball order, and those explosions take part in
//! the explosion round of the same resolution. Explosions are not used up by a
//! hit. Every foe knocked out is one point.
use vstd::prelude::*;
use crate::board::{
    first_true, idle_blasts, lemma_first_true, lit_slot, spawn_spec, ArrowPhase, BoardView,
    CharacterPhase, ExplosionSlot,
};

verus! {

/// Whether one projectile reaches each foe, as the host measured it from
/// positions and radii.
#[derive(Clone, Copy, Debug, PartialEq, Eq, Structural)]
pub struct Reach {
    /// It overlaps the Triguy.
    pub triguy: bool,
    /// It overlaps the Wedgeguy.
    pub wedgeguy: bool,
}

/// What a resolution did, for the host to carry out on positions and timers.
pub struct HitReport {
    /// The Triguy was knocked out.
    pub triguy_hit: bool,
    /// The Wedgeguy was knocked out.
    pub wedgeguy_hit: bool,
    /// Per arrow slot: it hit and went back to the pool.
    pub spent_arrows: Vec<bool>,
    /// Per cannonball slot: it hit and went back to the pool.
    pub spent_cannonballs: Vec<bool>,
    /// Per explosion slot: the cannonball whose hit lit it, for the slots lit
    /// here.
    pub blast_origin: Vec<Option<usize>>,
    /// Points scored.
    pub points: u32,
}

/// The mathematical value of a `HitReport`.
pub struct HitReportView {
    pub triguy_hit: bool,
    pub wedgeguy_hit: bool,
    pub spent_arrows: Seq<bool>,
    pub spent_cannonballs: Seq<bool>,
    pub blast_origin: Seq<Option<usize>>,
    pub points: nat,
}

impl View for HitReport {
    type V = HitReportView;

    open spec fn view(&self) -> HitReportView {
        HitReportView {
            triguy_hit: self.triguy_hit,
            wedgeguy_hit: self.wedgeguy_hit,
            spent_arrows: self.spent_arrows@,
            spent_cannonballs: self.spent_cannonballs@,
            blast_origin: self.blast_origin@,
            points: self.points as nat,
        }
    }
}

/// A projectile that reaches a foe knocks it out unless it is already out.
pub open spec fn knocks(p: CharacterPhase, reaches: bool) -> bool {
    reaches && !(p is Inactive)
}

/// The two foes' phases after one projectile, which takes part only when
/// `eligible`.
pub open spec fn strike(pair: (CharacterPhase, CharacterPhase), eligible: bool, r: Reach) -> (
    CharacterPhase,
    CharacterPhase,
) {
    if eligible {
        (
            if knocks(pair.0, r.triguy) { CharacterPhase::Inactive } else { pair.0 },
            if knocks(pair.1, r.wedgeguy) { CharacterPhase::Inactive } else { pair.1 },
        )
    } else {
        pair
    }
}

/// Whether one projectile knocks out at least one foe.
pub open spec fn strikes_anyone(pair: (CharacterPhase, CharacterPhase), eligible: bool, r: Reach) -> bool {
    eligible && (knocks(pair.0, r.triguy) || knocks(pair.1, r.wedgeguy))
}

/// The foes' phases after the first `n` projectiles of a pool, in slot order.
pub open spec fn volley(
    pair: (CharacterPhase, CharacterPhase),
    eligible: Seq<bool>,
    reach: Seq<Reach>,
    n: int,
) -> (CharacterPhase, CharacterPhase)
    decreases n,
{
    if n <= 0 {
        pair
    } else {
        strike(volley(pair, eligible, reach, n - 1), eligible[n - 1], reach[n - 1])
    }
}

/// Whether projectile `i` of a pool knocks out a foe, the projectiles before
/// it having had their turn.
pub open spec fn struck(
    pair: (CharacterPhase, CharacterPhase),
    eligible: Seq<bool>,
    reach: Seq<Reach>,
    i: int,
) -> bool {
    strikes_anyone(volley(pair, eligible, reach, i), eligible[i], reach[i])
}

/// Foes that went from the field to out between `before` and `after`.
pub open spec fn knocked_count(
    before: (CharacterPhase, CharacterPhase),
    after: (CharacterPhase, CharacterPhase),
) -> nat {
    (if !(before.0 is Inactive) && after.0 is Inactive { 1nat } else { 0nat }) + (if !(
    before.1 is Inactive) && after.1 is Inactive {
        1nat
    } else {
        0nat
    })
}

/// Which arrows take part: those in the air.
pub open spec fn flying_arrows(a: Seq<ArrowPhase>) -> Seq<bool> {
    Seq::new(a.len(), |i: int| a[i] is Flying)
}

/// Which explosions take part: those burning.
pub open spec fn burning(e: Seq<ExplosionSlot>) -> Seq<bool> {
    Seq::new(e.len(), |k: int| e[k].active)
}

/// Lights an explosion for cannonball `j` and records where.
pub open spec fn spawn_from(e: Seq<ExplosionSlot>, origin: Seq<Option<usize>>, j: int) -> (
    Seq<ExplosionSlot>,
    Seq<Option<usize>>,
) {
    match spawn_spec(e).1 {
        Some(k) => (spawn_spec(e).0, origin.update(k, Some(j as usize))),
        None => (e, origin),
    }
}

/// The explosions lit for the first `n` cannonballs that hit, in cannonball
/// order, with the cannonball behind each lit slot.
pub open spec fn spawn_for_hits(
    e: Seq<ExplosionSlot>,
    origin: Seq<Option<usize>>,
    pair: (CharacterPhase, CharacterPhase),
    balls: Seq<bool>,
    reach: Seq<Reach>,
    n: int,
) -> (Seq<ExplosionSlot>, Seq<Option<usize>>)
    decreases n,
{
    if n <= 0 {
        (e, origin)
    } else {
        let prev = spawn_for_hits(e, origin, pair, balls, reach, n - 1);
        if struck(pair, balls, reach, n - 1) {
            spawn_from(prev.0, prev.1, n - 1)
        } else {
            prev
        }
    }
}

/// How far each explosion reaches: one lit for a cannonball reaches where
/// that cannonball burst, the others as the host measured them.
pub open spec fn lit_reach(origin: Seq<Option<usize>>, blast: Seq<Reach>, fresh: Seq<Reach>) -> Seq<Reach> {
    Seq::new(
        origin.len(),
        |k: int|
            match origin[k] {
                Some(j) => fresh[j as int],
                None => blast[k],
            },
    )
}

/// A score plus points, held at the largest `u32`.
pub open spec fn add_points(score: u32, points: nat) -> u32 {
    if score + points > u32::MAX {
        u32::MAX
    } else {
        (score + points) as u32
    }
}

/// The board and the report after a resolution. `ar`, `br`, `er` say how far
/// each arrow, cannonball and burning explosion reaches, `fr` how far an
/// explosion lit where each cannonball is would reach.
pub open spec fn resolve_spec(
    b: BoardView,
    ar: Seq<Reach>,
    br: Seq<Reach>,
    er: Seq<Reach>,
    fr: Seq<Reach>,
) -> (BoardView, HitReportView) {
    let pair0 = (b.triguy, b.wedgeguy);
    let fa = flying_arrows(b.arrows);
    let pair1 = volley(pair0, fa, ar, b.arrows.len() as int);
    let pair2 = volley(pair1, b.cannonballs, br, b.cannonballs.len() as int);
    let lit = spawn_for_hits(
        b.explosions,
        Seq::new(b.explosions.len(), |k: int| None::<usize>),
        pair1,
        b.cannonballs,
        br,
        b.cannonballs.len() as int,
    );
    let pair3 = volley(pair2, burning(lit.0), lit_reach(lit.1, er, fr), lit.0.len() as int);
    let points = knocked_count(pair0, pair3);
    (
        BoardView {
            arrows: Seq::new(
                b.arrows.len(),
                |i: int|
                    if struck(pair0, fa, ar, i) {
                        ArrowPhase::Inactive
                    } else {
                        b.arrows[i]
                    },
            ),
            cannonballs: Seq::new(
                b.cannonballs.len(),
                |j: int| b.cannonballs[j] && !struck(pair1, b.cannonballs, br, j),
            ),
            explosions: lit.0,
            triguy: pair3.0,
            wedgeguy: pair3.1,
            score: add_points(b.score, points),
            game_over: b.game_over,
        },
        HitReportView {
            triguy_hit: !(pair0.0 is Inactive) && pair3.0 is Inactive,
            wedgeguy_hit: !(pair0.1 is Inactive) && pair3.1 is Inactive,
            spent_arrows: Seq::new(b.arrows.len(), |i: int| struck(pair0, fa, ar, i)),
            spent_cannonballs: Seq::new(
                b.cannonballs.len(),
                |j: int| struck(pair1, b.cannonballs, br, j),
            ),
            blast_origin: lit.1,
            points,
        },
    )
}

/// A foe that is out stays out through any volley.
pub proof fn lemma_volley_keeps_out(
    pair: (CharacterPhase, CharacterPhase),
    eligible: Seq<bool>,
    reach: Seq<Reach>,
    n: int,
)
    ensures
        pair.0 is Inactive ==> volley(pair, eligible, reach, n).0 is Inactive,
        pair.1 is Inactive ==> volley(pair, eligible, reach, n).1 is Inactive,
        volley(pair, eligible, reach, n).0 == pair.0 || volley(pair, eligible, reach, n).0 is Inactive,
        volley(pair, eligible, reach, n).1 == pair.1 || volley(pair, eligible, reach, n).1 is Inactive,
    decreases n,
{
    if n > 0 {
        lemma_volley_keeps_out(pair, eligible, reach, n - 1);
    }
}

/// Law: a resolution scores exactly one point for each foe it knocks out, at
/// most two; a foe it knocks out was on the field and is out afterwards, a
/// foe it does not knock out keeps its phase, and a foe that was out stays
/// out. The score never goes down and the round's end is left as it was.
/// Only arrows in the air and cannonballs in the air are spent, and a spent
/// one returns to its pool.
pub proof fn law_points_are_knockouts(b: BoardView, ar: Seq<Reach>, br: Seq<Reach>, er: Seq<Reach>, fr: Seq<Reach>)
    requires
        b.wf(),
    ensures
        ({
            let (b2, rep) = resolve_spec(b, ar, br, er, fr);
            &&& rep.points == (if rep.triguy_hit { 1nat } else { 0nat }) + (if rep.wedgeguy_hit { 1nat } else { 0nat })
            &&& rep.points <= 2
            &&& b2.score == add_points(b.score, rep.points)
            &&& b2.score >= b.score
            &&& rep.triguy_hit ==> !(b.triguy is Inactive) && b2.triguy is Inactive
            &&& !rep.triguy_hit ==> b2.triguy == b.triguy
            &&& rep.wedgeguy_hit ==> !(b.wedgeguy is Inactive) && b2.wedgeguy is Inactive
            &&& !rep.wedgeguy_hit ==> b2.wedgeguy == b.wedgeguy
            &&& b2.game_over == b.game_over
            &&& forall|i: int| 0 <= i < b.arrows.len() ==> (#[trigger] rep.spent_arrows[i] ==> b.arrows[i] is Flying && b2.arrows[i] is Inactive)
            &&& forall|i: int| 0 <= i < b.arrows.len() ==> (!#[trigger] rep.spent_arrows[i] ==> b2.arrows[i] == b.arrows[i])
            &&& forall|j: int| 0 <= j < b.cannonballs.len() ==> (#[trigger] rep.spent_cannonballs[j] ==> b.cannonballs[j] && !b2.cannonballs[j])
            &&& forall|j: int| 0 <= j < b.cannonballs.len() ==> (!#[trigger] rep.spent_cannonballs[j] ==> b2.cannonballs[j] == b.cannonballs[j])
        }),
{
    let pair0 = (b.triguy, b.wedgeguy);
    let fa = flying_arrows(b.arrows);
    let pair1 = volley(pair0, fa, ar, b.arrows.len() as int);
    let pair2 = volley(pair1, b.cannonballs, br, b.cannonballs.len() as int);
    let lit = spawn_for_hits(
        b.explosions,
        Seq::new(b.explosions.len(), |k: int| None::<usize>),
        pair1,
        b.cannonballs,
        br,
        b.cannonballs.len() as int,
    );
    let pair3 = volley(pair2, burning(lit.0), lit_reach(lit.1, er, fr), lit.0.len() as int);
    lemma_volley_keeps_out(pair0, fa, ar, b.arrows.len() as int);
    lemma_volley_keeps_out(pair1, b.cannonballs, br, b.cannonballs.len() as int);
    lemma_volley_keeps_out(pair2, burning(lit.0), lit_reach(lit.1, er, fr), lit.0.len() as int);
}

/// Law: when nothing reaches a foe, a resolution changes nothing and scores
/// nothing.
pub proof fn law_no_reach_no_change(b: BoardView, ar: Seq<Reach>, br: Seq<Reach>, er: Seq<Reach>, fr: Seq<Reach>)
    requires
        b.wf(),
        ar.len() == b.arrows.len(),
        br.len() == b.cannonballs.len(),
        er.len() == b.explosions.len(),
        fr.len() == b.cannonballs.len(),
        forall|i: int| #![trigger ar[i]] 0 <= i < ar.len() ==> !ar[i].triguy && !ar[i].wedgeguy,
        forall|i: int| #![trigger br[i]] 0 <= i < br.len() ==> !br[i].triguy && !br[i].wedgeguy,
        forall|i: int| #![trigger er[i]] 0 <= i < er.len() ==> !er[i].triguy && !er[i].wedgeguy,
        forall|i: int| #![trigger fr[i]] 0 <= i < fr.len() ==> !fr[i].triguy && !fr[i].wedgeguy,
    ensures
        resolve_spec(b, ar, br, er, fr).0 == b,
        resolve_spec(b, ar, br, er, fr).1.points == 0,
{
    let pair0 = (b.triguy, b.wedgeguy);
    let fa = flying_arrows(b.arrows);
    let none = Seq::new(b.explosions.len(), |k: int| None::<usize>);
    lemma_quiet_volley(pair0, fa, ar, b.arrows.len() as int);
    lemma_quiet_volley(pair0, b.cannonballs, br, b.cannonballs.len() as int);
    lemma_quiet_spawns(b.explosions, none, pair0, b.cannonballs, br, b.cannonballs.len() as int);
    let lit = spawn_for_hits(b.explosions, none, pair0, b.cannonballs, br, b.cannonballs.len() as int);
    assert(lit_reach(lit.1, er, fr) =~= er);
    lemma_quiet_volley(pair0, burning(lit.0), er, lit.0.len() as int);
    let (b2, rep) = resolve_spec(b, ar, br, er, fr);
    assert forall|i: int| 0 <= i < b.arrows.len() implies !struck(pair0, fa, ar, i) by {
        lemma_quiet_volley(pair0, fa, ar, i);
        assert(!ar[i].triguy && !ar[i].wedgeguy);
    }
    assert forall|j: int| 0 <= j < b.cannonballs.len() implies !struck(pair0, b.cannonballs, br, j) by {
        lemma_quiet_volley(pair0, b.cannonballs, br, j);
        assert(!br[j].triguy && !br[j].wedgeguy);
    }
    assert(b2.arrows =~= b.arrows);
    assert(b2.cannonballs =~= b.cannonballs);
}

/// A volley in which nothing reaches a foe leaves both as they were.
proof fn lemma_quiet_volley(pair: (CharacterPhase, CharacterPhase), eligible: Seq<bool>, reach: Seq<Reach>, n: int)
    requires
        n <= reach.len(),
        forall|i: int| #![trigger reach[i]] 0 <= i < reach.len() ==> !reach[i].triguy && !reach[i].wedgeguy,
    ensures
        volley(pair, eligible, reach, n) == pair,
    decreases n,
{
    if n > 0 {
        lemma_quiet_volley(pair, eligible, reach, n - 1);
    }
}

/// When no cannonball reaches a foe, none bursts.
proof fn lemma_quiet_spawns(
    e: Seq<ExplosionSlot>,
    origin: Seq<Option<usize>>,
    pair: (CharacterPhase, CharacterPhase),
    balls: Seq<bool>,
    reach: Seq<Reach>,
    n: int,
)
    requires
        n <= reach.len(),
        forall|i: int| #![trigger reach[i]] 0 <= i < reach.len() ==> !reach[i].triguy && !reach[i].wedgeguy,
    ensures
        spawn_for_hits(e, origin, pair, balls, reach, n) == (e, origin),
    decreases n,
{
    if n > 0 {
        lemma_quiet_spawns(e, origin, pair, balls, reach, n - 1);
        lemma_quiet_volley(pair, balls, reach, n - 1);
    }
}

/// Some eligible projectile among the first `n` reaches the Triguy.
pub open spec fn any_reach_triguy(eligible: Seq<bool>, reach: Seq<Reach>, n: int) -> bool {
    exists|j: int| 0 <= j < n && eligible[j] && #[trigger] reach[j].triguy
}

/// Some eligible projectile among the first `n` reaches the Wedgeguy.
pub open spec fn any_reach_wedgeguy(eligible: Seq<bool>, reach: Seq<Reach>, n: int) -> bool {
    exists|j: int| 0 <= j < n && eligible[j] && #[trigger] reach[j].wedgeguy
}

/// After a volley a foe is out exactly when it was out before or some
/// eligible projectile of the volley reaches it.
pub proof fn lemma_volley_reach(
    pair: (CharacterPhase, CharacterPhase),
    eligible: Seq<bool>,
    reach: Seq<Reach>,
    n: int,
)
    requires
        0 <= n,
    ensures
        volley(pair, eligible, reach, n).0 == (if any_reach_triguy(eligible, reach, n) {
            CharacterPhase::Inactive
        } else {
            pair.0
        }),
        volley(pair, eligible, reach, n).1 == (if any_reach_wedgeguy(eligible, reach, n) {
            CharacterPhase::Inactive
        } else {
            pair.1
        }),
    decreases n,
{
    if n > 0 {
        lemma_volley_reach(pair, eligible, reach, n - 1);
        if eligible[n - 1] && reach[n - 1].triguy {
            assert(any_reach_triguy(eligible, reach, n));
        } else if any_reach_triguy(eligible, reach, n) {
            let j = choose|j: int| 0 <= j < n && eligible[j] && #[trigger] reach[j].triguy;
            assert(j != n - 1);
            assert(any_reach_triguy(eligible, reach, n - 1));
        }
        if eligible[n - 1] && reach[n - 1].wedgeguy {
            assert(any_reach_wedgeguy(eligible, reach, n));
        } else if any_reach_wedgeguy(eligible, reach, n) {
            let j = choose|j: int| 0 <= j < n && eligible[j] && #[trigger] reach[j].wedgeguy;
            assert(j != n - 1);
            assert(any_reach_wedgeguy(eligible, reach, n - 1));
        }
    }
}

/// Law: which arrows and cannonballs a resolution spends. An arrow is spent
/// exactly when it is in the air and reaches a foe that is on the field and
/// that no earlier arrow in the air reaches. A cannonball is spent exactly
/// when it is in the air and reaches a foe that is on the field, that no
/// arrow in the air reaches and that no earlier cannonball in the air
/// reaches.
pub proof fn law_spent_projectiles(b: BoardView, ar: Seq<Reach>, br: Seq<Reach>, er: Seq<Reach>, fr: Seq<Reach>)
    requires
        b.wf(),
    ensures
        ({
            let (b2, rep) = resolve_spec(b, ar, br, er, fr);
            let fa = flying_arrows(b.arrows);
            &&& forall|i: int|
                0 <= i < b.arrows.len() ==> #[trigger] rep.spent_arrows[i] == (b.arrows[i] is Flying && ((
                ar[i].triguy && !(b.triguy is Inactive) && !(exists|m: int|
                    0 <= m < i && b.arrows[m] is Flying && #[trigger] ar[m].triguy)) || (ar[i].wedgeguy
                    && !(b.wedgeguy is Inactive) && !(exists|m: int|
                    0 <= m < i && b.arrows[m] is Flying && #[trigger] ar[m].wedgeguy))))
            &&& forall|j: int|
                0 <= j < b.cannonballs.len() ==> #[trigger] rep.spent_cannonballs[j] == (b.cannonballs[j] && ((
                br[j].triguy && !(b.triguy is Inactive) && !any_reach_triguy(fa, ar, b.arrows.len() as int)
                    && !(exists|m: int| 0 <= m < j && b.cannonballs[m] && #[trigger] br[m].triguy)) || (
                br[j].wedgeguy && !(b.wedgeguy is Inactive) && !any_reach_wedgeguy(
                    fa,
                    ar,
                    b.arrows.len() as int,
                ) && !(exists|m: int| 0 <= m < j && b.cannonballs[m] && #[trigger] br[m].wedgeguy))))
        }),
{
    let (b2, rep) = resolve_spec(b, ar, br, er, fr);
    let pair0 = (b.triguy, b.wedgeguy);
    let fa = flying_arrows(b.arrows);
    let pair1 = volley(pair0, fa, ar, b.arrows.len() as int);
    lemma_volley_reach(pair0, fa, ar, b.arrows.len() as int);
    assert forall|i: int| 0 <= i < b.arrows.len() implies #[trigger] rep.spent_arrows[i] == (b.arrows[i] is Flying && ((
        ar[i].triguy && !(b.triguy is Inactive) && !(exists|m: int|
            0 <= m < i && b.arrows[m] is Flying && #[trigger] ar[m].triguy)) || (ar[i].wedgeguy
            && !(b.wedgeguy is Inactive) && !(exists|m: int|
            0 <= m < i && b.arrows[m] is Flying && #[trigger] ar[m].wedgeguy)))) by {
        lemma_volley_reach(pair0, fa, ar, i);
        assert(any_reach_triguy(fa, ar, i) == (exists|m: int|
            0 <= m < i && b.arrows[m] is Flying && #[trigger] ar[m].triguy)) by {
            if any_reach_triguy(fa, ar, i) {
                let m = choose|m: int| 0 <= m < i && fa[m] && #[trigger] ar[m].triguy;
                assert(b.arrows[m] is Flying && ar[m].triguy);
            }
            if exists|m: int| 0 <= m < i && b.arrows[m] is Flying && #[trigger] ar[m].triguy {
                let m = choose|m: int| 0 <= m < i && b.arrows[m] is Flying && #[trigger] ar[m].triguy;
                assert(fa[m] && ar[m].triguy);
            }
        }
        assert(any_reach_wedgeguy(fa, ar, i) == (exists|m: int|
            0 <= m < i && b.arrows[m] is Flying && #[trigger] ar[m].wedgeguy)) by {
            if any_reach_wedgeguy(fa, ar, i) {
                let m = choose|m: int| 0 <= m < i && fa[m] && #[trigger] ar[m].wedgeguy;
                assert(b.arrows[m] is Flying && ar[m].wedgeguy);
            }
            if exists|m: int| 0 <= m < i && b.arrows[m] is Flying && #[trigger] ar[m].wedgeguy {
                let m = choose|m: int| 0 <= m < i && b.arrows[m] is Flying && #[trigger] ar[m].wedgeguy;
                assert(fa[m] && ar[m].wedgeguy);
            }
        }
    }
    assert forall|j: int| 0 <= j < b.cannonballs.len() implies #[trigger] rep.spent_cannonballs[j] == (b.cannonballs[j] && ((
        br[j].triguy && !(b.triguy is Inactive) && !any_reach_triguy(fa, ar, b.arrows.len() as int)
            && !(exists|m: int| 0 <= m < j && b.cannonballs[m] && #[trigger] br[m].triguy)) || (
        br[j].wedgeguy && !(b.wedgeguy is Inactive) && !any_reach_wedgeguy(fa, ar, b.arrows.len() as int)
            && !(exists|m: int| 0 <= m < j && b.cannonballs[m] && #[trigger] br[m].wedgeguy)))) by {
        lemma_volley_reach(pair1, b.cannonballs, br, j);
    }
}

/// Law: which foes a resolution knocks out. A foe is knocked out exactly when
/// it was on the field and an arrow in the air, a cannonball in the air, or an
/// explosion burning after the resolution reaches it, an explosion lit here
/// reaching as far as the cannonball it came from says.
pub proof fn law_knockouts_by_reach(b: BoardView, ar: Seq<Reach>, br: Seq<Reach>, er: Seq<Reach>, fr: Seq<Reach>)
    requires
        b.wf(),
    ensures
        ({
            let (b2, rep) = resolve_spec(b, ar, br, er, fr);
            let lr = lit_reach(rep.blast_origin, er, fr);
            &&& rep.triguy_hit == (!(b.triguy is Inactive) && ((exists|i: int|
                0 <= i < b.arrows.len() && b.arrows[i] is Flying && #[trigger] ar[i].triguy) || (exists|j: int|
                0 <= j < b.cannonballs.len() && b.cannonballs[j] && #[trigger] br[j].triguy) || (exists|k: int|
                0 <= k < b2.explosions.len() && b2.explosions[k].active && #[trigger] lr[k].triguy)))
            &&& rep.wedgeguy_hit == (!(b.wedgeguy is Inactive) && ((exists|i: int|
                0 <= i < b.arrows.len() && b.arrows[i] is Flying && #[trigger] ar[i].wedgeguy) || (exists|j: int|
                0 <= j < b.cannonballs.len() && b.cannonballs[j] && #[trigger] br[j].wedgeguy) || (exists|k: int|
                0 <= k < b2.explosions.len() && b2.explosions[k].active && #[trigger] lr[k].wedgeguy)))
        }),
{
    let (b2, rep) = resolve_spec(b, ar, br, er, fr);
    let pair0 = (b.triguy, b.wedgeguy);
    let fa = flying_arrows(b.arrows);
    let pair1 = volley(pair0, fa, ar, b.arrows.len() as int);
    let pair2 = volley(pair1, b.cannonballs, br, b.cannonballs.len() as int);
    let lr = lit_reach(rep.blast_origin, er, fr);
    let be = burning(b2.explosions);
    lemma_volley_reach(pair0, fa, ar, b.arrows.len() as int);
    lemma_volley_reach(pair1, b.cannonballs, br, b.cannonballs.len() as int);
    lemma_volley_reach(pair2, be, lr, b2.explosions.len() as int);
    // Arrows.
    if any_reach_triguy(fa, ar, b.arrows.len() as int) {
        let m = choose|m: int| 0 <= m < b.arrows.len() && fa[m] && #[trigger] ar[m].triguy;
        assert(b.arrows[m] is Flying && ar[m].triguy);
    }
    if exists|i: int| 0 <= i < b.arrows.len() && b.arrows[i] is Flying && #[trigger] ar[i].triguy {
        let m = choose|i: int| 0 <= i < b.arrows.len() && b.arrows[i] is Flying && #[trigger] ar[i].triguy;
        assert(fa[m] && ar[m].triguy);
    }
    if any_reach_wedgeguy(fa, ar, b.arrows.len() as int) {
        let m = choose|m: int| 0 <= m < b.arrows.len() && fa[m] && #[trigger] ar[m].wedgeguy;
        assert(b.arrows[m] is Flying && ar[m].wedgeguy);
    }
    if exists|i: int| 0 <= i < b.arrows.len() && b.arrows[i] is Flying && #[trigger] ar[i].wedgeguy {
        let m = choose|i: int| 0 <= i < b.arrows.len() && b.arrows[i] is Flying && #[trigger] ar[i].wedgeguy;
        assert(fa[m] && ar[m].wedgeguy);
    }
    // Explosions.
    if any_reach_triguy(be, lr, b2.explosions.len() as int) {
        let m = choose|m: int| 0 <= m < b2.explosions.len() && be[m] && #[trigger] lr[m].triguy;
        assert(b2.explosions[m].active && lr[m].triguy);
    }
    if exists|k: int| 0 <= k < b2.explosions.len() && b2.explosions[k].active && #[trigger] lr[k].triguy {
        let m = choose|k: int| 0 <= k < b2.explosions.len() && b2.explosions[k].active && #[trigger] lr[k].triguy;
        assert(be[m] && lr[m].triguy);
    }
    if any_reach_wedgeguy(be, lr, b2.explosions.len() as int) {
        let m = choose|m: int| 0 <= m < b2.explosions.len() && be[m] && #[trigger] lr[m].wedgeguy;
        assert(b2.explosions[m].active && lr[m].wedgeguy);
    }
    if exists|k: int| 0 <= k < b2.explosions.len() && b2.explosions[k].active && #[trigger] lr[k].wedgeguy {
        let m = choose|k: int| 0 <= k < b2.explosions.len() && b2.explosions[k].active && #[trigger] lr[k].wedgeguy;
        assert(be[m] && lr[m].wedgeguy);
    }
}

/// What a run of bursts does to the explosion pool: every slot it lights was
/// free and is lit for a cannonball that hit; every other slot keeps its
/// state; no cannonball lights two slots; and a cannonball that hit but lit
/// nothing found every slot burning.
proof fn lemma_spawns(
    e0: Seq<ExplosionSlot>,
    o0: Seq<Option<usize>>,
    pair: (CharacterPhase, CharacterPhase),
    balls: Seq<bool>,
    reach: Seq<Reach>,
    n: int,
)
    requires
        0 <= n <= 1000,
        o0.len() == e0.len(),
        forall|k: int| 0 <= k < o0.len() ==> #[trigger] o0[k] is None,
    ensures
        ({
            let (e, o) = spawn_for_hits(e0, o0, pair, balls, reach, n);
            &&& e.len() == e0.len()
            &&& o.len() == e0.len()
            &&& forall|k: int|
                0 <= k < e.len() && #[trigger] o[k] is Some ==> o[k]->0 < n && struck(
                    pair,
                    balls,
                    reach,
                    o[k]->0 as int,
                ) && e[k] == lit_slot() && !e0[k].active
            &&& forall|k: int| 0 <= k < e.len() && #[trigger] o[k] is None ==> e[k] == e0[k]
            &&& forall|k1: int, k2: int|
                0 <= k1 < e.len() && 0 <= k2 < e.len() && #[trigger] o[k1] is Some && #[trigger] o[k2] == o[k1]
                    ==> k1 == k2
            &&& forall|j: int|
                0 <= j < n && struck(pair, balls, reach, j) && (forall|k: int|
                    0 <= k < e.len() ==> #[trigger] o[k] != Some(j as usize)) ==> forall|k: int|
                    0 <= k < e.len() ==> #[trigger] e[k].active
        }),
    decreases n,
{
    if n > 0 {
        lemma_spawns(e0, o0, pair, balls, reach, n - 1);
        let (e1, o1) = spawn_for_hits(e0, o0, pair, balls, reach, n - 1);
        let (e, o) = spawn_for_hits(e0, o0, pair, balls, reach, n);
        if struck(pair, balls, reach, n - 1) {
            lemma_first_true(idle_blasts(e1));
            match first_true(idle_blasts(e1)) {
                Some(k0) => {
                    assert(!e1[k0].active);
                    assert(o1[k0] is None);
                    assert(e == e1.update(k0, lit_slot()));
                    assert(o == o1.update(k0, Some((n - 1) as usize)));
                    assert forall|j: int|
                        0 <= j < n && struck(pair, balls, reach, j) && (forall|k: int|
                            0 <= k < e.len() ==> #[trigger] o[k] != Some(j as usize)) implies forall|k: int|
                        0 <= k < e.len() ==> #[trigger] e[k].active by {
                        if j == n - 1 {
                            assert(o[k0] == Some(j as usize));
                        } else {
                            assert forall|k: int| 0 <= k < e.len() implies #[trigger] o1[k] != Some(j as usize) by {
                                if k != k0 {
                                    assert(o[k] == o1[k]);
                                }
                            }
                        }
                    }
                },
                None => {
                    assert forall|k: int| 0 <= k < e1.len() implies #[trigger] e1[k].active by {
                        assert(!idle_blasts(e1)[k]);
                    }
                },
            }
        }
    }
}

/// Law: how a resolution lights explosions. Each slot it lights was free,
/// starts at stage 0, and is lit for one cannonball that the resolution
/// spent; a slot it does not light is left as it was; no cannonball lights
/// two slots; and a spent cannonball lights nothing only when every slot is
/// burning.
pub proof fn law_bursts_fill_free_slots(b: BoardView, ar: Seq<Reach>, br: Seq<Reach>, er: Seq<Reach>, fr: Seq<Reach>)
    requires
        b.wf(),
    ensures
        ({
            let (b2, rep) = resolve_spec(b, ar, br, er, fr);
            &&& b2.explosions.len() == b.explosions.len()
            &&& rep.blast_origin.len() == b.explosions.len()
            &&& forall|k: int|
                0 <= k < b.explosions.len() && #[trigger] rep.blast_origin[k] is Some ==> {
                    &&& rep.blast_origin[k]->0 < b.cannonballs.len()
                    &&& rep.spent_cannonballs[rep.blast_origin[k]->0 as int]
                    &&& !b.explosions[k].active
                    &&& b2.explosions[k] == lit_slot()
                }
            &&& forall|k: int|
                0 <= k < b.explosions.len() && #[trigger] rep.blast_origin[k] is None ==> b2.explosions[k]
                    == b.explosions[k]
            &&& forall|k1: int, k2: int|
                0 <= k1 < b.explosions.len() && 0 <= k2 < b.explosions.len() && #[trigger] rep.blast_origin[k1] is Some
                    && #[trigger] rep.blast_origin[k2] == rep.blast_origin[k1] ==> k1 == k2
            &&& forall|j: int|
                0 <= j < b.cannonballs.len() && #[trigger] rep.spent_cannonballs[j] && (forall|k: int|
                    0 <= k < b.explosions.len() ==> #[trigger] rep.blast_origin[k] != Some(j as usize))
                    ==> forall|k: int| 0 <= k < b.explosions.len() ==> #[trigger] b2.explosions[k].active
        }),
{
    let pair0 = (b.triguy, b.wedgeguy);
    let fa = flying_arrows(b.arrows);
    let pair1 = volley(pair0, fa, ar, b.arrows.len() as int);
    let o0 = Seq::new(b.explosions.len(), |k: int| None::<usize>);
    lemma_spawns(b.explosions, o0, pair1, b.cannonballs, br, b.cannonballs.len() as int);
}

} // verus!
