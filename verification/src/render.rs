//! The render list: one row per game entity, in a fixed order, each row
//! holding `[x, y, rotation, sprite_id, target_height, alpha]`. The board
//! decides the order of the rows and where each row's rotation and alpha come
//! from; the host fills in the numbers and packs the rows.
use vstd::prelude::*;
use crate::board::{
    ArrowPhase, Board, BoardView, Foe, ARROW_POOL_SIZE, CANNONBALL_POOL_SIZE, EXPLOSION_POOL_SIZE,
};

verus! {

/// Values per row of the render list.
pub const RENDER_STRIDE: usize = 6;

/// Rows of the render list: castle, cannon, crossbow, the three pools, and
/// the two foes.
pub const MAX_ENTITIES: usize = 5 + ARROW_POOL_SIZE + CANNONBALL_POOL_SIZE + EXPLOSION_POOL_SIZE;

/// A game entity.
#[derive(Clone, Copy, Debug, PartialEq, Eq, Structural)]
pub enum Piece {
    Castle,
    Cannon,
    Crossbow,
    /// The arrow in this pool slot.
    Arrow(usize),
    /// The cannonball in this pool slot.
    Cannonball(usize),
    /// The explosion in this pool slot.
    Explosion(usize),
    /// One of the foes.
    Foe(Foe),
}

/// Where a row's rotation and alpha come from.
#[derive(Clone, Copy, Debug, PartialEq, Eq, Structural)]
pub enum Pose {
    /// Rotation 0, alpha 1.
    Upright,
    /// Rotation 0, alpha 0: an idle arrow.
    Hidden,
    /// The heading of the entity's velocity, alpha 1: a projectile in the air.
    Heading,
    /// The rotation and alpha kept by a grounded arrow.
    Resting,
}

/// One row of the render list, before the host fills in the numbers.
#[derive(Clone, Copy, Debug, PartialEq, Eq, Structural)]
pub struct RenderItem {
    pub piece: Piece,
    pub pose: Pose,
}

/// The entity shown in row `i`.
pub open spec fn piece_at(i: int) -> Piece {
    if i == 0 {
        Piece::Castle
    } else if i == 1 {
        Piece::Cannon
    } else if i == 2 {
        Piece::Crossbow
    } else if i < 3 + ARROW_POOL_SIZE {
        Piece::Arrow((i - 3) as usize)
    } else if i < 3 + ARROW_POOL_SIZE + CANNONBALL_POOL_SIZE {
        Piece::Cannonball((i - 3 - ARROW_POOL_SIZE) as usize)
    } else if i < 3 + ARROW_POOL_SIZE + CANNONBALL_POOL_SIZE + EXPLOSION_POOL_SIZE {
        Piece::Explosion((i - 3 - ARROW_POOL_SIZE - CANNONBALL_POOL_SIZE) as usize)
    } else if i == MAX_ENTITIES - 2 {
        Piece::Foe(Foe::Triguy)
    } else {
        Piece::Foe(Foe::Wedgeguy)
    }
}

/// Where an entity's rotation and alpha come from: an arrow by its phase, a
/// cannonball by whether it is in the air, every other entity upright.
pub open spec fn pose_of(b: BoardView, p: Piece) -> Pose {
    match p {
        Piece::Arrow(i) => match b.arrows[i as int] {
            ArrowPhase::Inactive => Pose::Hidden,
            ArrowPhase::Flying => Pose::Heading,
            ArrowPhase::Grounded => Pose::Resting,
        },
        Piece::Cannonball(j) => if b.cannonballs[j as int] {
            Pose::Heading
        } else {
            Pose::Upright
        },
        _ => Pose::Upright,
    }
}

impl Board {
    /// The rows of the render list, in order; see `piece_at` and `pose_of`.
    pub fn render_plan(&self) -> (r: Vec<RenderItem>)
        requires
            self@.wf(),
        ensures
            r@.len() == MAX_ENTITIES,
            forall|i: int|
                0 <= i < MAX_ENTITIES ==> #[trigger] r@[i] == (RenderItem {
                    piece: piece_at(i),
                    pose: pose_of(self@, piece_at(i)),
                }),
    {
        let mut r: Vec<RenderItem> = Vec::new();
        r.push(RenderItem { piece: Piece::Castle, pose: Pose::Upright });
        r.push(RenderItem { piece: Piece::Cannon, pose: Pose::Upright });
        r.push(RenderItem { piece: Piece::Crossbow, pose: Pose::Upright });
        let mut i: usize = 0;
        while i < ARROW_POOL_SIZE
            invariant
                self@.wf(),
                i <= ARROW_POOL_SIZE,
                r@.len() == 3 + i,
                forall|m: int|
                    0 <= m < 3 + i ==> #[trigger] r@[m] == (RenderItem {
                        piece: piece_at(m),
                        pose: pose_of(self@, piece_at(m)),
                    }),
            decreases ARROW_POOL_SIZE - i,
        {
            let pose = match self.arrow(i) {
                ArrowPhase::Inactive => Pose::Hidden,
                ArrowPhase::Flying => Pose::Heading,
                ArrowPhase::Grounded => Pose::Resting,
            };
            r.push(RenderItem { piece: Piece::Arrow(i), pose });
            i = i + 1;
        }
        let mut j: usize = 0;
        while j < CANNONBALL_POOL_SIZE
            invariant
                self@.wf(),
                j <= CANNONBALL_POOL_SIZE,
                r@.len() == 3 + ARROW_POOL_SIZE + j,
                forall|m: int|
                    0 <= m < 3 + ARROW_POOL_SIZE + j ==> #[trigger] r@[m] == (RenderItem {
                        piece: piece_at(m),
                        pose: pose_of(self@, piece_at(m)),
                    }),
            decreases CANNONBALL_POOL_SIZE - j,
        {
            let pose = if self.cannonball_active(j) {
                Pose::Heading
            } else {
                Pose::Upright
            };
            r.push(RenderItem { piece: Piece::Cannonball(j), pose });
            j = j + 1;
        }
        let mut k: usize = 0;
        while k < EXPLOSION_POOL_SIZE
            invariant
                self@.wf(),
                k <= EXPLOSION_POOL_SIZE,
                r@.len() == 3 + ARROW_POOL_SIZE + CANNONBALL_POOL_SIZE + k,
                forall|m: int|
                    0 <= m < 3 + ARROW_POOL_SIZE + CANNONBALL_POOL_SIZE + k ==> #[trigger] r@[m] == (
                    RenderItem { piece: piece_at(m), pose: pose_of(self@, piece_at(m)) }),
            decreases EXPLOSION_POOL_SIZE - k,
        {
            r.push(RenderItem { piece: Piece::Explosion(k), pose: Pose::Upright });
            k = k + 1;
        }
        r.push(RenderItem { piece: Piece::Foe(Foe::Triguy), pose: Pose::Upright });
        r.push(RenderItem { piece: Piece::Foe(Foe::Wedgeguy), pose: Pose::Upright });
        r
    }
}

/// Packs rows into one flat list, row after row.
pub fn pack_rows<T: Copy>(rows: &Vec<[T; RENDER_STRIDE]>) -> (r: Vec<T>)
    ensures
        r@.len() == RENDER_STRIDE * rows@.len(),
        forall|i: int, c: int|
            0 <= i < rows@.len() && 0 <= c < RENDER_STRIDE ==> #[trigger] r@[RENDER_STRIDE * i + c]
                == rows@[i]@[c],
{
    let mut r: Vec<T> = Vec::new();
    let mut i: usize = 0;
    while i < rows.len()
        invariant
            i <= rows@.len(),
            r@.len() == RENDER_STRIDE * i,
            forall|m: int, c: int|
                0 <= m < i && 0 <= c < RENDER_STRIDE ==> #[trigger] r@[RENDER_STRIDE * m + c]
                    == rows@[m]@[c],
        decreases rows@.len() - i,
    {
        let row = &rows[i];
        let mut c: usize = 0;
        while c < RENDER_STRIDE
            invariant
                i < rows@.len(),
                *row == rows@[i as int],
                c <= RENDER_STRIDE,
                r@.len() == RENDER_STRIDE * i + c,
                forall|m: int, d: int|
                    0 <= m < i && 0 <= d < RENDER_STRIDE ==> #[trigger] r@[RENDER_STRIDE * m + d]
                        == rows@[m]@[d],
                forall|d: int| 0 <= d < c ==> #[trigger] r@[RENDER_STRIDE * i + d] == rows@[i as int]@[d],
            decreases RENDER_STRIDE - c,
        {
            r.push(row[c]);
            c = c + 1;
        }
        i = i + 1;
    }
    r
}

/// Law: the render list shows the castle, the cannon and the crossbow first,
/// then every arrow, every cannonball and every explosion in slot order, then
/// the Triguy and the Wedgeguy. An idle arrow is drawn unrotated and
/// invisible, a projectile in the air along its heading, a grounded arrow
/// with the rotation and alpha it kept, and everything else upright and
/// opaque.
pub proof fn law_render_order_and_poses(b: BoardView)
    requires
        b.wf(),
    ensures
        piece_at(0) == Piece::Castle,
        piece_at(1) == Piece::Cannon,
        piece_at(2) == Piece::Crossbow,
        forall|i: int| 0 <= i < ARROW_POOL_SIZE ==> #[trigger] piece_at(3 + i) == Piece::Arrow(i as usize),
        forall|j: int|
            0 <= j < CANNONBALL_POOL_SIZE ==> #[trigger] piece_at(3 + ARROW_POOL_SIZE + j) == Piece::Cannonball(
                j as usize,
            ),
        forall|k: int|
            0 <= k < EXPLOSION_POOL_SIZE ==> #[trigger] piece_at(3 + ARROW_POOL_SIZE + CANNONBALL_POOL_SIZE + k)
                == Piece::Explosion(k as usize),
        piece_at(MAX_ENTITIES - 2) == Piece::Foe(Foe::Triguy),
        piece_at(MAX_ENTITIES - 1) == Piece::Foe(Foe::Wedgeguy),
        forall|i: int|
            0 <= i < ARROW_POOL_SIZE ==> (#[trigger] pose_of(b, Piece::Arrow(i as usize)) == Pose::Hidden)
                == (b.arrows[i] == ArrowPhase::Inactive) && (pose_of(b, Piece::Arrow(i as usize))
                == Pose::Heading) == (b.arrows[i] == ArrowPhase::Flying) && (pose_of(b, Piece::Arrow(i as usize))
                == Pose::Resting) == (b.arrows[i] == ArrowPhase::Grounded),
        forall|j: int|
            0 <= j < CANNONBALL_POOL_SIZE ==> (#[trigger] pose_of(b, Piece::Cannonball(j as usize))
                == Pose::Heading) == b.cannonballs[j] && (pose_of(b, Piece::Cannonball(j as usize)) == Pose::Upright)
                == !b.cannonballs[j],
        forall|k: usize| #[trigger] pose_of(b, Piece::Explosion(k)) == Pose::Upright,
        pose_of(b, Piece::Castle) == Pose::Upright,
        pose_of(b, Piece::Cannon) == Pose::Upright,
        pose_of(b, Piece::Crossbow) == Pose::Upright,
        pose_of(b, Piece::Foe(Foe::Triguy)) == Pose::Upright,
        pose_of(b, Piece::Foe(Foe::Wedgeguy)) == Pose::Upright,
{
}

} // verus!
