//! The sprite sheet: which image each sprite id shows, how each sprite is
//! sized against the viewport, which sprite a foe or an explosion shows, and
//! the size of an explosion at each stage of its animation.
use vstd::prelude::*;
use crate::board::{Foe, EXPLOSION_GROW_STAGES, EXPLOSION_STAGE_COUNT};

verus! {

/// Sprites other than the explosion stages.
pub const BASE_SPRITE_COUNT: usize = 9;

/// All sprites: the base ones and one per explosion stage.
pub const SPRITE_COUNT: usize = 16;

/// The Triguy mid-stride.
pub const SPRITE_TRIGUY_STRIDE: u16 = 0;

/// The Triguy striking.
pub const SPRITE_TRIGUY_STRIKE: u16 = 1;

/// The Wedgeguy mid-stride.
pub const SPRITE_WEDGEGUY_STRIDE: u16 = 2;

/// The Wedgeguy striking.
pub const SPRITE_WEDGEGUY_STRIKE: u16 = 3;

/// The castle.
pub const SPRITE_CASTLE: u16 = 4;

/// The cannon.
pub const SPRITE_CANNON: u16 = 5;

/// The crossbow.
pub const SPRITE_CROSSBOW: u16 = 6;

/// An arrow.
pub const SPRITE_ARROW: u16 = 7;

/// A cannonball.
pub const SPRITE_CANNONBALL: u16 = 8;

/// The first explosion stage; stage `n` is this id plus `n`.
pub const SPRITE_EXPLOSION_BASE: u16 = 9;

/// The image file of each sprite id.
pub open spec fn sprite_path(id: int) -> Seq<char> {
    if id == 0 {
        "sprites/retro-triguy-stride1-sprite.png"@
    } else if id == 1 {
        "sprites/retro-triguy-strike-sprite.png"@
    } else if id == 2 {
        "sprites/retro-wedgeguy-stride-sprite.png"@
    } else if id == 3 {
        "sprites/retro-wedgeguy-strike-sprite.png"@
    } else if id == 4 {
        "sprites/retro-castle-sprite.png"@
    } else if id == 5 {
        "sprites/retro-cannon-sprite.png"@
    } else if id == 6 {
        "sprites/retro-crossbow-sprite.png"@
    } else if id == 7 {
        "sprites/retro-arrow-sprite.png"@
    } else if id == 8 {
        "sprites/retro-cannonball-sprite.png"@
    } else {
        "sprites/explosion-sprite.png"@
    }
}

/// The image files of all sprites, indexed by sprite id: the nine base
/// sprites, then the explosion image once per stage.
pub fn sprite_paths() -> (r: Vec<String>)
    ensures
        r@.len() == SPRITE_COUNT,
        forall|i: int| 0 <= i < SPRITE_COUNT ==> (#[trigger] r@[i])@ == sprite_path(i),
{
    let mut r: Vec<String> = Vec::new();
    r.push("sprites/retro-triguy-stride1-sprite.png".to_owned());
    r.push("sprites/retro-triguy-strike-sprite.png".to_owned());
    r.push("sprites/retro-wedgeguy-stride-sprite.png".to_owned());
    r.push("sprites/retro-wedgeguy-strike-sprite.png".to_owned());
    r.push("sprites/retro-castle-sprite.png".to_owned());
    r.push("sprites/retro-cannon-sprite.png".to_owned());
    r.push("sprites/retro-crossbow-sprite.png".to_owned());
    r.push("sprites/retro-arrow-sprite.png".to_owned());
    r.push("sprites/retro-cannonball-sprite.png".to_owned());
    let mut k: u8 = 0;
    while k < EXPLOSION_STAGE_COUNT
        invariant
            k <= EXPLOSION_STAGE_COUNT,
            r@.len() == BASE_SPRITE_COUNT + k,
            forall|i: int| 0 <= i < BASE_SPRITE_COUNT + k ==> (#[trigger] r@[i])@ == sprite_path(i),
        decreases EXPLOSION_STAGE_COUNT - k,
    {
        r.push("sprites/explosion-sprite.png".to_owned());
        k = k + 1;
    }
    r
}

/// The size class of a sprite; the host turns a class into a height from the
/// viewport.
#[derive(Clone, Copy, Debug, PartialEq, Eq, Structural)]
pub enum SpriteSize {
    /// A foe.
    Character,
    /// The castle.
    Castle,
    /// The cannon or the crossbow.
    Weapon,
    /// An arrow or a cannonball.
    Projectile,
    /// An explosion at the given stage: a projectile's height times that
    /// stage's scale.
    Blast(u8),
}

/// The size class of each sprite id.
pub open spec fn size_class(id: int) -> SpriteSize {
    if id == SPRITE_CASTLE {
        SpriteSize::Castle
    } else if id == SPRITE_CANNON || id == SPRITE_CROSSBOW {
        SpriteSize::Weapon
    } else if id == SPRITE_ARROW || id == SPRITE_CANNONBALL {
        SpriteSize::Projectile
    } else if SPRITE_EXPLOSION_BASE <= id {
        SpriteSize::Blast((id - SPRITE_EXPLOSION_BASE) as u8)
    } else {
        SpriteSize::Character
    }
}

/// The size class of every sprite, indexed by sprite id.
pub fn sprite_size_plan() -> (r: Vec<SpriteSize>)
    ensures
        r@.len() == SPRITE_COUNT,
        forall|i: int| 0 <= i < SPRITE_COUNT ==> #[trigger] r@[i] == size_class(i),
{
    let mut r: Vec<SpriteSize> = Vec::new();
    let mut id: usize = 0;
    while id < SPRITE_COUNT
        invariant
            id <= SPRITE_COUNT,
            r@.len() == id,
            forall|i: int| 0 <= i < id ==> #[trigger] r@[i] == size_class(i),
        decreases SPRITE_COUNT - id,
    {
        let class = if id == 4 {
            SpriteSize::Castle
        } else if id == 5 || id == 6 {
            SpriteSize::Weapon
        } else if id == 7 || id == 8 {
            SpriteSize::Projectile
        } else if id >= 9 {
            SpriteSize::Blast((id - 9) as u8)
        } else {
            SpriteSize::Character
        };
        r.push(class);
        id = id + 1;
    }
    r
}

/// The entry at `i`, or `fallback` past the end. Sprite heights are looked up
/// this way, so that an unknown sprite gets no height.
pub fn value_or<T: Copy>(v: &Vec<T>, i: usize, fallback: T) -> (r: T)
    ensures
        r == if i < v@.len() { v@[i as int] } else { fallback },
{
    if i < v.len() {
        v[i]
    } else {
        fallback
    }
}

/// The sprite id of the first explosion stage.
pub fn explosion_sprite_base() -> (r: u16)
    ensures
        r == SPRITE_EXPLOSION_BASE,
{
    SPRITE_EXPLOSION_BASE
}

/// The sprite an explosion shows at `stage`.
pub fn explosion_sprite(stage: u8) -> (r: u16)
    ensures
        r == SPRITE_EXPLOSION_BASE + stage,
{
    SPRITE_EXPLOSION_BASE + stage as u16
}

/// The sprite a foe shows: its stride frame or its strike frame, the two
/// alternating with the animation clock.
pub fn foe_sprite(foe: Foe, stride_frame: bool) -> (r: u16)
    ensures
        r == match foe {
            Foe::Triguy => if stride_frame { SPRITE_TRIGUY_STRIDE } else { SPRITE_TRIGUY_STRIKE },
            Foe::Wedgeguy => if stride_frame { SPRITE_WEDGEGUY_STRIDE } else { SPRITE_WEDGEGUY_STRIKE },
        },
{
    match foe {
        Foe::Triguy => if stride_frame { SPRITE_TRIGUY_STRIDE } else { SPRITE_TRIGUY_STRIKE },
        Foe::Wedgeguy => if stride_frame { SPRITE_WEDGEGUY_STRIDE } else { SPRITE_WEDGEGUY_STRIKE },
    }
}

/// `b` to the power `e`.
pub open spec fn power(b: nat, e: nat) -> nat
    decreases e,
{
    if e == 0 {
        1
    } else {
        b * power(b, (e - 1) as nat)
    }
}

/// The stage an explosion's size is taken from: stages past the last count
/// as the last.
pub open spec fn clamped_stage(stage: u8) -> nat {
    if stage < EXPLOSION_STAGE_COUNT - 1 { stage as nat } else { (EXPLOSION_STAGE_COUNT - 1) as nat }
}

/// Growth steps in an explosion's size at `stage`: one per stage up to the
/// last growing stage.
pub open spec fn grow_steps(stage: u8) -> nat {
    if clamped_stage(stage) < EXPLOSION_GROW_STAGES {
        clamped_stage(stage)
    } else {
        (EXPLOSION_GROW_STAGES - 1) as nat
    }
}

/// Shrink steps in an explosion's size at `stage`: one per stage past the
/// last growing stage.
pub open spec fn shrink_steps(stage: u8) -> nat {
    if clamped_stage(stage) < EXPLOSION_GROW_STAGES {
        0
    } else {
        (clamped_stage(stage) - (EXPLOSION_GROW_STAGES - 1)) as nat
    }
}

/// An explosion's scale as the exact fraction `num / den`. The scale is
/// 1.25 to the power of the growth steps times 0.5 to the power of the shrink
/// steps, that is 5^g / (4^g * 2^s). Each of these values is exact in `f32`,
/// so the host's division of the two as `f32` gives the scale itself.
#[derive(Clone, Copy, Debug, PartialEq, Eq, Structural)]
pub struct ScaleRatio {
    /// The numerator.
    pub num: u32,
    /// The denominator, a power of two.
    pub den: u32,
}

/// The exact scale of an explosion at `stage`.
pub open spec fn scale_spec(stage: u8) -> ScaleRatio {
    ScaleRatio {
        num: power(5, grow_steps(stage)) as u32,
        den: (power(4, grow_steps(stage)) * power(2, shrink_steps(stage))) as u32,
    }
}

/// The size of an explosion at `stage`, relative to its first stage: it grows
/// by a quarter per stage through the growing stages, then halves per stage.
pub fn explosion_scale(stage: u8) -> (r: ScaleRatio)
    ensures
        r == scale_spec(stage),
        r.num as nat == power(5, grow_steps(stage)),
        r.den as nat == power(4, grow_steps(stage)) * power(2, shrink_steps(stage)),
{
    proof {
        lemma_scale_table(stage);
    }
    let s = if stage < EXPLOSION_STAGE_COUNT - 1 { stage } else { EXPLOSION_STAGE_COUNT - 1 };
    match s {
        0 => ScaleRatio { num: 1, den: 1 },
        1 => ScaleRatio { num: 5, den: 4 },
        2 => ScaleRatio { num: 25, den: 16 },
        3 => ScaleRatio { num: 125, den: 64 },
        4 => ScaleRatio { num: 625, den: 256 },
        5 => ScaleRatio { num: 625, den: 512 },
        _ => ScaleRatio { num: 625, den: 1024 },
    }
}

/// The scale of each stage, worked out.
proof fn lemma_scale_table(stage: u8)
    ensures
        scale_spec(stage) == (if stage == 0 {
            ScaleRatio { num: 1, den: 1 }
        } else if stage == 1 {
            ScaleRatio { num: 5, den: 4 }
        } else if stage == 2 {
            ScaleRatio { num: 25, den: 16 }
        } else if stage == 3 {
            ScaleRatio { num: 125, den: 64 }
        } else if stage == 4 {
            ScaleRatio { num: 625, den: 256 }
        } else if stage == 5 {
            ScaleRatio { num: 625, den: 512 }
        } else {
            ScaleRatio { num: 625, den: 1024 }
        }),
        scale_spec(stage).num as nat == power(5, grow_steps(stage)),
        scale_spec(stage).den as nat == power(4, grow_steps(stage)) * power(2, shrink_steps(stage)),
{
    reveal_with_fuel(power, 5);
    assert(power(5, 1) == 5);
    assert(power(5, 2) == 25);
    assert(power(5, 3) == 125);
    assert(power(5, 4) == 625);
    assert(power(4, 1) == 4);
    assert(power(4, 2) == 16);
    assert(power(4, 3) == 64);
    assert(power(4, 4) == 256);
    assert(power(2, 1) == 2);
    assert(power(2, 2) == 4);
    assert(power(4, 0) == 1);
    assert(power(2, 0) == 1);
    if stage == 0 {
        assert(grow_steps(stage) == 0 && shrink_steps(stage) == 0);
        assert(power(4, 0) * power(2, 0) == 1) by (nonlinear_arith)
            requires
                power(4, 0) == 1,
                power(2, 0) == 1,
        ;
        assert(scale_spec(stage).num == 1u32 && scale_spec(stage).den == 1u32);
    } else if stage == 1 {
        assert(grow_steps(stage) == 1 && shrink_steps(stage) == 0);
        assert(power(4, 1) * power(2, 0) == 4) by (nonlinear_arith)
            requires
                power(4, 1) == 4,
                power(2, 0) == 1,
        ;
        assert(scale_spec(stage).num == 5u32 && scale_spec(stage).den == 4u32);
    } else if stage == 2 {
        assert(grow_steps(stage) == 2 && shrink_steps(stage) == 0);
        assert(power(4, 2) * power(2, 0) == 16) by (nonlinear_arith)
            requires
                power(4, 2) == 16,
                power(2, 0) == 1,
        ;
        assert(scale_spec(stage).num == 25u32 && scale_spec(stage).den == 16u32);
    } else if stage == 3 {
        assert(grow_steps(stage) == 3 && shrink_steps(stage) == 0);
        assert(power(4, 3) * power(2, 0) == 64) by (nonlinear_arith)
            requires
                power(4, 3) == 64,
                power(2, 0) == 1,
        ;
        assert(scale_spec(stage).num == 125u32 && scale_spec(stage).den == 64u32);
    } else if stage == 4 {
        assert(grow_steps(stage) == 4 && shrink_steps(stage) == 0);
        assert(power(4, 4) * power(2, 0) == 256) by (nonlinear_arith)
            requires
                power(4, 4) == 256,
                power(2, 0) == 1,
        ;
        assert(scale_spec(stage).num == 625u32 && scale_spec(stage).den == 256u32);
    } else if stage == 5 {
        assert(grow_steps(stage) == 4 && shrink_steps(stage) == 1);
        assert(power(4, 4) * power(2, 1) == 512) by (nonlinear_arith)
            requires
                power(4, 4) == 256,
                power(2, 1) == 2,
        ;
        assert(scale_spec(stage).num == 625u32 && scale_spec(stage).den == 512u32);
    } else {
        assert(grow_steps(stage) == 4 && shrink_steps(stage) == 2);
        assert(power(4, 4) * power(2, 2) == 1024) by (nonlinear_arith)
            requires
                power(4, 4) == 256,
                power(2, 2) == 4,
        ;
        assert(scale_spec(stage).num == 625u32 && scale_spec(stage).den == 1024u32);
    }
}

/// The scale of every explosion stage, in stage order.
pub fn explosion_scales() -> (r: Vec<ScaleRatio>)
    ensures
        r@.len() == EXPLOSION_STAGE_COUNT,
        forall|k: int| 0 <= k < EXPLOSION_STAGE_COUNT ==> #[trigger] r@[k] == scale_spec(k as u8),
{
    let mut r: Vec<ScaleRatio> = Vec::new();
    let mut k: u8 = 0;
    while k < EXPLOSION_STAGE_COUNT
        invariant
            k <= EXPLOSION_STAGE_COUNT,
            r@.len() == k,
            forall|m: int| 0 <= m < k ==> #[trigger] r@[m] == scale_spec(m as u8),
        decreases EXPLOSION_STAGE_COUNT - k,
    {
        r.push(explosion_scale(k));
        k = k + 1;
    }
    r
}

/// Law: an explosion grows by the factor 5/4 from each stage to the next
/// through its growing stages, then halves from stage to stage, and keeps
/// its last size past its last stage.
pub proof fn law_scale_grows_then_halves(stage: u8)
    ensures
        stage + 1 < EXPLOSION_GROW_STAGES ==> scale_spec((stage + 1) as u8).num == scale_spec(stage).num * 5
            && scale_spec((stage + 1) as u8).den == scale_spec(stage).den * 4,
        EXPLOSION_GROW_STAGES <= stage + 1 < EXPLOSION_STAGE_COUNT ==> scale_spec((stage + 1) as u8).num
            == scale_spec(stage).num && scale_spec((stage + 1) as u8).den == scale_spec(stage).den * 2,
        stage >= EXPLOSION_STAGE_COUNT ==> scale_spec(stage) == scale_spec((EXPLOSION_STAGE_COUNT - 1) as u8),
        scale_spec(0) == (ScaleRatio { num: 1, den: 1 }),
{
    lemma_scale_table(stage);
    lemma_scale_table((stage + 1) as u8);
    lemma_scale_table(0);
    lemma_scale_table((EXPLOSION_STAGE_COUNT - 1) as u8);
}

/// Law: the sprite tables agree with each other. Each explosion stage has
/// its own sprite id, the base id plus the stage, sized as a blast of that
/// stage and drawn from the explosion image; the foes' four frames are sized
/// as characters, the castle as the castle, the two weapons as weapons, and
/// the two projectiles as projectiles.
pub proof fn law_sprite_tables(stage: u8)
    ensures
        stage < EXPLOSION_STAGE_COUNT ==> size_class(SPRITE_EXPLOSION_BASE + stage) == SpriteSize::Blast(stage)
            && sprite_path(SPRITE_EXPLOSION_BASE + stage) == "sprites/explosion-sprite.png"@
            && SPRITE_EXPLOSION_BASE + stage < SPRITE_COUNT,
        size_class(SPRITE_TRIGUY_STRIDE as int) == SpriteSize::Character,
        size_class(SPRITE_TRIGUY_STRIKE as int) == SpriteSize::Character,
        size_class(SPRITE_WEDGEGUY_STRIDE as int) == SpriteSize::Character,
        size_class(SPRITE_WEDGEGUY_STRIKE as int) == SpriteSize::Character,
        size_class(SPRITE_CASTLE as int) == SpriteSize::Castle,
        size_class(SPRITE_CANNON as int) == SpriteSize::Weapon,
        size_class(SPRITE_CROSSBOW as int) == SpriteSize::Weapon,
        size_class(SPRITE_ARROW as int) == SpriteSize::Projectile,
        size_class(SPRITE_CANNONBALL as int) == SpriteSize::Projectile,
        BASE_SPRITE_COUNT + EXPLOSION_STAGE_COUNT == SPRITE_COUNT,
{
}

} // verus!
