use king_of_the_hill::board::{Board, Foe, ARROW_POOL_SIZE, EXPLOSION_STAGE_COUNT};
use king_of_the_hill::render::{pack_rows, Piece, Pose, RenderItem, MAX_ENTITIES, RENDER_STRIDE};
use king_of_the_hill::sprites::{
    explosion_scale, explosion_scales, explosion_sprite, explosion_sprite_base, foe_sprite,
    sprite_paths, sprite_size_plan, value_or, ScaleRatio, SpriteSize, SPRITE_COUNT,
};

#[test]
fn sprite_paths_list_every_sprite() {
    let paths = sprite_paths();
    assert_eq!(paths.len(), SPRITE_COUNT);
    assert_eq!(paths[0], "sprites/retro-triguy-stride1-sprite.png");
    assert_eq!(paths[3], "sprites/retro-wedgeguy-strike-sprite.png");
    assert_eq!(paths[4], "sprites/retro-castle-sprite.png");
    assert_eq!(paths[8], "sprites/retro-cannonball-sprite.png");
    for p in &paths[9..] {
        assert_eq!(p, "sprites/explosion-sprite.png");
    }
}

#[test]
fn explosion_sprites_follow_base() {
    assert_eq!(explosion_sprite_base(), 9);
    assert_eq!(explosion_sprite(0), 9);
    assert_eq!(explosion_sprite(6), 15);
    assert_eq!(foe_sprite(Foe::Triguy, true), 0);
    assert_eq!(foe_sprite(Foe::Triguy, false), 1);
    assert_eq!(foe_sprite(Foe::Wedgeguy, true), 2);
    assert_eq!(foe_sprite(Foe::Wedgeguy, false), 3);
}

#[test]
fn explosion_scale_grows_then_halves() {
    assert_eq!(explosion_scale(0), ScaleRatio { num: 1, den: 1 });
    assert_eq!(explosion_scale(1), ScaleRatio { num: 5, den: 4 });
    assert_eq!(explosion_scale(4), ScaleRatio { num: 625, den: 256 });
    assert_eq!(explosion_scale(5), ScaleRatio { num: 625, den: 512 });
    assert_eq!(explosion_scale(6), ScaleRatio { num: 625, den: 1024 });
    assert_eq!(explosion_scale(200), ScaleRatio { num: 625, den: 1024 });
    let scales = explosion_scales();
    assert_eq!(scales.len(), EXPLOSION_STAGE_COUNT as usize);
    let as_f32: Vec<f32> = scales.iter().map(|r| r.num as f32 / r.den as f32).collect();
    for stage in 0..5 {
        assert_eq!(as_f32[stage], 1.25_f32.powi(stage as i32));
    }
    assert_eq!(as_f32[5], 1.25_f32.powi(4) * 0.5);
    assert_eq!(as_f32[6], 1.25_f32.powi(4) * 0.25);
}

#[test]
fn sprite_sizes_by_class() {
    let plan = sprite_size_plan();
    assert_eq!(plan.len(), SPRITE_COUNT);
    for id in 0..4 {
        assert_eq!(plan[id], SpriteSize::Character);
    }
    assert_eq!(plan[4], SpriteSize::Castle);
    assert_eq!(plan[5], SpriteSize::Weapon);
    assert_eq!(plan[6], SpriteSize::Weapon);
    assert_eq!(plan[7], SpriteSize::Projectile);
    assert_eq!(plan[8], SpriteSize::Projectile);
    for stage in 0..7u8 {
        assert_eq!(plan[9 + stage as usize], SpriteSize::Blast(stage));
    }
}

#[test]
fn height_lookup_falls_back_past_the_end() {
    let heights = vec![1.5_f32, 2.5];
    assert_eq!(value_or(&heights, 1, 0.0), 2.5);
    assert_eq!(value_or(&heights, 2, 0.0), 0.0);
    assert_eq!(value_or(&Vec::<f32>::new(), 0, 7.0), 7.0);
}

#[test]
fn render_plan_order_and_poses() {
    let mut b = Board::new();
    let plan = b.render_plan();
    assert_eq!(plan.len(), MAX_ENTITIES);
    assert_eq!(MAX_ENTITIES, 21);
    assert_eq!(plan[0], RenderItem { piece: Piece::Castle, pose: Pose::Upright });
    assert_eq!(plan[2].piece, Piece::Crossbow);
    // Idle arrows are drawn with no rotation and no alpha; idle cannonballs upright.
    assert_eq!(plan[3], RenderItem { piece: Piece::Arrow(0), pose: Pose::Hidden });
    assert_eq!(plan[3 + ARROW_POOL_SIZE], RenderItem { piece: Piece::Cannonball(0), pose: Pose::Upright });
    assert_eq!(plan[13].piece, Piece::Explosion(0));
    assert_eq!(plan[19].piece, Piece::Foe(Foe::Triguy));
    assert_eq!(plan[20].piece, Piece::Foe(Foe::Wedgeguy));

    b.fire(true, true, true, true);
    b.fire(true, false, true, true);
    let plan = b.render_plan();
    assert_eq!(plan[3].pose, Pose::Heading);
    assert_eq!(plan[3 + ARROW_POOL_SIZE].pose, Pose::Heading);
    b.advance_arrow(0, true, false);
    assert_eq!(b.render_plan()[3].pose, Pose::Resting);
}

#[test]
fn packed_rows_have_stride_six() {
    let rows: Vec<[f32; RENDER_STRIDE]> = (0..MAX_ENTITIES)
        .map(|i| {
            let x = i as f32;
            [x, x + 0.1, x + 0.2, x + 0.3, x + 0.4, x + 0.5]
        })
        .collect();
    let flat = pack_rows(&rows);
    assert_eq!(flat.len(), MAX_ENTITIES * 6);
    assert_eq!(flat.len() % 6, 0);
    for i in 0..MAX_ENTITIES {
        for c in 0..RENDER_STRIDE {
            assert_eq!(flat[i * RENDER_STRIDE + c], rows[i][c]);
        }
    }
    assert!(pack_rows::<u8>(&Vec::new()).is_empty());
}
