//! The rules of a small castle-defence arcade game: the crossbow and the
//! cannon fire from pools of projectiles, cannonballs burst into animated
//! explosions, two foes walk up to the wall and wear it down, and every foe
//! that a projectile or an explosion reaches is knocked out for a point.
pub mod board;
pub mod strike;
pub mod sprites;
pub mod render;
