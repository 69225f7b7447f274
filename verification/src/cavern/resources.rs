use vstd::prelude::*;

use crate::cavern::actor::{Image, COORD_LIMIT};

verus! {

/// The images that the game logic picks from, each standing for a loaded
/// texture (its number in the drawing layer's table, and its size).
pub struct Resources {
    pub blank_texture: Image,
    pub space_textures: Vec<Image>,
    pub orb_textures: Vec<Image>,
    pub trap_textures: Vec<Image>,
    pub bolt_textures: Vec<Image>,
    pub pop_textures: Vec<Image>,
    pub fruit_textures: Vec<Image>,
}

/// The number of "press space" animation frames.
pub const SPACE_FRAMES: usize = 10;
/// The number of orb animation frames.
pub const ORB_FRAMES: usize = 7;
/// The number of trapped-enemy frames: 8 for each robot type.
pub const TRAP_FRAMES: usize = 16;
/// The number of bolt frames: 2 for each direction.
pub const BOLT_FRAMES: usize = 4;
/// The number of pop frames: 7 for each pop type.
pub const POP_FRAMES: usize = 14;
/// The number of fruit frames: 3 for each fruit type.
pub const FRUIT_FRAMES: usize = 15;

/// An image whose size the geometry can work with.
pub open spec fn image_ok(image: Image) -> bool {
    0 <= image.width <= COORD_LIMIT && 0 <= image.height <= COORD_LIMIT
}

/// Every image of a list can be used by the geometry.
pub open spec fn images_ok(images: Seq<Image>) -> bool {
    forall|i: int| 0 <= i < images.len() ==> #[trigger] image_ok(images[i])
}

/// All the animation lists are complete and all images usable.
pub open spec fn resources_ok(r: &Resources) -> bool {
    &&& image_ok(r.blank_texture)
    &&& r.space_textures@.len() == SPACE_FRAMES && images_ok(r.space_textures@)
    &&& r.orb_textures@.len() == ORB_FRAMES && images_ok(r.orb_textures@)
    &&& r.trap_textures@.len() == TRAP_FRAMES && images_ok(r.trap_textures@)
    &&& r.bolt_textures@.len() == BOLT_FRAMES && images_ok(r.bolt_textures@)
    &&& r.pop_textures@.len() == POP_FRAMES && images_ok(r.pop_textures@)
    &&& r.fruit_textures@.len() == FRUIT_FRAMES && images_ok(r.fruit_textures@)
}

} // verus!
