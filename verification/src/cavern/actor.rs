use vstd::prelude::*;

verus! {

/// Which point of its image an actor's position refers to.
#[derive(Clone, Copy, Debug, PartialEq, Eq, Structural)]
pub enum Anchor {
    Centre,
    CentreBottom,
}

/// An image as the game logic sees it: which texture, and its size in
/// pixels.
#[derive(Clone, Copy, Debug, PartialEq, Eq, Structural)]
pub struct Image {
    pub texture: u32,
    pub width: i32,
    pub height: i32,
}

/// The largest coordinate or image size for which the geometry is computed.
pub const COORD_LIMIT: i32 = 0x1000_0000;

/// A position and image whose geometry stays within machine integers.
pub open spec fn geometry_ok(x: i32, y: i32, image: Image) -> bool {
    &&& -COORD_LIMIT <= x <= COORD_LIMIT
    &&& -COORD_LIMIT <= y <= COORD_LIMIT
    &&& 0 <= image.width <= COORD_LIMIT
    &&& 0 <= image.height <= COORD_LIMIT
}

/// The top-left corner of an image drawn with `anchor` at (x, y).
pub open spec fn top_left(anchor: Anchor, x: i32, y: i32, image: Image) -> (int, int) {
    match anchor {
        Anchor::Centre => (x - image.width / 2, y - image.height / 2),
        Anchor::CentreBottom => (x - image.width / 2, y - image.height),
    }
}

/// Whether (px, py) lies on the rectangle of an image drawn with `anchor`
/// at (x, y), edges included.
pub open spec fn covers(anchor: Anchor, x: i32, y: i32, image: Image, px: int, py: int) -> bool {
    let tl = top_left(anchor, x, y, image);
    tl.0 <= px <= tl.0 + image.width && tl.1 <= py <= tl.1 + image.height
}

/// The centre of an image drawn with `anchor` at (x, y).
pub open spec fn center_of(anchor: Anchor, x: i32, y: i32, image: Image) -> (int, int) {
    let tl = top_left(anchor, x, y, image);
    (tl.0 + image.width / 2, tl.1 + image.height / 2)
}

/// The top-left corner of an image drawn with `anchor` at (x, y).
pub fn top_left_pos(anchor: Anchor, x: i32, y: i32, image: &Image) -> (r: (i32, i32))
    requires
        geometry_ok(x, y, *image),
    ensures
        r.0 == top_left(anchor, x, y, *image).0,
        r.1 == top_left(anchor, x, y, *image).1,
{
    let (image_width, image_height) = (image.width, image.height);
    let (diff_x, diff_y) = match anchor {
        Anchor::Centre => (image_width / 2, image_height / 2),
        Anchor::CentreBottom => (image_width / 2, image_height),
    };
    (x - diff_x, y - diff_y)
}

/// Something drawn at a position with an image and an anchor.
pub trait Actor: Sized {
    spec fn pos_x(&self) -> i32;

    spec fn pos_y(&self) -> i32;

    spec fn spec_image(&self) -> Image;

    spec fn spec_anchor(&self) -> Anchor;

    /// The same actor moved to (x, y).
    spec fn at_pos(&self, x: i32, y: i32) -> Self;

    /// Moving changes the position and nothing that the other spec
    /// functions see; moving to where the actor is changes nothing; of two
    /// moves only the last counts.
    proof fn lemma_at_pos(&self, x: i32, y: i32, x2: i32, y2: i32)
        ensures
            self.at_pos(x, y).pos_x() == x,
            self.at_pos(x, y).pos_y() == y,
            self.at_pos(x, y).spec_image() == self.spec_image(),
            self.at_pos(x, y).spec_anchor() == self.spec_anchor(),
            self.at_pos(self.pos_x(), self.pos_y()) == *self,
            self.at_pos(x, y).at_pos(x2, y2) == self.at_pos(x2, y2),
    ;

    fn x(&self) -> (r: i32)
        ensures
            r == self.pos_x(),
    ;

    fn set_x(&mut self, v: i32)
        ensures
            *final(self) == old(self).at_pos(v, old(self).pos_y()),
    ;

    fn y(&self) -> (r: i32)
        ensures
            r == self.pos_y(),
    ;

    fn set_y(&mut self, v: i32)
        ensures
            *final(self) == old(self).at_pos(old(self).pos_x(), v),
    ;

    fn image(&self) -> (r: Image)
        ensures
            r == self.spec_image(),
    ;

    fn anchor(&self) -> (r: Anchor)
        ensures
            r == self.spec_anchor(),
    ;

    /// The y coordinate of the image's top edge.
    fn top(&self) -> (r: i32)
        requires
            geometry_ok(self.pos_x(), self.pos_y(), self.spec_image()),
        ensures
            r == top_left(self.spec_anchor(), self.pos_x(), self.pos_y(), self.spec_image()).1,
    {
        let image = self.image();
        let p = top_left_pos(self.anchor(), self.x(), self.y(), &image);
        p.1
    }

    /// The y coordinate of the image's bottom edge.
    fn bottom(&self) -> (r: i32)
        requires
            geometry_ok(self.pos_x(), self.pos_y(), self.spec_image()),
        ensures
            r == top_left(self.spec_anchor(), self.pos_x(), self.pos_y(), self.spec_image()).1
                + self.spec_image().height,
    {
        self.top() + self.image().height
    }

    /// The x coordinate of the image's left edge.
    fn left(&self) -> (r: i32)
        requires
            geometry_ok(self.pos_x(), self.pos_y(), self.spec_image()),
        ensures
            r == top_left(self.spec_anchor(), self.pos_x(), self.pos_y(), self.spec_image()).0,
    {
        let image = self.image();
        let p = top_left_pos(self.anchor(), self.x(), self.y(), &image);
        p.0
    }

    /// The x coordinate of the image's right edge.
    fn right(&self) -> (r: i32)
        requires
            geometry_ok(self.pos_x(), self.pos_y(), self.spec_image()),
        ensures
            r == top_left(self.spec_anchor(), self.pos_x(), self.pos_y(), self.spec_image()).0
                + self.spec_image().width,
    {
        self.left() + self.image().width
    }

    /// The centre of the image.
    fn center(&self) -> (r: (i32, i32))
        requires
            geometry_ok(self.pos_x(), self.pos_y(), self.spec_image()),
        ensures
            r.0 == center_of(self.spec_anchor(), self.pos_x(), self.pos_y(), self.spec_image()).0,
            r.1 == center_of(self.spec_anchor(), self.pos_x(), self.pos_y(), self.spec_image()).1,
    {
        let center_x = self.left() + self.image().width / 2;
        let center_y = self.top() + self.image().height / 2;
        (center_x, center_y)
    }

    /// Whether `pos` lies within the image's rectangle (edges included).
    fn collidepoint(&self, pos: (i32, i32)) -> (r: bool)
        requires
            geometry_ok(self.pos_x(), self.pos_y(), self.spec_image()),
        ensures
            r == covers(
                self.spec_anchor(),
                self.pos_x(),
                self.pos_y(),
                self.spec_image(),
                pos.0 as int,
                pos.1 as int,
            ),
    {
        self.left() <= pos.0 && pos.0 <= self.right() && self.top() <= pos.1 && pos.1
            <= self.bottom()
    }
}

} // verus!
