use vstd::prelude::*;

verus! {

/// A sprite table entry of a graphics file.
#[derive(Clone, Copy, Debug)]
pub struct spritetype {
    pub width: i16,
    pub height: i16,
    pub shapeptr: u32,
    pub maskptr: u32,
    pub xl: i16,
    pub yl: i16,
    pub xh: i16,
    pub yh: i16,
    pub name: [i8; 12],
}

impl spritetype {
    /// Whether every field of the entry is zero.
    pub open spec fn is_zero(self) -> bool {
        &&& self.width == 0 && self.height == 0 && self.shapeptr == 0 && self.maskptr == 0
        &&& self.xl == 0 && self.yl == 0 && self.xh == 0 && self.yh == 0
        &&& forall|i: int| 0 <= i < 12 ==> self.name[i] == 0
    }

    /// The all-zero entry.
    pub fn zeroed() -> (r: spritetype)
        ensures
            r.width == 0 && r.height == 0 && r.shapeptr == 0 && r.maskptr == 0,
            r.xl == 0 && r.yl == 0 && r.xh == 0 && r.yh == 0,
            forall|i: int| 0 <= i < 12 ==> r.name[i] == 0,
            r.is_zero(),
    {
        spritetype {
            width: 0,
            height: 0,
            shapeptr: 0,
            maskptr: 0,
            xl: 0,
            yl: 0,
            xh: 0,
            yh: 0,
            name: [0; 12],
        }
    }
}

} // verus!
