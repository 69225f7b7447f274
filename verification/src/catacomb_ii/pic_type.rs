use vstd::prelude::*;

verus! {

/// A picture table entry: width (in bytes of one plane), height (in pixel
/// rows) and offset of the picture data.
#[derive(Clone, Copy, Debug)]
pub struct pictype {
    pub width: i16,
    pub height: i16,
    pub shapeptr: u32,
    pub name: [i8; 8],
}

impl pictype {
    /// Whether every field of the entry is zero.
    pub open spec fn is_zero(self) -> bool {
        &&& self.width == 0 && self.height == 0 && self.shapeptr == 0
        &&& forall|i: int| 0 <= i < 8 ==> self.name[i] == 0
    }

    /// The all-zero entry.
    pub fn zeroed() -> (r: pictype)
        ensures
            r.width == 0 && r.height == 0 && r.shapeptr == 0,
            forall|i: int| 0 <= i < 8 ==> r.name[i] == 0,
            r.is_zero(),
    {
        pictype { width: 0, height: 0, shapeptr: 0, name: [0; 8] }
    }
}

} // verus!
