use vstd::prelude::*;

verus! {

/// A real-mode segment:offset pointer.
#[derive(Clone, Copy, Debug, PartialEq, Eq, Structural)]
pub struct farptr {
    pub ofs: u16,
    pub seg: u16,
}

impl farptr {
    /// The linear address `seg * 16 + ofs`.
    pub fn flatptr(&self) -> (r: isize)
        ensures
            r == self.seg * 16 + self.ofs,
    {
        let seg = self.seg as isize;
        assert(seg << 4 == seg * 16) by (bit_vector)
            requires
                0 <= seg < 0x10000,
        ;
        (seg << 4) + self.ofs as isize
    }
}

/// The header of a picture file: pointers to its parts and their counts.
#[derive(Clone, Copy, Debug)]
pub struct picfiletype {
    pub charptr: farptr,
    pub tileptr: farptr,
    pub picptr: farptr,
    pub spriteptr: farptr,
    pub pictableptr: farptr,
    pub spritetableptr: farptr,
    pub plane: [farptr; 4],
    pub numchars: i16,
    pub numtiles: i16,
    pub numpics: i16,
    pub numsprites: i16,
}

} // verus!
