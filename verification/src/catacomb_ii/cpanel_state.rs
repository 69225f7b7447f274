use vstd::prelude::*;

use crate::catacomb_ii::gr_type::grtype;
use crate::catacomb_ii::input_type::inputtype;
use crate::catacomb_ii::pic_type::pictype;
use crate::catacomb_ii::sound_type::soundtype;
use crate::catacomb_ii::sprite_type::spritetype;

verus! {

/// The control panel's working state and the loaded picture tables.
pub struct CpanelState {
    pub spotok: [[bool; 5]; 4],
    pub row: i32,
    pub collumn: i32,
    pub oldgrmode: grtype,
    pub newgrmode: grtype,
    pub oldsoundmode: soundtype,
    pub newsoundmode: soundtype,
    pub oldplayermode: [inputtype; 3],
    pub newplayermode: [inputtype; 3],
    pub joy1ok: bool,
    pub joy2ok: bool,
    pub mouseok: bool,
    pub egaplane: [u32; 4],
    pub image: spritetype,
    pub spritetable: [spritetype; 10],
    pub numchars: i32,
    pub numtiles: i32,
    pub numpics: i32,
    pub numsprites: i32,
    pub pictable: [pictype; 64],
}

impl CpanelState {
    /// Builds the state from its fields.
    pub fn new(
        spotok: [[bool; 5]; 4],
        row: i32,
        collumn: i32,
        oldgrmode: grtype,
        newgrmode: grtype,
        oldsoundmode: soundtype,
        newsoundmode: soundtype,
        oldplayermode: [inputtype; 3],
        newplayermode: [inputtype; 3],
        joy1ok: bool,
        joy2ok: bool,
        mouseok: bool,
        egaplane: [u32; 4],
        image: spritetype,
        spritetable: [spritetype; 10],
        numchars: i32,
        numtiles: i32,
        numpics: i32,
        numsprites: i32,
        pictable: [pictype; 64],
    ) -> (r: Self)
        ensures
            r.spotok == spotok,
            r.row == row,
            r.collumn == collumn,
            r.oldgrmode == oldgrmode,
            r.newgrmode == newgrmode,
            r.oldsoundmode == oldsoundmode,
            r.newsoundmode == newsoundmode,
            r.oldplayermode == oldplayermode,
            r.newplayermode == newplayermode,
            r.joy1ok == joy1ok,
            r.joy2ok == joy2ok,
            r.mouseok == mouseok,
            r.egaplane == egaplane,
            r.image == image,
            r.spritetable == spritetable,
            r.numchars == numchars,
            r.numtiles == numtiles,
            r.numpics == numpics,
            r.numsprites == numsprites,
            r.pictable == pictable,
    {
        Self {
            spotok,
            row,
            collumn,
            oldgrmode,
            newgrmode,
            oldsoundmode,
            newsoundmode,
            oldplayermode,
            newplayermode,
            joy1ok,
            joy2ok,
            mouseok,
            egaplane,
            image,
            spritetable,
            numchars,
            numtiles,
            numpics,
            numsprites,
            pictable,
        }
    }

    /// Everything zero, false, text mode, sound off and keyboard control.
    pub fn default() -> (r: Self)
        ensures
            forall|i: int, j: int| 0 <= i < 4 && 0 <= j < 5 ==> !r.spotok[i][j],
            r.row == 0 && r.collumn == 0,
            r.oldgrmode == grtype::text && r.newgrmode == grtype::text,
            r.oldsoundmode == soundtype::off && r.newsoundmode == soundtype::off,
            forall|i: int|
                0 <= i < 3 ==> r.oldplayermode[i] == inputtype::keyboard && r.newplayermode[i]
                    == inputtype::keyboard,
            !r.joy1ok && !r.joy2ok && !r.mouseok,
            forall|i: int| 0 <= i < 4 ==> r.egaplane[i] == 0,
            r.image.is_zero(),
            forall|i: int| 0 <= i < 10 ==> #[trigger] r.spritetable[i].is_zero(),
            r.numchars == 0 && r.numtiles == 0 && r.numpics == 0 && r.numsprites == 0,
            forall|i: int| 0 <= i < 64 ==> #[trigger] r.pictable[i].is_zero(),
    {
        let image = spritetype::zeroed();
        let spritetable = [image; 10];
        let pic = pictype::zeroed();
        let pictable = [pic; 64];
        Self::new(
            [[false; 5]; 4],
            0,
            0,
            grtype::text,
            grtype::text,
            soundtype::off,
            soundtype::off,
            [inputtype::keyboard; 3],
            [inputtype::keyboard; 3],
            false,
            false,
            false,
            [0; 4],
            image,
            spritetable,
            0,
            0,
            0,
            0,
            pictable,
        )
    }
}

} // verus!
