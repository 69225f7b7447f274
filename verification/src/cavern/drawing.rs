use vstd::prelude::*;

use crate::cavern::WIDTH;
use crate::int_math::div_trunc;

verus! {

/// The widths of the letters A to Z in the font images.
pub const CHAR_WIDTH: [i32; 26] = [
    27, 26, 25, 26, 25, 25, 26, 25, 12, 26, 26, 25, 33, 25, 26, 25, 27, 26, 26, 25, 26, 26, 38, 25,
    25, 25,
];

/// The width of a character of the game's font: its own for the letters A
/// to Z, that of A for the other characters (space and digits).
pub open spec fn char_w(chr: u8) -> int {
    if chr < 65 {
        CHAR_WIDTH@[0] as int
    } else {
        CHAR_WIDTH@[chr - 65] as int
    }
}

/// The width of the given character (see `char_w`).
pub fn char_width(chr: &u8) -> (r: i32)
    requires
        *chr <= 90,
    ensures
        r == char_w(*chr),
{
    let index = if *chr < 65 {
        0
    } else {
        *chr - 65
    } as usize;
    CHAR_WIDTH[index]
}

/// The longest text whose width is computed.
pub const MAX_TEXT_LEN: usize = 0x10_0000;

/// A text that the font can draw: characters up to Z, not too long.
pub open spec fn text_ok(text: Seq<u8>) -> bool {
    &&& text.len() <= MAX_TEXT_LEN
    &&& forall|i: int| 0 <= i < text.len() ==> #[trigger] text[i] <= 90
}

/// The total width of a text.
pub open spec fn text_w(text: Seq<u8>) -> int
    decreases text.len(),
{
    if text.len() == 0 {
        0
    } else {
        text_w(text.drop_last()) + char_w(text.last())
    }
}

/// The width of a text is at most 38 pixels per character.
pub proof fn lemma_text_w_bounds(text: Seq<u8>)
    requires
        forall|i: int| 0 <= i < text.len() ==> #[trigger] text[i] <= 90,
    ensures
        0 <= text_w(text) <= 38 * text.len(),
    decreases text.len(),
{
    if text.len() > 0 {
        let c = text.last();
        assert forall|i: int| 0 <= i < text.drop_last().len() implies #[trigger] text.drop_last()[i]
            <= 90 by {
            assert(text.drop_last()[i] == text[i]);
        }
        lemma_text_w_bounds(text.drop_last());
        assert(text[text.len() - 1] <= 90);
        assert(CHAR_WIDTH@ =~= seq![
            27i32, 26, 25, 26, 25, 25, 26, 25, 12, 26, 26, 25, 33, 25, 26, 25, 27, 26, 26, 25, 26,
            26, 38, 25, 25, 25,
        ]);
    }
}

/// The total width of a text (see `text_w`).
pub fn text_width(text: &[u8]) -> (r: i32)
    requires
        text_ok(text@),
    ensures
        r == text_w(text@),
{
    let mut sum: i32 = 0;
    let mut i: usize = 0;
    while i < text.len()
        invariant
            i <= text.len(),
            text_ok(text@),
            sum == text_w(text@.take(i as int)),
        decreases text.len() - i,
    {
        proof {
            lemma_text_w_bounds(text@.take(i as int));
            assert(text@.take(i as int + 1).drop_last() =~= text@.take(i as int));
        }
        sum = sum + char_width(&text[i]);
        i += 1;
    }
    assert(text@.take(text.len() as int) =~= text@);
    sum
}

/// Where a text starts: at `x` when given, else centred on the screen.
pub open spec fn text_start(text: Seq<u8>, x: Option<i32>) -> int {
    match x {
        Some(v) => v as int,
        None => div_trunc(WIDTH - text_w(text), 2),
    }
}

/// The x of each character of a text drawn from `text_start`: each one
/// follows the previous one by that one's width.
pub fn text_positions(text: &[u8], x: Option<i32>) -> (r: Vec<i32>)
    requires
        text_ok(text@),
        x matches Some(v) ==> i32::MIN <= v && v + 38 * text@.len() <= i32::MAX,
    ensures
        r@.len() == text@.len(),
        forall|i: int|
            0 <= i < text@.len() ==> #[trigger] r@[i] == text_start(text@, x) + text_w(
                text@.take(i),
            ),
{
    proof {
        lemma_text_w_bounds(text@);
    }
    let start = match x {
        Some(v) => v,
        None => (WIDTH - text_width(text)) / 2,
    };
    let mut positions: Vec<i32> = Vec::new();
    let mut cur = start;
    let mut i: usize = 0;
    while i < text.len()
        invariant
            i <= text.len(),
            text_ok(text@),
            start == text_start(text@, x),
            x matches Some(v) ==> i32::MIN <= v && v + 38 * text@.len() <= i32::MAX,
            0 <= text_w(text@) <= 38 * text@.len(),
            cur == start + text_w(text@.take(i as int)),
            positions@.len() == i,
            forall|k: int|
                0 <= k < i ==> #[trigger] positions@[k] == start + text_w(text@.take(k)),
        decreases text.len() - i,
    {
        proof {
            lemma_text_w_bounds(text@.take(i as int + 1));
            assert(text@.take(i as int + 1).drop_last() =~= text@.take(i as int));
        }
        positions.push(cur);
        cur = cur + char_width(&text[i]);
        i += 1;
    }
    positions
}

/// The status icons drawn at the bottom of the screen.
#[derive(Clone, Copy, Debug, PartialEq, Eq, Structural)]
pub enum StatusIcon {
    Life,
    Plus,
    Health,
}

/// The width of a status icon's image.
pub open spec fn icon_w(icon: StatusIcon) -> int {
    match icon {
        StatusIcon::Life => 44,
        StatusIcon::Plus => 40,
        StatusIcon::Health => 40,
    }
}

/// The width of a status icon's image (see `icon_w`).
pub fn image_width(icon: StatusIcon) -> (r: i32)
    ensures
        r == icon_w(icon),
{
    match icon {
        StatusIcon::Life => 44,
        StatusIcon::Plus => 40,
        StatusIcon::Health => 40,
    }
}

/// The total width of a row of status icons.
pub open spec fn icons_w(icons: Seq<StatusIcon>) -> int
    decreases icons.len(),
{
    if icons.len() == 0 {
        0
    } else {
        icons_w(icons.drop_last()) + icon_w(icons.last())
    }
}

/// The width of a row of icons is at most 44 pixels per icon.
pub proof fn lemma_icons_w_bounds(icons: Seq<StatusIcon>)
    ensures
        0 <= icons_w(icons) <= 44 * icons.len(),
    decreases icons.len(),
{
    if icons.len() > 0 {
        lemma_icons_w_bounds(icons.drop_last());
    }
}

/// The longest row of status icons that is laid out.
pub const MAX_ICONS: usize = 0x10_0000;

/// The x of each icon of a row drawn from the left edge: each one follows
/// the previous one by that one's width.
pub fn icon_positions(icons: &[StatusIcon]) -> (r: Vec<i32>)
    requires
        icons@.len() <= MAX_ICONS,
    ensures
        r@.len() == icons@.len(),
        forall|i: int| 0 <= i < icons@.len() ==> #[trigger] r@[i] == icons_w(icons@.take(i)),
{
    let mut positions: Vec<i32> = Vec::new();
    let mut x: i32 = 0;
    let mut i: usize = 0;
    while i < icons.len()
        invariant
            i <= icons.len(),
            icons@.len() <= MAX_ICONS,
            x == icons_w(icons@.take(i as int)),
            positions@.len() == i,
            forall|k: int| 0 <= k < i ==> #[trigger] positions@[k] == icons_w(icons@.take(k)),
        decreases icons.len() - i,
    {
        proof {
            lemma_icons_w_bounds(icons@.take(i as int + 1));
            assert(icons@.take(i as int + 1).drop_last() =~= icons@.take(i as int));
        }
        positions.push(x);
        x = x + image_width(icons[i]);
        i += 1;
    }
    positions
}

} // verus!
