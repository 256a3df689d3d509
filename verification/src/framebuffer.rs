//! What the display shows: a frame of pixels, and text drawn into it.

use vstd::prelude::*;

use crate::split::views;
use crate::text::{chars_of, to_upper, upper};

verus! {

/// The width of the display, in pixels.
pub const WIDTH: usize = 128;

/// The height of the display, in pixels.
pub const HEIGHT: usize = 32;

/// The number of bytes in a frame.
pub const FRAMEBUFFER_SIZE: usize = 512;

/// Whether a bit of a byte is set, where bit zero is the lowest.
pub open spec fn bit(byte: u8, k: u8) -> bool {
    byte & (1u8 << k) != 0
}

/// Whether a place is on the display.
pub open spec fn on_display(p: (int, int)) -> bool {
    0 <= p.0 < WIDTH && 0 <= p.1 < HEIGHT
}

/// A frame in the layout of the display: a byte holds eight pixels of a column,
/// the uppermost in its lowest bit, and a row of bytes spans the width.
#[derive(Debug, Clone, PartialEq, Eq)]
pub struct Framebuffer {
    pub bytes: Vec<u8>,
}

impl Framebuffer {
    /// Whether the frame has the size of the display.
    pub open spec fn complete(self) -> bool {
        self.bytes@.len() == FRAMEBUFFER_SIZE
    }

    /// Whether the pixel at a place is lit.
    pub open spec fn lit(self, p: (int, int)) -> bool {
        on_display(p) && bit(self.bytes@[p.0 + p.1 / 8 * 128], (p.1 % 8) as u8)
    }
}

impl View for Framebuffer {
    type V = Set<(int, int)>;

    /// The places that are lit.
    open spec fn view(&self) -> Set<(int, int)> {
        Set::new(|p: (int, int)| self.lit(p))
    }
}

fn blank_bytes() -> (r: Vec<u8>)
    ensures
        r@.len() == FRAMEBUFFER_SIZE,
        forall|i: int| 0 <= i < FRAMEBUFFER_SIZE ==> r@[i] == 0,
{
    let mut bytes: Vec<u8> = Vec::new();
    for i in 0..FRAMEBUFFER_SIZE
        invariant
            bytes@.len() == i,
            forall|k: int| 0 <= k < i ==> bytes@[k] == 0,
    {
        bytes.push(0);
    }
    bytes
}

proof fn lemma_blank(frame: Framebuffer)
    requires
        frame.complete(),
        forall|i: int| 0 <= i < FRAMEBUFFER_SIZE ==> frame.bytes@[i] == 0,
    ensures
        frame@ == Set::<(int, int)>::empty(),
{
    assert forall|p: (int, int)| !frame.lit(p) by {
        let k = (p.1 % 8) as u8;
        assert(0u8 & (1u8 << k) == 0) by (bit_vector);
    }
    assert(frame@ =~= Set::<(int, int)>::empty());
}

impl Default for Framebuffer {
    fn default() -> (r: Self)
        ensures
            r.complete(),
            r@ == Set::<(int, int)>::empty(),
    {
        let r = Framebuffer { bytes: blank_bytes() };
        proof {
            lemma_blank(r);
        }
        r
    }
}

/// The columns of a character, from the left; the uppermost pixel of a column is
/// in the lowest bit. A character without a picture of its own has that of a
/// question mark.
pub open spec fn columns(character: char) -> Seq<u8> {
    match character {
        ' ' => seq![0x00u8, 0x00, 0x00, 0x00, 0x00],
        '0' => seq![0x3eu8, 0x51, 0x49, 0x45, 0x3e],
        '1' => seq![0x00u8, 0x42, 0x7f, 0x40, 0x00],
        '2' => seq![0x42u8, 0x61, 0x51, 0x49, 0x46],
        '3' => seq![0x21u8, 0x41, 0x45, 0x4b, 0x31],
        '4' => seq![0x18u8, 0x14, 0x12, 0x7f, 0x10],
        '5' => seq![0x27u8, 0x45, 0x45, 0x45, 0x39],
        '6' => seq![0x3cu8, 0x4a, 0x49, 0x49, 0x30],
        '7' => seq![0x01u8, 0x71, 0x09, 0x05, 0x03],
        '8' => seq![0x36u8, 0x49, 0x49, 0x49, 0x36],
        '9' => seq![0x06u8, 0x49, 0x49, 0x29, 0x1e],
        'A' => seq![0x7eu8, 0x11, 0x11, 0x11, 0x7e],
        'B' => seq![0x7fu8, 0x49, 0x49, 0x49, 0x36],
        'C' => seq![0x3eu8, 0x41, 0x41, 0x41, 0x22],
        'D' => seq![0x7fu8, 0x41, 0x41, 0x22, 0x1c],
        'E' => seq![0x7fu8, 0x49, 0x49, 0x49, 0x41],
        'F' => seq![0x7fu8, 0x09, 0x09, 0x09, 0x01],
        'G' => seq![0x3eu8, 0x41, 0x49, 0x49, 0x7a],
        'H' => seq![0x7fu8, 0x08, 0x08, 0x08, 0x7f],
        'I' => seq![0x00u8, 0x41, 0x7f, 0x41, 0x00],
        'J' => seq![0x20u8, 0x40, 0x41, 0x3f, 0x01],
        'K' => seq![0x7fu8, 0x08, 0x14, 0x22, 0x41],
        'L' => seq![0x7fu8, 0x40, 0x40, 0x40, 0x40],
        'M' => seq![0x7fu8, 0x02, 0x0c, 0x02, 0x7f],
        'N' => seq![0x7fu8, 0x04, 0x08, 0x10, 0x7f],
        'O' => seq![0x3eu8, 0x41, 0x41, 0x41, 0x3e],
        'P' => seq![0x7fu8, 0x09, 0x09, 0x09, 0x06],
        'Q' => seq![0x3eu8, 0x41, 0x51, 0x21, 0x5e],
        'R' => seq![0x7fu8, 0x09, 0x19, 0x29, 0x46],
        'S' => seq![0x46u8, 0x49, 0x49, 0x49, 0x31],
        'T' => seq![0x01u8, 0x01, 0x7f, 0x01, 0x01],
        'U' => seq![0x3fu8, 0x40, 0x40, 0x40, 0x3f],
        'V' => seq![0x1fu8, 0x20, 0x40, 0x20, 0x1f],
        'W' => seq![0x3fu8, 0x40, 0x38, 0x40, 0x3f],
        'X' => seq![0x63u8, 0x14, 0x08, 0x14, 0x63],
        'Y' => seq![0x07u8, 0x08, 0x70, 0x08, 0x07],
        'Z' => seq![0x61u8, 0x51, 0x49, 0x45, 0x43],
        '.' => seq![0x00u8, 0x60, 0x60, 0x00, 0x00],
        ':' => seq![0x00u8, 0x36, 0x36, 0x00, 0x00],
        '/' => seq![0x20u8, 0x10, 0x08, 0x04, 0x02],
        '%' => seq![0x23u8, 0x13, 0x08, 0x64, 0x62],
        '-' => seq![0x08u8, 0x08, 0x08, 0x08, 0x08],
        '_' => seq![0x40u8, 0x40, 0x40, 0x40, 0x40],
        _ => seq![0x02u8, 0x01, 0x51, 0x09, 0x06],
    }
}

/// Gives the columns of a character.
pub fn glyph(character: char) -> (r: [u8; 5])
    ensures
        r@ == columns(character),
{
    let r: [u8; 5] = match character {
        ' ' => [0x00, 0x00, 0x00, 0x00, 0x00],
        '0' => [0x3e, 0x51, 0x49, 0x45, 0x3e],
        '1' => [0x00, 0x42, 0x7f, 0x40, 0x00],
        '2' => [0x42, 0x61, 0x51, 0x49, 0x46],
        '3' => [0x21, 0x41, 0x45, 0x4b, 0x31],
        '4' => [0x18, 0x14, 0x12, 0x7f, 0x10],
        '5' => [0x27, 0x45, 0x45, 0x45, 0x39],
        '6' => [0x3c, 0x4a, 0x49, 0x49, 0x30],
        '7' => [0x01, 0x71, 0x09, 0x05, 0x03],
        '8' => [0x36, 0x49, 0x49, 0x49, 0x36],
        '9' => [0x06, 0x49, 0x49, 0x29, 0x1e],
        'A' => [0x7e, 0x11, 0x11, 0x11, 0x7e],
        'B' => [0x7f, 0x49, 0x49, 0x49, 0x36],
        'C' => [0x3e, 0x41, 0x41, 0x41, 0x22],
        'D' => [0x7f, 0x41, 0x41, 0x22, 0x1c],
        'E' => [0x7f, 0x49, 0x49, 0x49, 0x41],
        'F' => [0x7f, 0x09, 0x09, 0x09, 0x01],
        'G' => [0x3e, 0x41, 0x49, 0x49, 0x7a],
        'H' => [0x7f, 0x08, 0x08, 0x08, 0x7f],
        'I' => [0x00, 0x41, 0x7f, 0x41, 0x00],
        'J' => [0x20, 0x40, 0x41, 0x3f, 0x01],
        'K' => [0x7f, 0x08, 0x14, 0x22, 0x41],
        'L' => [0x7f, 0x40, 0x40, 0x40, 0x40],
        'M' => [0x7f, 0x02, 0x0c, 0x02, 0x7f],
        'N' => [0x7f, 0x04, 0x08, 0x10, 0x7f],
        'O' => [0x3e, 0x41, 0x41, 0x41, 0x3e],
        'P' => [0x7f, 0x09, 0x09, 0x09, 0x06],
        'Q' => [0x3e, 0x41, 0x51, 0x21, 0x5e],
        'R' => [0x7f, 0x09, 0x19, 0x29, 0x46],
        'S' => [0x46, 0x49, 0x49, 0x49, 0x31],
        'T' => [0x01, 0x01, 0x7f, 0x01, 0x01],
        'U' => [0x3f, 0x40, 0x40, 0x40, 0x3f],
        'V' => [0x1f, 0x20, 0x40, 0x20, 0x1f],
        'W' => [0x3f, 0x40, 0x38, 0x40, 0x3f],
        'X' => [0x63, 0x14, 0x08, 0x14, 0x63],
        'Y' => [0x07, 0x08, 0x70, 0x08, 0x07],
        'Z' => [0x61, 0x51, 0x49, 0x45, 0x43],
        '.' => [0x00, 0x60, 0x60, 0x00, 0x00],
        ':' => [0x00, 0x36, 0x36, 0x00, 0x00],
        '/' => [0x20, 0x10, 0x08, 0x04, 0x02],
        '%' => [0x23, 0x13, 0x08, 0x64, 0x62],
        '-' => [0x08, 0x08, 0x08, 0x08, 0x08],
        '_' => [0x40, 0x40, 0x40, 0x40, 0x40],
        _ => [0x02, 0x01, 0x51, 0x09, 0x06],
    };
    r
}

/// Whether a character, drawn with its upper left corner at a place and in a
/// size, lights the pixel at `p`. It is scaled to the size from 5 by 7 pixels.
pub open spec fn inked(
    x: int,
    y: int,
    character: char,
    width: int,
    height: int,
    p: (int, int),
) -> bool {
    &&& on_display(p)
    &&& x <= p.0 < x + width
    &&& y <= p.1 < y + height
    &&& bit(columns(character)[(p.0 - x) * 5 / width], ((p.1 - y) * 7 / height) as u8)
}

/// The characters that fit the width.
pub open spec fn fitting(text: Seq<char>, width: int, advance: int) -> int {
    let most = (128 + advance - width) / advance;
    if text.len() < most {
        text.len() as int
    } else {
        most
    }
}

/// Where a text starts so that it stands in the middle.
pub open spec fn centered_start(count: int, width: int, advance: int) -> int {
    (128 - ((count - 1) * advance + width)) / 2
}

/// Whether a text, drawn in the middle of the width, lights the pixel at `p`.
pub open spec fn text_inked(
    y: int,
    text: Seq<char>,
    width: int,
    height: int,
    advance: int,
    p: (int, int),
) -> bool {
    let count = fitting(text, width, advance);
    exists|i: int|
        0 <= i < count && inked(
            centered_start(count, width, advance) + i * advance,
            y,
            upper(#[trigger] text[i]),
            width,
            height,
            p,
        )
}

/// How lines are laid out.
pub struct Layout {
    pub width: int,
    pub height: int,
    pub advance: int,
    pub first_y: int,
    pub step: int,
}

/// The number of lines that are shown of the given number: all of up to four,
/// and the first three of more.
pub open spec fn shown(count: int) -> int {
    if count > 4 {
        3
    } else {
        count
    }
}

/// The layout for the given number of lines: the fewer are shown, the larger.
pub open spec fn layout_for(count: int) -> Layout {
    if count <= 1 {
        Layout { width: 8, height: 15, advance: 9, first_y: 8, step: 0 }
    } else if count == 2 {
        Layout { width: 7, height: 13, advance: 8, first_y: 1, step: 17 }
    } else if count == 4 {
        Layout { width: 5, height: 7, advance: 6, first_y: 0, step: 8 }
    } else {
        Layout { width: 6, height: 10, advance: 7, first_y: 0, step: 11 }
    }
}

/// Whether lines of text light the pixel at `p`.
pub open spec fn lines_inked(lines: Seq<Seq<char>>, p: (int, int)) -> bool {
    let layout = layout_for(lines.len() as int);
    exists|i: int|
        0 <= i < shown(lines.len() as int) && text_inked(
            layout.first_y + i * layout.step,
            #[trigger] lines[i],
            layout.width,
            layout.height,
            layout.advance,
            p,
        )
}

impl Framebuffer {
    /// Turns every pixel off.
    pub fn clear(&mut self)
        ensures
            final(self).complete(),
            final(self)@ == Set::<(int, int)>::empty(),
    {
        self.bytes = blank_bytes();
        proof {
            lemma_blank(*self);
        }
    }

    /// Lights a pixel; one that is not on the display does not matter.
    pub fn set_pixel(&mut self, x: usize, y: usize)
        requires
            old(self).complete(),
        ensures
            final(self).complete(),
            on_display((x as int, y as int)) ==> final(self)@ == old(self)@.insert(
                (x as int, y as int),
            ),
            !on_display((x as int, y as int)) ==> *final(self) == *old(self),
    {
        if x >= WIDTH || y >= HEIGHT {
            return;
        }
        let ghost before = *self;
        let at: usize = x + (y / 8) * WIDTH;
        let k: u8 = (y % 8) as u8;
        let byte: u8 = self.bytes[at];
        self.bytes.set(at, byte | (1u8 << k));
        proof {
            let here = (x as int, y as int);
            assert forall|p: (int, int)| self@.contains(p) == before@.insert(here).contains(p) by {
                if on_display(p) {
                    let j = (p.1 % 8) as u8;
                    assert(((byte | (1u8 << k)) & (1u8 << j) != 0) == (j == k || byte & (1u8 << j)
                        != 0)) by (bit_vector)
                        requires
                            j < 8,
                            k < 8,
                    ;
                    if p.0 + p.1 / 8 * 128 == at {
                        assert(p.0 == x && p.1 / 8 == y as int / 8);
                    }
                }
            }
            assert(self@ =~= before@.insert(here));
        }
    }

    /// Draws a character in a size.
    fn draw_scaled_glyph(&mut self, x: usize, y: usize, character: char, width: usize, height: usize)
        requires
            old(self).complete(),
            0 < width <= 256,
            0 < height <= 256,
            x + width <= usize::MAX,
            y + height <= usize::MAX,
        ensures
            final(self).complete(),
            forall|p: (int, int)|
                #![trigger final(self)@.contains(p)]
                final(self)@.contains(p) == (old(self)@.contains(p) || inked(
                    x as int,
                    y as int,
                    character,
                    width as int,
                    height as int,
                    p,
                )),
    {
        let source = glyph(character);
        let ghost before = self@;
        let ghost (gx, gy, gw, gh) = (x as int, y as int, width as int, height as int);
        for target_x in 0..width
            invariant
                self.complete(),
                source@ == columns(character),
                0 < width <= 256,
                0 < height <= 256,
                x + width <= usize::MAX,
                y + height <= usize::MAX,
                gx == x && gy == y && gw == width && gh == height,
                forall|p: (int, int)|
                    #![trigger self@.contains(p)]
                    self@.contains(p) == (before.contains(p) || (inked(gx, gy, character, gw, gh, p)
                        && p.0 < x + target_x)),
        {
            let source_x: usize = target_x * 5 / width;
            assert(source_x < 5) by (nonlinear_arith)
                requires
                    target_x < width,
                    source_x == target_x * 5 / width as int,
            ;
            let bits: u8 = source[source_x];
            for target_y in 0..height
                invariant
                    self.complete(),
                    source@ == columns(character),
                    0 < width <= 256,
                    0 < height <= 256,
                    target_x < width,
                    x + width <= usize::MAX,
                    y + height <= usize::MAX,
                    gx == x && gy == y && gw == width && gh == height,
                    source_x == target_x * 5 / width as int,
                    source_x < 5,
                    bits == columns(character)[source_x as int],
                    forall|p: (int, int)|
                        #![trigger self@.contains(p)]
                        self@.contains(p) == (before.contains(p) || (inked(
                            gx,
                            gy,
                            character,
                            gw,
                            gh,
                            p,
                        ) && (p.0 < x + target_x || (p.0 == x + target_x && p.1 < y + target_y)))),
            {
                let source_y: u8 = (target_y * 7 / height) as u8;
                assert(target_y * 7 / (height as int) < 7) by (nonlinear_arith)
                    requires
                        target_y < height,
                ;
                let ghost middle = self@;
                let ghost here = (x + target_x, y + target_y);
                assert(bit(bits, source_y) && on_display(here) <==> inked(
                    gx,
                    gy,
                    character,
                    gw,
                    gh,
                    here,
                ));
                if bits & (1u8 << source_y) != 0 {
                    self.set_pixel(x + target_x, y + target_y);
                }
                assert forall|p: (int, int)| #![trigger self@.contains(p)]
                    self@.contains(p) == (middle.contains(p) || (p == here && inked(
                        gx,
                        gy,
                        character,
                        gw,
                        gh,
                        p,
                    ))) by {
                    if p == here {
                        assert(p.0 == here.0 && p.1 == here.1);
                    }
                }
            }
        }
    }

    /// Draws a text in the middle of the width.
    fn draw_centered_text(&mut self, y: usize, text: &str, width: usize, height: usize, advance: usize)
        requires
            old(self).complete(),
            0 < width <= 128,
            0 < height <= 128,
            0 < advance <= 128,
            y <= 1024,
        ensures
            final(self).complete(),
            forall|p: (int, int)|
                #![trigger final(self)@.contains(p)]
                final(self)@.contains(p) == (old(self)@.contains(p) || text_inked(
                    y as int,
                    text@,
                    width as int,
                    height as int,
                    advance as int,
                    p,
                )),
    {
        let most: usize = (WIDTH + advance - width) / advance;
        let characters = chars_of(text);
        let count: usize = if characters.len() < most {
            characters.len()
        } else {
            most
        };
        assert(count == fitting(text@, width as int, advance as int));
        if count == 0 {
            return;
        }
        let ghost before = self@;
        let ghost (gy, gw, gh, ga) = (y as int, width as int, height as int, advance as int);
        proof {
            lemma_text_fits(count as int, gw, ga);
        }
        let text_width: usize = (count - 1) * advance + width;
        let start: usize = (WIDTH - text_width) / 2;
        let mut cursor_x: usize = start;
        assert(0 * advance == 0);
        for i in 0..count
            invariant
                self.complete(),
                characters@ == text@,
                count <= characters@.len(),
                count == fitting(text@, gw, ga),
                0 < width <= 128,
                0 < height <= 128,
                0 < advance <= 128,
                y <= 1024,
                gy == y && gw == width && gh == height && ga == advance,
                start == centered_start(count as int, gw, ga),
                start + (count - 1) * advance + width <= 128,
                cursor_x == start + i * advance,
                forall|p: (int, int)|
                    #![trigger self@.contains(p)]
                    self@.contains(p) == (before.contains(p) || exists|k: int|
                        0 <= k < i && inked(
                            start + k * advance,
                            gy,
                            upper(#[trigger] text@[k]),
                            gw,
                            gh,
                            p,
                        )),
        {
            let ghost middle = self@;
            assert(i * advance <= (count - 1) * advance) by (nonlinear_arith)
                requires
                    i <= count - 1,
                    advance > 0,
            ;
            assert((i + 1) * advance == i * advance + advance) by (nonlinear_arith);
            self.draw_scaled_glyph(cursor_x, y, to_upper(characters[i]), width, height);
            assert forall|p: (int, int)| #![trigger self@.contains(p)]
                self@.contains(p) == (before.contains(p) || exists|k: int|
                    0 <= k < i + 1 && inked(
                        start + k * advance,
                        gy,
                        upper(#[trigger] text@[k]),
                        gw,
                        gh,
                        p,
                    )) by {
                assert(middle.contains(p) == middle.contains(p));
                if inked(start + i * advance, gy, upper(text@[i as int]), gw, gh, p) {
                    assert(0 <= i < i + 1);
                }
            }
            cursor_x = cursor_x + advance;
        }
    }

    /// Draws lines of text, as large as their number allows. Of more than four
    /// lines the first three are drawn.
    pub fn draw_status_lines(&mut self, lines: &Vec<String>)
        requires
            old(self).complete(),
        ensures
            final(self).complete(),
            forall|p: (int, int)|
                #![trigger final(self)@.contains(p)]
                final(self)@.contains(p) == (old(self)@.contains(p) || lines_inked(
                    views(lines@),
                    p,
                )),
    {
        let count: usize = lines.len();
        let visible: usize = if count > 4 {
            3
        } else {
            count
        };
        let (width, height, advance, first_y, step): (usize, usize, usize, usize, usize) = if visible
            <= 1 {
            (8, 15, 9, 8, 0)
        } else if visible == 2 {
            (7, 13, 8, 1, 17)
        } else if visible == 3 {
            (6, 10, 7, 0, 11)
        } else {
            (5, 7, 6, 0, 8)
        };
        let ghost before = self@;
        let ghost texts = views(lines@);
        let ghost layout = layout_for(texts.len() as int);
        for i in 0..visible
            invariant
                self.complete(),
                visible <= 4,
                visible == shown(texts.len() as int),
                visible <= lines@.len(),
                texts == views(lines@),
                layout == layout_for(texts.len() as int),
                layout.width == width && layout.height == height && layout.advance == advance
                    && layout.first_y == first_y && layout.step == step,
                0 < width <= 8,
                0 < height <= 15,
                0 < advance <= 9,
                first_y <= 8,
                step <= 17,
                forall|p: (int, int)|
                    #![trigger self@.contains(p)]
                    self@.contains(p) == (before.contains(p) || exists|k: int|
                        0 <= k < i && text_inked(
                            layout.first_y + k * layout.step,
                            #[trigger] texts[k],
                            layout.width,
                            layout.height,
                            layout.advance,
                            p,
                        )),
        {
            let ghost middle = self@;
            assert(0 <= i * step <= 4 * 17) by (nonlinear_arith)
                requires
                    i <= 4,
                    step <= 17,
            ;
            assert(texts[i as int] == lines@[i as int]@);
            self.draw_centered_text(
                first_y + i * step,
                lines[i].as_str(),
                width,
                height,
                advance,
            );
            assert forall|p: (int, int)| #![trigger self@.contains(p)]
                self@.contains(p) == (before.contains(p) || exists|k: int|
                    0 <= k < i + 1 && text_inked(
                        layout.first_y + k * layout.step,
                        #[trigger] texts[k],
                        layout.width,
                        layout.height,
                        layout.advance,
                        p,
                    )) by {
                assert(middle.contains(p) == middle.contains(p));
                if text_inked(
                    layout.first_y + i * layout.step,
                    texts[i as int],
                    layout.width,
                    layout.height,
                    layout.advance,
                    p,
                ) {
                    assert(0 <= i < i + 1);
                }
            }
        }
    }

    /// Draws a text in the smallest size from a place on; characters that do
    /// not fit the width are left out.
    pub fn draw_unscaled_text(&mut self, x: usize, y: usize, text: &str)
        requires
            old(self).complete(),
            y + 7 <= usize::MAX,
        ensures
            final(self).complete(),
            forall|p: (int, int)|
                #![trigger final(self)@.contains(p)]
                final(self)@.contains(p) == (old(self)@.contains(p) || plain_inked(
                    x as int,
                    y as int,
                    text@,
                    p,
                )),
    {
        let characters = chars_of(text);
        let ghost before = self@;
        let ghost gy = y as int;
        let mut cursor_x: usize = x;
        let mut i: usize = 0;
        while i < characters.len() && cursor_x <= WIDTH - 5
            invariant
                self.complete(),
                characters@ == text@,
                i <= characters@.len(),
                cursor_x == x + i * 6,
                y + 7 <= usize::MAX,
                gy == y,
                forall|p: (int, int)|
                    #![trigger self@.contains(p)]
                    self@.contains(p) == (before.contains(p) || exists|k: int|
                        0 <= k < i && x + k * 6 + 5 <= 128 && inked(
                            x + k * 6,
                            gy,
                            upper(#[trigger] text@[k]),
                            5,
                            7,
                            p,
                        )),
            decreases characters@.len() - i,
        {
            let ghost middle = self@;
            self.draw_scaled_glyph(cursor_x, y, to_upper(characters[i]), 5, 7);
            assert forall|p: (int, int)| #![trigger self@.contains(p)]
                self@.contains(p) == (before.contains(p) || exists|k: int|
                    0 <= k < i + 1 && x + k * 6 + 5 <= 128 && inked(
                        x + k * 6,
                        gy,
                        upper(#[trigger] text@[k]),
                        5,
                        7,
                        p,
                    )) by {
                assert(middle.contains(p) == middle.contains(p));
                if inked(x + i * 6, gy, upper(text@[i as int]), 5, 7, p) {
                    assert(0 <= i < i + 1);
                }
            }
            cursor_x = cursor_x + 6;
            i = i + 1;
        }
    }
}

/// Whether a text, drawn in the smallest size from a place on, lights the pixel
/// at `p`.
pub open spec fn plain_inked(x: int, y: int, text: Seq<char>, p: (int, int)) -> bool {
    exists|k: int|
        0 <= k < text.len() && x + k * 6 + 5 <= 128 && inked(
            x + k * 6,
            y,
            upper(#[trigger] text[k]),
            5,
            7,
            p,
        )
}

proof fn lemma_text_fits(count: int, width: int, advance: int)
    requires
        0 < count <= (128 + advance - width) / advance,
        0 < width <= 128,
        0 < advance,
    ensures
        0 <= (count - 1) * advance,
        (count - 1) * advance + width <= 128,
        0 <= centered_start(count, width, advance),
        centered_start(count, width, advance) + (count - 1) * advance + width <= 128,
{
    assert((count - 1) * advance + width <= 128 && 0 <= (count - 1) * advance) by (nonlinear_arith)
        requires
            0 < count <= (128 + advance - width) / advance,
            0 < width <= 128,
            0 < advance,
    ;
}

/// The lines that are shown fit the display: every character of every line
/// stands wholly on it, and no two lines overlap.
pub proof fn lines_fit_display(lines: Seq<Seq<char>>, i: int, k: int)
    requires
        0 <= i < shown(lines.len() as int),
        0 <= k < fitting(
            lines[i],
            layout_for(lines.len() as int).width,
            layout_for(lines.len() as int).advance,
        ),
    ensures
        ({
            let layout = layout_for(lines.len() as int);
            let count = fitting(lines[i], layout.width, layout.advance);
            let x = centered_start(count, layout.width, layout.advance) + k * layout.advance;
            let y = layout.first_y + i * layout.step;
            &&& 0 <= x && x + layout.width <= WIDTH
            &&& 0 <= y && y + layout.height <= HEIGHT
            &&& i + 1 < shown(lines.len() as int) ==> y + layout.height <= layout.first_y + (i + 1)
                * layout.step
        }),
{
    let layout = layout_for(lines.len() as int);
    let count = fitting(lines[i], layout.width, layout.advance);
    lemma_text_fits(count, layout.width, layout.advance);
    let s = layout.step;
    assert((i == 0 ==> i * s == 0) && (i == 1 ==> i * s == s) && (i == 2 ==> i * s == 2 * s) && (i
        == 3 ==> i * s == 3 * s) && (i + 1) * s == i * s + s) by (nonlinear_arith);
    assert(0 <= k * layout.advance <= (count - 1) * layout.advance) by (nonlinear_arith)
        requires
            0 <= k <= count - 1,
            layout.advance > 0,
    ;
}

/// A line that is empty lights nothing.
pub proof fn empty_line_is_dark(y: int, width: int, height: int, advance: int, p: (int, int))
    requires
        0 < advance,
        width <= 128,
    ensures
        !text_inked(y, Seq::empty(), width, height, advance, p),
{
}

/// In its own size a character is drawn pixel by pixel, and nothing is drawn
/// outside of its place.
pub proof fn characters_are_drawn_pixel_by_pixel(
    x: int,
    y: int,
    character: char,
    column: int,
    row: int,
    p: (int, int),
)
    requires
        0 <= x,
        x + 5 <= 128,
        0 <= y,
        y + 7 <= 32,
        0 <= column < 5,
        0 <= row < 7,
    ensures
        inked(x, y, character, 5, 7, (x + column, y + row)) <==> bit(
            columns(character)[column],
            row as u8,
        ),
        !(x <= p.0 < x + 5 && y <= p.1 < y + 7) ==> !inked(x, y, character, 5, 7, p),
{
    assert(column * 5 / 5 == column);
    assert(row * 7 / 7 == row);
}

/// In a larger size each pixel of a character covers its share of the place: the
/// pixel in column `column` and row `row` covers the stretch from that many fifths
/// of the width and sevenths of the height to one more.
pub proof fn larger_characters_keep_their_shape(
    x: int,
    y: int,
    character: char,
    width: int,
    height: int,
    column: int,
    row: int,
    i: int,
    j: int,
)
    requires
        0 <= x,
        x + width <= 128,
        0 <= y,
        y + height <= 32,
        0 <= i < width,
        0 <= j < height,
        column * width <= 5 * i < (column + 1) * width,
        row * height <= 7 * j < (row + 1) * height,
    ensures
        0 <= column < 5 && 0 <= row < 7,
        inked(x, y, character, width, height, (x + i, y + j)) <==> bit(
            columns(character)[column],
            row as u8,
        ),
{
    lemma_scaled(width, 5, column, i);
    lemma_scaled(height, 7, row, j);
}

proof fn lemma_scaled(size: int, source: int, at: int, i: int)
    requires
        0 <= i < size,
        0 < source,
        at * size <= source * i < (at + 1) * size,
    ensures
        i * source / size == at,
        0 <= at < source,
{
    let n = i * source;
    assert(source * i == n) by (nonlinear_arith)
        requires
            n == i * source,
    ;
    let rest = n - at * size;
    assert((at + 1) * size == at * size + size) by (nonlinear_arith);
    assert(at * size == size * at) by (nonlinear_arith);
    vstd::arithmetic::div_mod::lemma_fundamental_div_mod_converse(n, size, at, rest);
    assert(0 <= n < size * source) by (nonlinear_arith)
        requires
            n == i * source,
            0 <= i < size,
            0 < source,
    ;
    assert(0 <= at < source) by (nonlinear_arith)
        requires
            at * size <= n < (at + 1) * size,
            0 <= n < size * source,
            0 < size,
    ;
}

/// All characters have five columns of seven pixels, and a space is dark.
pub proof fn characters_have_five_columns(character: char, i: int)
    requires
        0 <= i < 5,
    ensures
        columns(character).len() == 5,
        columns(character)[i] < 128,
        columns(' ')[i] == 0,
{
}

/// The digits and the letters can be told apart.
pub proof fn digits_and_letters_differ(a: char, b: char)
    requires
        '0' <= a <= '9' || 'A' <= a <= 'Z',
        '0' <= b <= '9' || 'A' <= b <= 'Z',
        a != b,
    ensures
        columns(a) != columns(b),
{
    let x = columns(a);
    let y = columns(b);
    assert(x[0] != y[0] || x[1] != y[1] || x[2] != y[2] || x[3] != y[3] || x[4] != y[4]);
}

/// A text stands in the middle: what is free on its left and on its right differs
/// by no more than a pixel. It is cut where no further character fits.
pub proof fn texts_stand_in_the_middle(text: Seq<char>, width: int, advance: int)
    requires
        0 < width <= advance <= 128,
        text.len() > 0,
    ensures
        ({
            let count = fitting(text, width, advance);
            let start = centered_start(count, width, advance);
            let end = start + (count - 1) * advance + width;
            &&& 0 < count <= text.len()
            &&& 0 <= start && end <= 128
            &&& 0 <= (128 - end) - start <= 1
            &&& count < text.len() ==> count * advance + width > 128
        }),
{
    let most = (128 + advance - width) / advance;
    assert(most >= 1 && most * advance <= 128 + advance - width && (most + 1) * advance > 128
        + advance - width) by (nonlinear_arith)
        requires
            most == (128 + advance - width) / advance,
            0 < width <= advance <= 128,
    ;
    let count = fitting(text, width, advance);
    lemma_text_fits(count, width, advance);
    assert((most + 1) * advance == most * advance + advance) by (nonlinear_arith);
}

/// The fewer lines there are, the larger they are: one line is 8 by 15 pixels, two
/// are 7 by 13, three 6 by 10 and four 5 by 7. All of up to four are shown, and the
/// first three of more.
pub proof fn fewer_lines_are_larger(count: int)
    requires
        0 <= count,
    ensures
        shown(count) <= count,
        count <= 4 ==> shown(count) == count,
        count > 4 ==> shown(count) == 3 && layout_for(count) == layout_for(3),
        layout_for(1).width == 8 && layout_for(1).height == 15,
        layout_for(2).width == 7 && layout_for(2).height == 13,
        layout_for(3).width == 6 && layout_for(3).height == 10,
        layout_for(4).width == 5 && layout_for(4).height == 7,
        layout_for(count).advance == layout_for(count).width + 1,
{
}

/// Letters are drawn alike in lower and upper case.
pub proof fn case_does_not_matter(
    y: int,
    text: Seq<char>,
    width: int,
    height: int,
    advance: int,
    p: (int, int),
)
    ensures
        text_inked(y, crate::text::lowered(text), width, height, advance, p) <==> text_inked(
            y,
            text,
            width,
            height,
            advance,
            p,
        ),
        text_inked(y, crate::text::uppered(text), width, height, advance, p) <==> text_inked(
            y,
            text,
            width,
            height,
            advance,
            p,
        ),
{
    let lower = crate::text::lowered(text);
    let capital = crate::text::uppered(text);
    assert forall|i: int| 0 <= i < text.len() implies upper(#[trigger] lower[i]) == upper(text[i])
        && upper(capital[i]) == upper(text[i]) by {
        crate::text::letters_change_case(text[i]);
    }
    let count = fitting(text, width, advance);
    let start = centered_start(count, width, advance);
    if text_inked(y, text, width, height, advance, p) {
        let i = choose|i: int|
            0 <= i < count && inked(
                start + i * advance,
                y,
                upper(#[trigger] text[i]),
                width,
                height,
                p,
            );
        assert(upper(lower[i]) == upper(text[i]));
        assert(upper(capital[i]) == upper(text[i]));
    }
    if text_inked(y, lower, width, height, advance, p) {
        let i = choose|i: int|
            0 <= i < count && inked(
                start + i * advance,
                y,
                upper(#[trigger] lower[i]),
                width,
                height,
                p,
            );
        assert(upper(lower[i]) == upper(text[i]));
    }
    if text_inked(y, capital, width, height, advance, p) {
        let i = choose|i: int|
            0 <= i < count && inked(
                start + i * advance,
                y,
                upper(#[trigger] capital[i]),
                width,
                height,
                p,
            );
        assert(upper(lower[i]) == upper(text[i]));
    }
}

/// The lines that are shown stand in the middle of the height, with the same
/// distance between all of them: what is free above and below differs by no more
/// than a pixel.
pub proof fn lines_stand_in_the_middle(count: int)
    requires
        1 <= count,
    ensures
        ({
            let layout = layout_for(count);
            let below = 32 - (layout.first_y + (shown(count) - 1) * layout.step + layout.height);
            &&& 0 <= below - layout.first_y <= 1
            &&& shown(count) == 2 ==> layout.step == layout.height + 4
            &&& shown(count) > 2 ==> layout.step == layout.height + 1
        }),
{
}

/// The pictures of these characters are the same from both sides.
pub proof fn some_characters_are_symmetric(c: char)
    requires
        c == '8' || c == 'A' || c == 'H' || c == 'I' || c == 'M' || c == 'O' || c
            == 'T' || c == 'U' || c == 'V' || c == 'W' || c == 'X' || c == 'Y' || c == '-' || c == '_',
    ensures
        columns(c)[0] == columns(c)[4],
        columns(c)[1] == columns(c)[3],
{
}

/// Each line is drawn in its own stretch of rows, and nothing else is there.
pub proof fn lines_have_their_own_rows(lines: Seq<Seq<char>>, i: int, p: (int, int))
    requires
        0 <= i < shown(lines.len() as int),
        ({
            let layout = layout_for(lines.len() as int);
            layout.first_y + i * layout.step <= p.1 < layout.first_y + i * layout.step + layout.height
        }),
    ensures
        ({
            let layout = layout_for(lines.len() as int);
            lines_inked(lines, p) <==> text_inked(
                layout.first_y + i * layout.step,
                lines[i],
                layout.width,
                layout.height,
                layout.advance,
                p,
            )
        }),
{
    let layout = layout_for(lines.len() as int);
    let count = shown(lines.len() as int);
    if text_inked(
        layout.first_y + i * layout.step,
        lines[i],
        layout.width,
        layout.height,
        layout.advance,
        p,
    ) {
        assert(lines_inked(lines, p));
    }
    if lines_inked(lines, p) {
        let k = choose|k: int|
            0 <= k < count && text_inked(
                layout.first_y + k * layout.step,
                #[trigger] lines[k],
                layout.width,
                layout.height,
                layout.advance,
                p,
            );
        assert(layout.first_y + k * layout.step <= p.1 < layout.first_y + k * layout.step
            + layout.height);
        if count > 1 {
            assert(0 < layout.height <= layout.step);
            assert(k == i) by (nonlinear_arith)
                requires
                    layout.first_y + i * layout.step <= p.1 < layout.first_y + i * layout.step
                        + layout.height,
                    layout.first_y + k * layout.step <= p.1 < layout.first_y + k * layout.step
                        + layout.height,
                    0 < layout.height <= layout.step,
            ;
        }
    }
}

/// A text is drawn from left to right, six pixels to a character: two texts one
/// after the other are drawn as the first, and the second behind it.
pub proof fn texts_are_drawn_from_left_to_right(
    x: int,
    y: int,
    a: Seq<char>,
    b: Seq<char>,
    c: char,
    p: (int, int),
)
    ensures
        plain_inked(x, y, a + b, p) <==> plain_inked(x, y, a, p) || plain_inked(
            x + 6 * a.len(),
            y,
            b,
            p,
        ),
        x + 5 <= 128 ==> (plain_inked(x, y, seq![c], p) <==> inked(x, y, upper(c), 5, 7, p)),
        x + 5 > 128 ==> !plain_inked(x, y, seq![c], p),
{
    let both = a + b;
    let n = a.len() as int;
    if plain_inked(x, y, both, p) {
        let k = choose|k: int|
            0 <= k < both.len() && x + k * 6 + 5 <= 128 && inked(
                x + k * 6,
                y,
                upper(#[trigger] both[k]),
                5,
                7,
                p,
            );
        if k < n {
            assert(a[k] == both[k]);
        } else {
            assert(b[k - n] == both[k]);
        }
    }
    if plain_inked(x, y, a, p) {
        let k = choose|k: int|
            0 <= k < a.len() && x + k * 6 + 5 <= 128 && inked(
                x + k * 6,
                y,
                upper(#[trigger] a[k]),
                5,
                7,
                p,
            );
        assert(a[k] == both[k]);
    }
    if plain_inked(x + 6 * n, y, b, p) {
        let k = choose|k: int|
            0 <= k < b.len() && x + 6 * n + k * 6 + 5 <= 128 && inked(
                x + 6 * n + k * 6,
                y,
                upper(#[trigger] b[k]),
                5,
                7,
                p,
            );
        assert(b[k] == both[n + k]);
    }
    let single = seq![c];
    assert(single[0] == c);
}

} // verus!
