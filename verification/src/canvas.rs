//! Drawing on the screen: 160 by 80 pixels, row by row, of 16 bits each.
use vstd::prelude::*;
use vstd::string::*;

use crate::glyph::{glyph, to_capital};

verus! {

/// The pixels of a row.
pub const WIDTH: usize = 160;

/// The rows of the screen.
pub const HEIGHT: usize = 80;

/// The pixels of the screen.
pub const PIXELS: usize = 12_800;

/// A colour with five bits of red, six of green and five of blue.
pub open spec fn colour(r: u8, g: u8, b: u8) -> u16 {
    ((r / 8) * 2048 + (g / 4) * 32 + b / 8) as u16
}

/// A colour with five bits of red, six of green and five of blue.
pub fn rgb565(r: u8, g: u8, b: u8) -> (c: u16)
    ensures
        c == colour(r, g, b),
{
    ((r as u16) / 8) * 2048 + ((g as u16) / 4) * 32 + (b as u16) / 8
}

/// The column of a pixel.
pub open spec fn column(k: int) -> int {
    k % 160
}

/// The row of a pixel.
pub open spec fn row(k: int) -> int {
    k / 160
}

/// The value of the dot in a column of a glyph's row.
pub open spec fn dot_value(col: int) -> u8 {
    if col == 0 {
        16
    } else if col == 1 {
        8
    } else if col == 2 {
        4
    } else if col == 3 {
        2
    } else {
        1
    }
}

/// Whether a row of a glyph has a dot in a column.
pub open spec fn dotted(bits: u8, col: int) -> bool {
    bits / dot_value(col) % 2 == 1
}

fn has_dot(bits: u8, col: usize) -> (yes: bool)
    requires
        col < 5,
    ensures
        yes == dotted(bits, col as int),
{
    let value: u8 = if col == 0 {
        16
    } else if col == 1 {
        8
    } else if col == 2 {
        4
    } else if col == 3 {
        2
    } else {
        1
    };
    bits / value % 2 == 1
}

/// How many characters of a text find room from a column on.
pub open spec fn room_from(x: int, length: int) -> int {
    let room = if x < WIDTH {
        (WIDTH - x) / 6
    } else {
        0
    };
    if length <= room {
        length
    } else {
        room
    }
}

/// Whether a text written at a place covers a pixel: the pixel lies in the cell of one of the
/// characters that find room, on a dot of that character.
pub open spec fn inked(text: Seq<char>, x: int, y: int, px: int, py: int) -> bool {
    &&& x <= px
    &&& y <= py < y + 7
    &&& (px - x) / 6 < room_from(x, text.len() as int)
    &&& (px - x) % 6 < 5
    &&& dotted(
        crate::glyph::glyph_rows(crate::glyph::capital(text[(px - x) / 6]))[py - y],
        (px - x) % 6,
    )
}

/// A frame with a text written on it.
pub open spec fn written(frame: Seq<u16>, x: int, y: int, text: Seq<char>, colour: u16) -> Seq<
    u16,
> {
    Seq::new(
        frame.len(),
        |k: int|
            if inked(text, x, y, column(k), row(k)) {
                colour
            } else {
                frame[k]
            },
    )
}

/// Whether a pixel lies in a rectangle.
pub open spec fn in_rect(x: int, y: int, width: int, height: int, px: int, py: int) -> bool {
    x <= px < x + width && y <= py < y + height
}

/// A frame with a rectangle filled.
pub open spec fn filled(
    frame: Seq<u16>,
    x: int,
    y: int,
    width: int,
    height: int,
    colour: u16,
) -> Seq<u16> {
    Seq::new(
        frame.len(),
        |k: int|
            if in_rect(x, y, width, height, column(k), row(k)) {
                colour
            } else {
                frame[k]
            },
    )
}

fn at_most(a: usize, b: usize) -> (least: usize)
    ensures
        least == if a <= b {
            a
        } else {
            b
        },
{
    if a <= b {
        a
    } else {
        b
    }
}

/// Fills a rectangle, as far as it lies on the screen.
pub fn fill_rect(
    pixels: &mut Vec<u16>,
    x: usize,
    y: usize,
    width: usize,
    height: usize,
    colour: u16,
)
    requires
        old(pixels)@.len() == PIXELS,
        x + width <= usize::MAX,
        y + height <= usize::MAX,
    ensures
        final(pixels)@ == filled(
            old(pixels)@,
            x as int,
            y as int,
            width as int,
            height as int,
            colour,
        ),
{
    let ghost before = pixels@;
    let bottom: usize = at_most(y + height, HEIGHT);
    let right: usize = at_most(x + width, WIDTH);
    let mut py: usize = y;
    while py < bottom
        invariant
            before.len() == PIXELS == pixels@.len(),
            bottom <= HEIGHT,
            right <= WIDTH,
            y <= py,
            py <= bottom || py == y,
            right <= x + width,
            bottom <= y + height,
            right == x + width || right == WIDTH,
            forall|k: int|
                0 <= k < PIXELS ==> #[trigger] pixels@[k] == if x <= column(k) < right && y <= row(
                    k,
                ) < py {
                    colour
                } else {
                    before[k]
                },
        decreases bottom - py,
    {
        let mut px: usize = x;
        while px < right
            invariant
                before.len() == PIXELS == pixels@.len(),
                y <= py < bottom <= HEIGHT,
                right <= WIDTH,
                x <= px,
                px <= right || px == x,
                forall|k: int|
                    0 <= k < PIXELS ==> #[trigger] pixels@[k] == if x <= column(k) < right && y
                        <= row(k) < py || row(k) == py && x <= column(k) < px {
                        colour
                    } else {
                        before[k]
                    },
            decreases right - px,
        {
            let at: usize = py * WIDTH + px;
            assert(column(at as int) == px && row(at as int) == py);
            pixels.set(at, colour);
            assert forall|k: int| 0 <= k < PIXELS implies #[trigger] pixels@[k] == if x <= column(k)
                < right && y <= row(k) < py || row(k) == py && x <= column(k) < px + 1 {
                colour
            } else {
                before[k]
            } by {
                assert(row(k) == py && column(k) == px ==> k == at);
            }
            px += 1;
        }
        py += 1;
    }
    assert(pixels@ =~= filled(before, x as int, y as int, width as int, height as int, colour)) by {
        assert forall|k: int| 0 <= k < PIXELS implies pixels@[k] == filled(
            before,
            x as int,
            y as int,
            width as int,
            height as int,
            colour,
        )[k] by {
            assert(0 <= column(k) < WIDTH);
            assert(0 <= row(k) < HEIGHT);
        }
    }
}

/// Whether the cell that holds a pixel comes before a dot, in the order of writing.
spec fn before_dot(x: int, y: int, px: int, py: int, index: int, r: int, col: int) -> bool {
    let i = (px - x) / 6;
    i < index || i == index && (py - y < r || py - y == r && (px - x) % 6 < col)
}

/// A frame with part of a text written on it.
spec fn partly_written(
    frame: Seq<u16>,
    x: int,
    y: int,
    text: Seq<char>,
    colour: u16,
    index: int,
    r: int,
    col: int,
) -> Seq<u16> {
    Seq::new(
        frame.len(),
        |k: int|
            if inked(text, x, y, column(k), row(k)) && before_dot(
                x,
                y,
                column(k),
                row(k),
                index,
                r,
                col,
            ) {
                colour
            } else {
                frame[k]
            },
    )
}

/// Writes a text, as far as it finds room on the screen.
pub fn draw_text(pixels: &mut Vec<u16>, x: usize, y: usize, text: &str, colour: u16)
    requires
        old(pixels)@.len() == PIXELS,
        y + 7 <= usize::MAX,
    ensures
        final(pixels)@ == written(old(pixels)@, x as int, y as int, text@, colour),
{
    let ghost before = pixels@;
    let room: usize = if x < WIDTH {
        (WIDTH - x) / 6
    } else {
        0
    };
    let shown: usize = at_most(text.unicode_len(), room);
    let mut index: usize = 0;
    assert(pixels@ =~= partly_written(before, x as int, y as int, text@, colour, 0, 0, 0));
    while index < shown
        invariant
            before.len() == PIXELS,
            y + 7 <= usize::MAX,
            shown == room_from(x as int, text@.len() as int),
            shown > 0 ==> x + 6 * shown <= WIDTH,
            shown <= text@.len(),
            index <= shown,
            pixels@ == partly_written(
                before,
                x as int,
                y as int,
                text@,
                colour,
                index as int,
                0,
                0,
            ),
        decreases shown - index,
    {
        let rows: [u8; 7] = glyph(to_capital(text.get_char(index)));
        draw_glyph(pixels, x, y, text, index, &rows, colour, Ghost(before));
        index += 1;
    }
    assert(pixels@ =~= written(before, x as int, y as int, text@, colour));
}

fn draw_glyph(
    pixels: &mut Vec<u16>,
    x: usize,
    y: usize,
    text: &str,
    index: usize,
    rows: &[u8; 7],
    colour: u16,
    Ghost(before): Ghost<Seq<u16>>,
)
    requires
        before.len() == PIXELS,
        y + 7 <= usize::MAX,
        index < room_from(x as int, text@.len() as int),
        x + 6 * (index + 1) <= WIDTH,
        index < text@.len(),
        rows@ == crate::glyph::glyph_rows(crate::glyph::capital(text@[index as int])),
        rows@.len() == 7,
        old(pixels)@ == partly_written(
            before,
            x as int,
            y as int,
            text@,
            colour,
            index as int,
            0,
            0,
        ),
    ensures
        final(pixels)@ == partly_written(
            before,
            x as int,
            y as int,
            text@,
            colour,
            index + 1,
            0,
            0,
        ),
{
    let mut r: usize = 0;
    while r < 7
        invariant
            before.len() == PIXELS,
            y + 7 <= usize::MAX,
            index < room_from(x as int, text@.len() as int),
            x + 6 * (index + 1) <= WIDTH,
            index < text@.len(),
            rows@ == crate::glyph::glyph_rows(crate::glyph::capital(text@[index as int])),
            rows@.len() == 7,
            r <= 7,
            pixels@ == partly_written(
                before,
                x as int,
                y as int,
                text@,
                colour,
                index as int,
                r as int,
                0,
            ),
        decreases 7 - r,
    {
        let bits: u8 = rows[r];
        let mut col: usize = 0;
        while col < 5
            invariant
                before.len() == PIXELS,
                y + 7 <= usize::MAX,
                index < room_from(x as int, text@.len() as int),
                x + 6 * (index + 1) <= WIDTH,
                index < text@.len(),
                rows@ == crate::glyph::glyph_rows(crate::glyph::capital(text@[index as int])),
                r < 7,
                bits == rows@[r as int],
                col <= 5,
                pixels@ == partly_written(
                    before,
                    x as int,
                    y as int,
                    text@,
                    colour,
                    index as int,
                    r as int,
                    col as int,
                ),
            decreases 5 - col,
        {
            let px: usize = x + index * 6 + col;
            let py: usize = y + r;
            assert((px - x) / 6 == index && (px - x) % 6 == col);
            let ghost held = pixels@;
            if has_dot(bits, col) {
                if px < WIDTH && py < HEIGHT {
                    let at: usize = py * WIDTH + px;
                    assert(column(at as int) == px && row(at as int) == py);
                    pixels.set(at, colour);
                }
            }
            proof {
                let after = partly_written(
                    before,
                    x as int,
                    y as int,
                    text@,
                    colour,
                    index as int,
                    r as int,
                    col + 1,
                );
                assert forall|k: int| 0 <= k < PIXELS implies pixels@[k] == after[k] by {
                    let kx = column(k);
                    let ky = row(k);
                    assert(0 <= kx < WIDTH && 0 <= ky < HEIGHT && k == ky * 160 + kx);
                    assert(held[k] == partly_written(
                        before,
                        x as int,
                        y as int,
                        text@,
                        colour,
                        index as int,
                        r as int,
                        col as int,
                    )[k]);
                    if kx == px && ky == py {
                    } else if x <= kx && (kx - x) / 6 == index && (kx - x) % 6 == col {
                        assert(kx == px);
                        assert(ky != py);
                    }
                }
                assert(pixels@ =~= after);
            }
            col += 1;
        }
        proof {
            let now = partly_written(
                before,
                x as int,
                y as int,
                text@,
                colour,
                index as int,
                r as int,
                5,
            );
            let next = partly_written(
                before,
                x as int,
                y as int,
                text@,
                colour,
                index as int,
                r + 1,
                0,
            );
            assert(now =~= next);
        }
        r += 1;
    }
    proof {
        let now = partly_written(
            before,
            x as int,
            y as int,
            text@,
            colour,
            index as int,
            7,
            0,
        );
        let next = partly_written(before, x as int, y as int, text@, colour, index + 1, 0, 0);
        assert(now =~= next);
    }
}

/// The bytes of a frame as the display takes them: turned clockwise by a quarter, the higher
/// byte of each pixel first.
pub open spec fn rotated(frame: Seq<u16>) -> Seq<u8> {
    Seq::new(
        2 * PIXELS as nat,
        |b: int|
            {
                let pixel = frame[(79 - b / 2 % 80) * 160 + b / 2 / 80];
                if b % 2 == 0 {
                    (pixel / 256) as u8
                } else {
                    (pixel % 256) as u8
                }
            },
    )
}

/// The bytes of a frame as the display takes them.
pub fn rotated_rgb565_bytes(pixels: &Vec<u16>) -> (data: Vec<u8>)
    requires
        pixels@.len() == PIXELS,
    ensures
        data@ == rotated(pixels@),
{
    let mut data: Vec<u8> = Vec::with_capacity(2 * PIXELS);
    let mut y: usize = 0;
    while y < 160
        invariant
            pixels@.len() == PIXELS,
            y <= 160,
            data@ == rotated(pixels@).take(160 * y),
        decreases 160 - y,
    {
        let mut x: usize = 0;
        while x < 80
            invariant
                pixels@.len() == PIXELS,
                y < 160,
                x <= 80,
                data@ == rotated(pixels@).take(160 * y + 2 * x),
            decreases 80 - x,
        {
            let pixel: u16 = pixels[(79 - x) * WIDTH + y];
            proof {
                let b = 160 * y + 2 * x;
                assert(b / 2 % 80 == x && b / 2 / 80 == y);
                assert((b + 1) / 2 % 80 == x && (b + 1) / 2 / 80 == y);
            }
            data.push((pixel / 256) as u8);
            data.push((pixel % 256) as u8);
            assert(data@ =~= rotated(pixels@).take(160 * y + 2 * (x + 1)));
            x += 1;
        }
        y += 1;
    }
    assert(rotated(pixels@).take(25_600) =~= rotated(pixels@));
    data
}

/// A quarter turn moves the pixel in column `x` and row `y` to column `79 - y` and row `x` of
/// the display, and every byte that is sent comes from one pixel that way.
pub proof fn law_rotation_moves_every_pixel(frame: Seq<u16>, x: int, y: int)
    requires
        frame.len() == PIXELS,
        0 <= x < WIDTH,
        0 <= y < HEIGHT,
    ensures
        rotated(frame).len() == 2 * frame.len(),
        rotated(frame)[2 * (x * 80 + (79 - y))] as int * 256 + rotated(frame)[2 * (x * 80 + (79
            - y)) + 1] as int == frame[y * 160 + x],
{
    let place = x * 80 + (79 - y);
    assert(0 <= place < PIXELS);
    assert((2 * place) / 2 == place && (2 * place + 1) / 2 == place);
    assert(place % 80 == 79 - y && place / 80 == x);
}

/// Drawing changes no pixel outside the rectangle or the dots of the text.
pub proof fn law_drawing_stays_in_its_place(
    frame: Seq<u16>,
    x: int,
    y: int,
    width: int,
    height: int,
    text: Seq<char>,
    colour: u16,
    k: int,
)
    requires
        0 <= k < frame.len(),
        0 <= x,
    ensures
        !in_rect(x, y, width, height, column(k), row(k)) ==> filled(
            frame,
            x,
            y,
            width,
            height,
            colour,
        )[k] == frame[k],
        !in_rect(x, y, 6 * text.len() as int, 7, column(k), row(k)) ==> written(
            frame,
            x,
            y,
            text,
            colour,
        )[k] == frame[k],
{
}

/// The bits of a colour: the upper five of red, the upper six of green and the upper five of
/// blue, in this order.
pub proof fn law_colours_keep_the_upper_bits(r: u8, g: u8, b: u8)
    ensures
        colour(r, g, b) / 2048 == r / 8,
        colour(r, g, b) / 32 % 64 == g / 4,
        colour(r, g, b) % 32 == b / 8,
{
    lemma_fields_of_a_colour(r as int / 8, g as int / 4, b as int / 8);
}

proof fn lemma_fields_of_a_colour(red: int, green: int, blue: int)
    requires
        0 <= red < 32,
        0 <= green < 64,
        0 <= blue < 32,
    ensures
        (red * 2048 + green * 32 + blue) / 2048 == red,
        (red * 2048 + green * 32 + blue) / 32 % 64 == green,
        (red * 2048 + green * 32 + blue) % 32 == blue,
        0 <= red * 2048 + green * 32 + blue < 65_536,
{
    let all = red * 2048 + green * 32 + blue;
    assert(all / 32 == red * 64 + green);
    assert((red * 64 + green) % 64 == green);
}

/// The screen has 80 rows of 160 pixels.
pub proof fn law_pixels_lie_row_by_row(x: int, y: int)
    requires
        0 <= x < 160,
        0 <= y < 80,
    ensures
        WIDTH == 160,
        HEIGHT == 80,
        PIXELS == 160 * 80,
        column(y * 160 + x) == x,
        row(y * 160 + x) == y,
        0 <= y * 160 + x < PIXELS,
{
}

/// Filling a rectangle gives every pixel of it the colour, and leaves all others as they are.
pub proof fn law_rectangles_are_filled(
    frame: Seq<u16>,
    left: int,
    top: int,
    width: int,
    height: int,
    colour: u16,
    x: int,
    y: int,
)
    requires
        frame.len() == 12_800,
        0 <= x < 160,
        0 <= y < 80,
    ensures
        filled(frame, left, top, width, height, colour).len() == 12_800,
        filled(frame, left, top, width, height, colour)[y * 160 + x] == if left <= x < left + width
            && top <= y < top + height {
            colour
        } else {
            frame[y * 160 + x]
        },
{
    law_pixels_lie_row_by_row(x, y);
}

/// Writing a text gives the dots of its characters the colour, and leaves all other pixels as
/// they are. Each character takes six columns and seven rows; those that would not lie wholly on
/// the screen are left out.
pub proof fn law_texts_are_written_dot_by_dot(
    frame: Seq<u16>,
    left: int,
    top: int,
    text: Seq<char>,
    colour: u16,
    x: int,
    y: int,
)
    requires
        frame.len() == 12_800,
        0 <= left,
        0 <= x < 160,
        0 <= y < 80,
    ensures
        ({
            let i = (x - left) / 6;
            let bits = crate::glyph::glyph_rows(crate::glyph::capital(text[i]))[y - top];
            let dot = left <= x && top <= y < top + 7 && i < text.len() && left + 6 * i + 6 <= 160
                && (x - left) % 6 < 5 && bits / seq![16u8, 8, 4, 2, 1][(x - left) % 6] % 2 == 1;
            written(frame, left, top, text, colour)[y * 160 + x] == if dot {
                colour
            } else {
                frame[y * 160 + x]
            }
        }),
{
    law_pixels_lie_row_by_row(x, y);
    let i = (x - left) / 6;
    if left <= x {
        assert(left < 160);
        assert(left + 6 * i + 6 <= 160 <==> i < (160 - left) / 6);
    }
}

} // verus!
