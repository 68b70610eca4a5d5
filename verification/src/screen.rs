use vstd::prelude::*;
use crate::framebuffer::{Color, Pixel, Position};

verus! {

/// The dots in a row of a glyph.
pub const GLYPH_WIDTH: usize = 5;

/// The width of a character with the gap behind it, in dots.
pub const CELL_WIDTH: usize = 6;

/// The height of a line of text, in dots.
pub const LINE_HEIGHT: usize = 10;

/// The bit of a row of a glyph that stands for its leftmost dot.
pub const LEFT_DOT: u8 = 0b10000;

/// The character that begins a new line.
pub const LINE_FEED: u8 = 0x0a;

/// The character that returns to the beginning of the line.
pub const CARRIAGE_RETURN: u8 = 0x0d;

/// The screen as the text that is written to it sees it: the place of the
/// next character and the colour that is in use.
#[derive(Clone, Copy, Debug, PartialEq, Eq, Structural)]
pub struct Screen {
    pub position: Position,
    pub color: Color,
}

/// Whether dot `column` of the row `row` of a glyph is set. The leftmost
/// of the five dots is column zero.
pub open spec fn dot(row: u8, column: int) -> bool {
    (row as int / vstd::arithmetic::power2::pow2((4 - column) as nat) as int) % 2 == 1
}

/// The pixel in the corner of the square of dot `n` of a glyph that is
/// drawn at `origin` at the scale `scale`: the dots are counted row by row,
/// each row from the left, and each dot is a square of `scale` pixels a
/// side. A dot that is set has the colour `ink`, any other is white.
pub open spec fn corner(glyph: Seq<u8>, origin: Position, scale: usize, ink: Color, n: int) -> Pixel {
    let row = n / GLYPH_WIDTH as int;
    let column = n % GLYPH_WIDTH as int;
    Pixel {
        position: Position {
            x: origin.x.wrapping_add((column as usize).wrapping_mul(scale)),
            y: origin.y.wrapping_add((row as usize).wrapping_mul(scale)),
        },
        color: if dot(glyph[row], column) {
            ink
        } else {
            Color { red: 0xff, green: 0xff, blue: 0xff }
        },
    }
}

/// Pixel `m` of the square of `scale` pixels a side whose corner is
/// `corner`: the pixels are counted column by column, each from the top.
pub open spec fn square(corner: Pixel, scale: usize, m: int) -> Pixel {
    Pixel {
        position: Position {
            x: corner.position.x.wrapping_add((m / scale as int) as usize),
            y: corner.position.y.wrapping_add((m % scale as int) as usize),
        },
        color: corner.color,
    }
}

/// Tells whether dot `column` of the row `row` of a glyph is set.
pub fn has_dot(row: u8, column: u8) -> (set: bool)
    requires
        column < GLYPH_WIDTH,
    ensures
        set == dot(row, column as int),
{
    proof {
        vstd::arithmetic::power2::lemma2_to64();
        assert((row << column) & 0b10000 != 0 <==> (row as int / (if column == 0 {
            16int
        } else if column == 1 {
            8
        } else if column == 2 {
            4
        } else if column == 3 {
            2
        } else {
            1
        })) % 2 == 1) by (bit_vector)
            requires
                column < 5,
        ;
    }
    (row << column) & LEFT_DOT != 0
}

/// Returns the corners of the squares of the dots of `glyph`, drawn at
/// `origin` at the scale `scale` with the colour `ink`: five for each row
/// of the glyph, row by row from the top and each row from the left.
pub fn corners(glyph: &[u8], origin: Position, scale: usize, ink: Color) -> (cells: Vec<Pixel>)
    requires
        glyph@.len() * GLYPH_WIDTH <= usize::MAX,
    ensures
        cells@.len() == glyph@.len() * GLYPH_WIDTH,
        forall|n: int|
            0 <= n < cells@.len() ==> #[trigger] cells@[n] == corner(glyph@, origin, scale, ink, n),
{
    let mut cells: Vec<Pixel> = Vec::new();
    let mut r: usize = 0;
    while r < glyph.len()
        invariant
            r <= glyph@.len(),
            glyph@.len() * GLYPH_WIDTH <= usize::MAX,
            cells@.len() == r * GLYPH_WIDTH,
            forall|n: int|
                0 <= n < cells@.len() ==> #[trigger] cells@[n] == corner(
                    glyph@,
                    origin,
                    scale,
                    ink,
                    n,
                ),
        decreases glyph@.len() - r,
    {
        let row: u8 = glyph[r];
        let y: usize = origin.y.wrapping_add(r.wrapping_mul(scale));
        let mut i: u8 = 0;
        while i < 5
            invariant
                i <= 5,
                r < glyph@.len(),
                row == glyph@[r as int],
                y == origin.y.wrapping_add(r.wrapping_mul(scale)),
                glyph@.len() * GLYPH_WIDTH <= usize::MAX,
                cells@.len() == r * GLYPH_WIDTH + i,
                forall|n: int|
                    0 <= n < cells@.len() ==> #[trigger] cells@[n] == corner(
                        glyph@,
                        origin,
                        scale,
                        ink,
                        n,
                    ),
            decreases 5 - i,
        {
            let color = if has_dot(row, i) {
                ink
            } else {
                Color::default()
            };
            let x: usize = origin.x.wrapping_add((i as usize).wrapping_mul(scale));
            cells.push(Pixel { position: Position { x, y }, color });
            i += 1;
        }
        r += 1;
    }
    cells
}

/// Returns the pixels of the square of `scale` pixels a side whose corner is
/// `corner`, column by column and each from the top.
pub fn fill(corner: Pixel, scale: usize) -> (pixels: Vec<Pixel>)
    requires
        scale * scale <= usize::MAX,
    ensures
        pixels@.len() == scale * scale,
        forall|m: int| 0 <= m < pixels@.len() ==> #[trigger] pixels@[m] == square(corner, scale, m),
{
    let mut pixels: Vec<Pixel> = Vec::new();
    let mut j: usize = 0;
    while j < scale
        invariant
            j <= scale,
            scale * scale <= usize::MAX,
            pixels@.len() == j * scale,
            forall|m: int|
                0 <= m < pixels@.len() ==> #[trigger] pixels@[m] == square(corner, scale, m),
        decreases scale - j,
    {
        let mut k: usize = 0;
        while k < scale
            invariant
                k <= scale,
                j < scale,
                scale * scale <= usize::MAX,
                pixels@.len() == j * scale + k,
                forall|m: int|
                    0 <= m < pixels@.len() ==> #[trigger] pixels@[m] == square(corner, scale, m),
            decreases scale - k,
        {
            proof {
                vstd::arithmetic::div_mod::lemma_fundamental_div_mod_converse(
                    j * scale + k,
                    scale as int,
                    j as int,
                    k as int,
                );
            }
            pixels.push(
                Pixel {
                    position: Position {
                        x: corner.position.x.wrapping_add(j),
                        y: corner.position.y.wrapping_add(k),
                    },
                    color: corner.color,
                },
            );
            k += 1;
        }
        proof {
            assert(j * scale + scale == (j + 1) * scale) by (nonlinear_arith);
        }
        j += 1;
    }
    pixels
}

impl Screen {
    /// The screen before anything is written: the next character stands in
    /// the corner, and the colour is green.
    pub open spec fn blank() -> Screen {
        Screen {
            position: Position { x: 0, y: 0 },
            color: Color { red: 0x00, green: 0xff, blue: 0x00 },
        }
    }

    /// Creates a new instance of `Screen`.
    pub fn new() -> (screen: Screen)
        ensures
            screen == Screen::blank(),
    {
        Screen {
            position: Position { x: 0, y: 0 },
            color: Color { red: 0x00, green: 0xff, blue: 0x00 },
        }
    }

    /// Puts the next character where text begins on a cleared screen.
    pub fn clear(&mut self)
        ensures
            *final(self) == (Screen { position: Position { x: 10, y: 10 }, ..*old(self) }),
    {
        self.position = Position::default();
    }

    /// The place of the next character after a line has ended at the scale
    /// `scale`: one line down, at the left margin.
    pub open spec fn next_line(position: Position, scale: usize) -> Position {
        Position { x: 10, y: position.y.wrapping_add(LINE_HEIGHT.wrapping_mul(scale)) }
    }

    /// The place of the next character after a character with a glyph was
    /// drawn at `position`, on a screen of `width` by `height` pixels. A
    /// character that was drawn with less than a line of room below it sends
    /// the text back to the top. The place moves one character to the right,
    /// and past the right edge of the screen it moves to the beginning of the
    /// line below.
    pub open spec fn next_place(position: Position, scale: usize, width: usize, height: usize) -> Position {
        let line = LINE_HEIGHT.wrapping_mul(scale);
        let y = if position.y >= height.wrapping_sub(line) {
            0
        } else {
            position.y
        };
        let x = position.x.wrapping_add(CELL_WIDTH.wrapping_mul(scale));
        if x > width {
            Position { x: 0, y: y.wrapping_add(line) }
        } else {
            Position { x, y }
        }
    }

    /// Draws the character `c` at the scale `scale` on a screen of `width`
    /// by `height` pixels. `glyph` holds the rows of dots of the character,
    /// if it has any, and `ink` is the colour of its dots.
    ///
    /// The end of a line draws nothing and moves to the next line. A
    /// character without a glyph draws nothing and moves nowhere. Any other
    /// character is drawn where the next character stands, and the place
    /// moves on. The corners of the squares of its dots are returned.
    pub fn draw_char_scale(
        &mut self,
        c: u8,
        scale: usize,
        glyph: Option<&[u8]>,
        ink: Color,
        width: usize,
        height: usize,
    ) -> (cells: Vec<Pixel>)
        requires
            glyph matches Some(rows) ==> rows@.len() * GLYPH_WIDTH <= usize::MAX,
        ensures
            final(self).color == old(self).color,
            final(self).position == if c == CARRIAGE_RETURN || c == LINE_FEED {
                Screen::next_line(old(self).position, scale)
            } else if glyph is Some {
                Screen::next_place(old(self).position, scale, width, height)
            } else {
                old(self).position
            },
            c == CARRIAGE_RETURN || c == LINE_FEED || glyph is None ==> cells@.len() == 0,
            c != CARRIAGE_RETURN && c != LINE_FEED ==> match glyph {
                Some(rows) => {
                    &&& cells@.len() == rows@.len() * GLYPH_WIDTH
                    &&& forall|n: int|
                        0 <= n < cells@.len() ==> #[trigger] cells@[n] == corner(
                            rows@,
                            old(self).position,
                            scale,
                            ink,
                            n,
                        )
                },
                None => true,
            },
    {
        let line: usize = LINE_HEIGHT.wrapping_mul(scale);
        if c == CARRIAGE_RETURN || c == LINE_FEED {
            self.position.y = self.position.y.wrapping_add(line);
            let default_position: Position = Position::default();
            self.position.x = default_position.x;
            return Vec::new();
        }
        match glyph {
            Some(rows) => {
                let origin: Position = self.position;
                if origin.y >= height.wrapping_sub(line) {
                    self.position.y = 0;
                }
                let cells = corners(rows, origin, scale, ink);
                self.position.x = self.position.x.wrapping_add(CELL_WIDTH.wrapping_mul(scale));
                if self.position.x > width {
                    self.position.x = 0;
                    self.position.y = self.position.y.wrapping_add(line);
                }
                cells
            },
            None => Vec::new(),
        }
    }
}

} // verus!
