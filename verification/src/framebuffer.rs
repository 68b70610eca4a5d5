use vstd::prelude::*;
use crate::propertytag::PropertyTag;

verus! {

/// A colour, by its red, green and blue parts.
#[derive(Clone, Copy, Debug, PartialEq, Eq, Structural)]
pub struct Color {
    pub red: u8,
    pub green: u8,
    pub blue: u8,
}

impl Default for Color {
    /// White.
    fn default() -> (color: Color)
        ensures
            color == (Color { red: 0xff, green: 0xff, blue: 0xff }),
    {
        Color { red: 0xff, blue: 0xff, green: 0xff }
    }
}

/// A place on the screen, in pixels from its upper left corner.
#[derive(Clone, Copy, Debug, PartialEq, Eq, Structural)]
pub struct Position {
    pub x: usize,
    pub y: usize,
}

impl Default for Position {
    /// The place ten pixels right of and below the corner.
    fn default() -> (position: Position)
        ensures
            position == (Position { x: 10, y: 10 }),
    {
        Position { x: 10, y: 10 }
    }
}

/// A pixel: a colour at a place.
#[derive(Clone, Copy, Debug, PartialEq, Eq, Structural)]
pub struct Pixel {
    pub color: Color,
    pub position: Position,
}

impl Pixel {
    /// The pixel with which drawing begins: white, ten pixels right of and
    /// below the corner of the screen.
    pub open spec fn default_spec() -> Pixel {
        Pixel {
            color: Color { red: 0xff, green: 0xff, blue: 0xff },
            position: Position { x: 10, y: 10 },
        }
    }
}

impl Default for Pixel {
    /// A white pixel at the default place.
    fn default() -> (pixel: Pixel)
        ensures
            pixel == Pixel::default_spec(),
    {
        Pixel { color: Color::default(), position: Position::default() }
    }
}

/// The bytes of a pixel in the frame buffer.
pub const BYTES_PER_PIXEL: usize = 3;

/// The bus address at which the graphics processor sees the beginning of
/// memory.
pub const BUS_OFFSET: u32 = 0xc000_0000;

/// The tags of the answer that describes the frame buffer.
pub const ANSWER_TAGS: usize = 4;

/// The frame buffer that the firmware set up: the address and the size in
/// bytes of its memory, and the width and height of the screen in pixels.
#[derive(Clone, Copy, Debug, PartialEq, Eq, Structural)]
pub struct Framebuffer {
    pub base: u32,
    pub size: usize,
    pub width: usize,
    pub height: usize,
}

impl Framebuffer {
    /// The frame buffer that the last four tags of an answer describe: the
    /// size of the screen, then two tags that are not read, then the
    /// allocated memory. There is none where the memory does not lie at or
    /// above the bus offset.
    pub open spec fn described(tags: Seq<PropertyTag>) -> Option<Framebuffer> {
        if tags.len() < ANSWER_TAGS {
            None
        } else {
            let screen = tags[tags.len() - 4];
            let memory = tags[tags.len() - 1];
            if memory.data@[0] < BUS_OFFSET {
                None
            } else {
                Some(
                    Framebuffer {
                        base: (memory.data@[0] - BUS_OFFSET) as u32,
                        size: memory.data@[1] as usize,
                        width: screen.data@[0] as usize,
                        height: screen.data@[1] as usize,
                    },
                )
            }
        }
    }

    /// Reads the frame buffer off the tags with which the firmware answered
    /// the request for a screen, in the order of the request: physical size,
    /// virtual size, depth, and allocation.
    pub fn new(tags: &Vec<PropertyTag>) -> (framebuffer: Option<Framebuffer>)
        ensures
            framebuffer == Framebuffer::described(tags@),
    {
        let count: usize = tags.len();
        if count < ANSWER_TAGS {
            return None;
        }
        let allocate_buffer_tag = &tags[count - 1];
        let physical_width_height_tag = &tags[count - 4];
        let address: u32 = allocate_buffer_tag.data[0];
        if address < BUS_OFFSET {
            return None;
        }
        Some(
            Framebuffer {
                base: address - BUS_OFFSET,
                size: allocate_buffer_tag.data[1] as usize,
                width: physical_width_height_tag.data[0] as usize,
                height: physical_width_height_tag.data[1] as usize,
            },
        )
    }

    /// The position in the memory of the frame buffer of the first byte of
    /// the pixel at `position`, where the three bytes of the pixel lie within
    /// the memory. Rows follow one another without gaps.
    pub open spec fn offset(self, position: Position) -> Option<usize> {
        let index = (position.y * self.width + position.x) * BYTES_PER_PIXEL;
        if index + BYTES_PER_PIXEL <= self.size {
            Some(index as usize)
        } else {
            None
        }
    }

    /// Returns the position in memory of the first of the three bytes of
    /// `pixel`, which hold its blue, green and red parts in this order, or
    /// `None` where the pixel lies outside the memory.
    pub fn draw_pixel(&self, pixel: &Pixel) -> (index: Option<usize>)
        ensures
            index == self.offset(pixel.position),
    {
        let ghost exact = (pixel.position.y * self.width + pixel.position.x) * BYTES_PER_PIXEL;
        if self.size < BYTES_PER_PIXEL {
            return None;
        }
        let last: usize = (self.size - BYTES_PER_PIXEL) / BYTES_PER_PIXEL;
        // The pixel fits if and only if its number is at most `last`.
        let x: usize = pixel.position.x;
        let y: usize = pixel.position.y;
        if x > last {
            return None;
        }
        if y != 0 && self.width > (last - x) / y {
            proof {
                assert(y * self.width + x > last) by (nonlinear_arith)
                    requires
                        y > 0,
                        x <= last,
                        self.width > (last - x) / (y as int),
                ;
            }
            return None;
        }
        proof {
            assert(y * self.width + x <= last) by (nonlinear_arith)
                requires
                    x <= last,
                    y == 0 || self.width <= (last - x) / (y as int),
                    0 <= y,
                    0 <= self.width,
            ;
        }
        let number: usize = y * self.width + x;
        Some(number * BYTES_PER_PIXEL)
    }
}

} // verus!
