use vstd::prelude::*;
use crate::framebuffer::{Color, Pixel, Position};

verus! {

/// The key that clears the screen.
pub const KEY_CLEAR: u8 = 0x1b;

/// The key that leaves the drawing mode.
pub const KEY_QUIT: u8 = 0x60;

/// The key that moves the cursor one pixel to the left.
pub const KEY_LEFT: u8 = 0x61;

/// The key that moves the cursor one pixel to the right.
pub const KEY_RIGHT: u8 = 0x64;

/// The key that moves the cursor one pixel down.
pub const KEY_DOWN: u8 = 0x73;

/// The key that moves the cursor one pixel up.
pub const KEY_UP: u8 = 0x77;

/// The key that makes the cursor redder.
pub const KEY_RED: u8 = 0x31;

/// The key that makes the cursor greener.
pub const KEY_GREEN: u8 = 0x32;

/// The key that makes the cursor bluer.
pub const KEY_BLUE: u8 = 0x33;

/// By how much a colour key changes its part of the colour.
pub const COLOR_STEP: u8 = 10;

/// What a key does to the screen in the drawing mode.
#[derive(Clone, Copy, Debug, PartialEq, Eq, Structural)]
pub enum Stroke {
    /// The drawing mode is left; nothing is drawn.
    Quit,
    /// The pixel is drawn, on a screen that is cleared first where `clear`
    /// says so.
    Draw { clear: bool, pixel: Pixel },
}

/// A coordinate one step on, around the end of its range.
pub open spec fn step_up(at: usize) -> usize {
    if at == usize::MAX {
        0
    } else {
        (at + 1) as usize
    }
}

/// A coordinate one step back, around the beginning of its range.
pub open spec fn step_down(at: usize) -> usize {
    if at == 0 {
        usize::MAX
    } else {
        (at - 1) as usize
    }
}

/// A part of a colour made stronger by one step, around the end of its
/// range.
pub open spec fn stronger(part: u8) -> u8 {
    ((part + COLOR_STEP) % 0x100) as u8
}

/// The cursor after the key `byte`: the arrow keys move it by one pixel,
/// the colour keys change one part of its colour, every other key leaves it
/// as it is.
pub open spec fn moved(cursor: Pixel, byte: u8) -> Pixel {
    let Pixel { color, position } = cursor;
    if byte == KEY_LEFT {
        Pixel { color, position: Position { x: step_down(position.x), ..position } }
    } else if byte == KEY_RIGHT {
        Pixel { color, position: Position { x: step_up(position.x), ..position } }
    } else if byte == KEY_DOWN {
        Pixel { color, position: Position { y: step_up(position.y), ..position } }
    } else if byte == KEY_UP {
        Pixel { color, position: Position { y: step_down(position.y), ..position } }
    } else if byte == KEY_RED {
        Pixel { color: Color { red: stronger(color.red), ..color }, position }
    } else if byte == KEY_GREEN {
        Pixel { color: Color { green: stronger(color.green), ..color }, position }
    } else if byte == KEY_BLUE {
        Pixel { color: Color { blue: stronger(color.blue), ..color }, position }
    } else {
        cursor
    }
}

/// What the key `byte` does with the cursor at `cursor`.
pub open spec fn stroke_of(cursor: Pixel, byte: u8) -> Stroke {
    if byte == KEY_QUIT {
        Stroke::Quit
    } else {
        Stroke::Draw { clear: byte == KEY_CLEAR, pixel: moved(cursor, byte) }
    }
}

/// Takes the key `byte` in the drawing mode: moves or colours the cursor and
/// tells what is to be drawn.
pub fn stroke(cursor: &mut Pixel, byte: u8) -> (done: Stroke)
    ensures
        done == stroke_of(*old(cursor), byte),
        *final(cursor) == if byte == KEY_QUIT {
            *old(cursor)
        } else {
            moved(*old(cursor), byte)
        },
{
    if byte == KEY_QUIT {
        return Stroke::Quit;
    }
    if byte == KEY_LEFT {
        cursor.position.x = cursor.position.x.wrapping_sub(1);
    }
    if byte == KEY_RIGHT {
        cursor.position.x = cursor.position.x.wrapping_add(1);
    }
    if byte == KEY_DOWN {
        cursor.position.y = cursor.position.y.wrapping_add(1);
    }
    if byte == KEY_UP {
        cursor.position.y = cursor.position.y.wrapping_sub(1);
    }
    if byte == KEY_RED {
        cursor.color.red = cursor.color.red.wrapping_add(COLOR_STEP);
    }
    if byte == KEY_GREEN {
        cursor.color.green = cursor.color.green.wrapping_add(COLOR_STEP);
    }
    if byte == KEY_BLUE {
        cursor.color.blue = cursor.color.blue.wrapping_add(COLOR_STEP);
    }
    Stroke::Draw { clear: byte == KEY_CLEAR, pixel: *cursor }
}

/// The cursor after the keys `keys`, from `cursor`.
pub open spec fn cursor_after(cursor: Pixel, keys: Seq<u8>) -> Pixel
    decreases keys.len(),
{
    if keys.len() == 0 {
        cursor
    } else {
        moved(cursor_after(cursor, keys.drop_last()), keys.last())
    }
}

/// The number of keys of `keys` before the first that leaves the drawing
/// mode, or all of them where none does.
pub open spec fn keys_drawn(keys: Seq<u8>) -> int
    decreases keys.len(),
{
    if keys.len() == 0 {
        0
    } else {
        let before = keys_drawn(keys.drop_last());
        if before == keys.len() - 1 && keys.last() != KEY_QUIT {
            before + 1
        } else {
            before
        }
    }
}

/// The keys before the first that leaves the drawing mode all draw.
pub proof fn lemma_keys_drawn(keys: Seq<u8>)
    ensures
        0 <= keys_drawn(keys) <= keys.len(),
        forall|k: int| 0 <= k < keys_drawn(keys) ==> keys[k] != KEY_QUIT,
        keys_drawn(keys) < keys.len() ==> keys[keys_drawn(keys)] == KEY_QUIT,
    decreases keys.len(),
{
    if keys.len() > 0 {
        lemma_keys_drawn(keys.drop_last());
        let before = keys_drawn(keys.drop_last());
        assert forall|k: int| 0 <= k < keys_drawn(keys) implies keys[k] != KEY_QUIT by {
            if k < keys.len() - 1 {
                assert(keys.drop_last()[k] == keys[k]);
            }
        }
        if before < keys.len() - 1 {
            assert(keys.drop_last()[before] == keys[before]);
        }
    }
}

/// Runs the drawing mode over the keys `keys`, from the default cursor, up
/// to the key that leaves the mode, and returns the pixels that are drawn,
/// each with the word whether the screen is cleared before it.
pub fn draw_loop(keys: &[u8]) -> (drawn: Vec<(bool, Pixel)>)
    ensures
        drawn@.len() == keys_drawn(keys@),
        forall|k: int|
            0 <= k < drawn@.len() ==> #[trigger] drawn@[k] == (
                keys@[k] == KEY_CLEAR,
                cursor_after(Pixel::default_spec(), keys@.take(k + 1)),
            ),
{
    let mut pixel_cursor: Pixel = Pixel::default();
    let mut drawn: Vec<(bool, Pixel)> = Vec::new();
    let mut i: usize = 0;
    proof {
        assert(keys@.take(0) == Seq::<u8>::empty());
    }
    while i < keys.len()
        invariant
            i <= keys@.len(),
            drawn@.len() == i,
            keys_drawn(keys@.take(i as int)) == i,
            pixel_cursor == cursor_after(Pixel::default_spec(), keys@.take(i as int)),
            forall|k: int|
                0 <= k < drawn@.len() ==> #[trigger] drawn@[k] == (
                    keys@[k] == KEY_CLEAR,
                    cursor_after(Pixel::default_spec(), keys@.take(k + 1)),
                ),
        decreases keys@.len() - i,
    {
        proof {
            assert(keys@.take(i + 1).drop_last() == keys@.take(i as int));
            assert(keys@.take(i + 1).last() == keys@[i as int]);
        }
        match stroke(&mut pixel_cursor, keys[i]) {
            Stroke::Quit => {
                proof {
                    lemma_quit_ends(keys@, i as int);
                }
                return drawn;
            },
            Stroke::Draw { clear, pixel } => {
                drawn.push((clear, pixel));
            },
        }
        i += 1;
    }
    proof {
        assert(keys@.take(keys@.len() as int) == keys@);
    }
    drawn
}

/// Nothing behind the key that leaves the drawing mode draws.
pub proof fn lemma_quit_ends(keys: Seq<u8>, i: int)
    requires
        0 <= i < keys.len(),
        keys_drawn(keys.take(i)) == i,
        keys[i] == KEY_QUIT,
    ensures
        keys_drawn(keys) == i,
    decreases keys.len() - i,
{
    lemma_quit_ends_at(keys, i, keys.len() as int);
    assert(keys.take(keys.len() as int) == keys);
}

/// However many keys follow the key that leaves the drawing mode, the keys
/// that draw are those before it.
proof fn lemma_quit_ends_at(keys: Seq<u8>, i: int, n: int)
    requires
        0 <= i < n <= keys.len(),
        keys_drawn(keys.take(i)) == i,
        keys[i] == KEY_QUIT,
    ensures
        keys_drawn(keys.take(n)) == i,
    decreases n,
{
    assert(keys.take(n).drop_last() == keys.take(n - 1));
    assert(keys.take(n).last() == keys[n - 1]);
    if n > i + 1 {
        lemma_quit_ends_at(keys, i, n - 1);
    }
}

} // verus!
