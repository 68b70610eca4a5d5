pub mod atag;

use vstd::prelude::*;
use vstd::slice::slice_subrange;
use vstd::string::StringSliceAdditionalSpecFns;
use vstd::utf8::valid_utf8;
use crate::propertytag::{le_word, u32_from_buffer};
use crate::text::utf8;

pub use self::atag::{Atag, Core, Mem};

verus! {

/// The identifier of the tag that ends the list.
pub const NONE: u32 = 0x0000_0000;

/// The identifier of the core tag.
pub const CORE: u32 = 0x5441_0001;

/// The identifier of a memory tag.
pub const MEM: u32 = 0x5441_0002;

/// The identifier of the command line tag.
pub const CMDLINE: u32 = 0x5441_0009;

/// The bytes of the header of a tag: its size in words and its identifier.
pub const TAG_HEADER: usize = 8;

/// The position of the first zero byte of `bytes` at or behind `from`, or
/// the length of `bytes` where there is none.
pub open spec fn text_end(bytes: Seq<u8>, from: int) -> int
    decreases bytes.len() - from,
{
    if from < 0 || from >= bytes.len() {
        bytes.len() as int
    } else if bytes[from] == 0 {
        from
    } else {
        text_end(bytes, from + 1)
    }
}

/// Whether a tag with a body of `body` bytes lies within `bytes` at `offset`.
pub open spec fn holds(bytes: Seq<u8>, offset: int, body: int) -> bool {
    0 <= offset && offset + TAG_HEADER + body <= bytes.len()
}

/// Whether `atag` is the tag that stands in `bytes` at `offset`, where a
/// header lies within the bytes there. A core tag has three words of body
/// and a memory tag two; the body of the command line is text that ends
/// before the first zero byte. A tag of another kind, and one whose body does
/// not lie within the bytes or is no text, is unknown.
pub open spec fn describes(bytes: Seq<u8>, offset: int, atag: Atag) -> bool {
    let tag = le_word(bytes, offset + 4);
    let body = offset + TAG_HEADER;
    if tag == NONE {
        atag is End
    } else if tag == CORE && holds(bytes, offset, 12) {
        atag matches Atag::Core(found) && found == (Core {
            flags: le_word(bytes, body),
            page_size: le_word(bytes, body + 4),
            root_dev: le_word(bytes, body + 8),
        })
    } else if tag == MEM && holds(bytes, offset, 8) {
        atag matches Atag::Mem(found) && found == (Mem {
            size: le_word(bytes, body),
            start: le_word(bytes, body + 4),
        })
    } else if tag == CMDLINE && valid_utf8(bytes.subrange(body, text_end(bytes, body))) {
        atag matches Atag::Cmd(text) && text.spec_bytes() == bytes.subrange(
            body,
            text_end(bytes, body),
        )
    } else {
        atag matches Atag::Unknown(id) && id == tag
    }
}

/// Where the tag behind the one at `offset` stands: as many words on as the
/// size of the tag says.
pub open spec fn following(bytes: Seq<u8>, offset: int) -> int {
    offset + 4 * le_word(bytes, offset)
}

/// Whether the tag at `offset` is the last to be read: it ends the list,
/// or has no size, or the tag behind it would stand outside what a machine
/// can address.
pub open spec fn last(bytes: Seq<u8>, offset: int) -> bool {
    le_word(bytes, offset + 4) == NONE || le_word(bytes, offset) == 0 || following(bytes, offset)
        > usize::MAX
}

/// An iterator over the tags that the firmware left in memory.
pub struct Atags<'a> {
    bytes: &'a [u8],
    offset: usize,
    finished: bool,
}

impl<'a> Atags<'a> {
    /// The memory that holds the tags.
    pub closed spec fn bytes(&self) -> Seq<u8> {
        self.bytes@
    }

    /// The position of the tag that is read next.
    pub closed spec fn offset(&self) -> usize {
        self.offset
    }

    /// Whether the last tag has been read.
    pub closed spec fn finished(&self) -> bool {
        self.finished
    }

    /// Returns an iterator over the tags in `bytes`, the first of which
    /// stands at the beginning.
    pub fn new(bytes: &'a [u8]) -> (atags: Atags<'a>)
        ensures
            atags.bytes() == bytes@,
            atags.offset() == 0,
            !atags.finished(),
    {
        Atags { bytes, offset: 0, finished: false }
    }

    /// Reads the next tag. The tag that ends the list is read as a tag, and
    /// is the last one: after it, and where no header lies within the memory
    /// any more, there is no next tag.
    pub fn next(&mut self) -> (atag: Option<Atag<'a>>)
        ensures
            final(self).bytes() == old(self).bytes(),
            atag is Some <==> !old(self).finished() && holds(
                old(self).bytes(),
                old(self).offset() as int,
                0,
            ),
            atag matches Some(found) ==> {
                &&& describes(old(self).bytes(), old(self).offset() as int, found)
                &&& final(self).finished() == last(old(self).bytes(), old(self).offset() as int)
                &&& !final(self).finished() ==> final(self).offset() == following(
                    old(self).bytes(),
                    old(self).offset() as int,
                )
            },
            atag is None ==> final(self).finished(),
    {
        if self.finished {
            return None;
        }
        let total: usize = self.bytes.len();
        if total < TAG_HEADER || self.offset > total - TAG_HEADER {
            self.finished = true;
            return None;
        }
        let at: usize = self.offset;
        let dwords: u32 = u32_from_buffer(self.bytes, at);
        let tag: u32 = u32_from_buffer(self.bytes, at + 4);
        let body: usize = at + TAG_HEADER;
        let room: usize = total - body;
        let found = if tag == NONE {
            Atag::End
        } else if tag == CORE && room >= 12 {
            Atag::Core(
                Core {
                    flags: u32_from_buffer(self.bytes, body),
                    page_size: u32_from_buffer(self.bytes, body + 4),
                    root_dev: u32_from_buffer(self.bytes, body + 8),
                },
            )
        } else if tag == MEM && room >= 8 {
            Atag::Mem(
                Mem {
                    size: u32_from_buffer(self.bytes, body),
                    start: u32_from_buffer(self.bytes, body + 4),
                },
            )
        } else if tag == CMDLINE {
            let end: usize = find_end(self.bytes, body);
            match utf8(slice_subrange(self.bytes, body, end)) {
                Some(text) => Atag::Cmd(text),
                None => Atag::Unknown(tag),
            }
        } else {
            Atag::Unknown(tag)
        };
        let dwords: usize = dwords as usize;
        if tag == NONE || dwords == 0 || dwords > (usize::MAX - at) / 4 {
            self.finished = true;
        } else {
            self.offset = at + 4 * dwords;
        }
        Some(found)
    }
}

/// Returns the position of the first zero byte of `bytes` at or behind
/// `from`, or the length of `bytes` where there is none.
pub fn find_end(bytes: &[u8], from: usize) -> (end: usize)
    requires
        from <= bytes@.len(),
    ensures
        end == text_end(bytes@, from as int),
        from <= end <= bytes@.len(),
        end < bytes@.len() ==> bytes@[end as int] == 0,
        forall|k: int| from <= k < end ==> #[trigger] bytes@[k] != 0,
{
    let mut cursor: usize = from;
    while cursor < bytes.len() && bytes[cursor] != 0
        invariant
            from <= cursor <= bytes@.len(),
            text_end(bytes@, from as int) == text_end(bytes@, cursor as int),
            forall|k: int| from <= k < cursor ==> #[trigger] bytes@[k] != 0,
        decreases bytes@.len() - cursor,
    {
        cursor += 1;
    }
    cursor
}

} // verus!
