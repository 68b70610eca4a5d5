use vstd::prelude::*;

verus! {

/// The properties that the firmware can be asked about over the mailbox.
#[derive(Debug, PartialEq, Eq, Copy, Clone, Structural)]
pub enum PropertyId {
    GetFirmwareRevision,
    GetBoardModel,
    GetBoardRevision,
    GetBoardMac,
    GetBoardSerial,
    GetArmMemory,
    GetVcMemory,
    GetClocks,
    GetCommandline,
    GetDmachannels,
    GetPowerstate,
    GetTiming,
    SetPowerState,
    GetClockState,
    SetClockState,
    GetClockRate,
    SetClockRate,
    GetMaxClockRate,
    GetMinClockRate,
    GetTurbo,
    SetTurbo,
    GetVoltage,
    SetVoltage,
    GetMaxVoltage,
    GetMinVoltage,
    GetTemperature,
    GetMaxtemperature,
    AllocateMemory,
    LockMemory,
    UnlockMemory,
    ReleaseMemory,
    ExecuteCode,
    GetDispmanxResourceMemHandle,
    GetEdidBlock,
    AllocateBuffer,
    ReleaseBuffer,
    BlankScreen,
    GetPhysicalWidthHeight,
    TestPhysicalWidthHeight,
    SetPhysicalWidthHeight,
    GetVirtualWidthHeight,
    TestVirtualWidthHeight,
    SetVirtualWidthHeight,
    GetDepth,
    TestDepth,
    SetDepth,
    GetPixelOrder,
    TestPixelOrder,
    SetPixelOrder,
    GetAlphaMode,
    TestAlphaMode,
    SetAlphaMode,
    GetPitch,
    GetVirtualOffset,
    TestVirtualOffset,
    SetVirtualOffset,
    GetOverscan,
    TestOverscan,
    SetOverscan,
    GetPalette,
    TestPalette,
    SetPalette,
    SetCursorInfo,
    SetCursorState,
    Unimplemented,
}

impl PropertyId {
    /// The identifier of the property in a message to the firmware.
    pub open spec fn code(self) -> u32 {
        match self {
            PropertyId::GetFirmwareRevision => 0x00000001,
            PropertyId::GetBoardModel => 0x00010001,
            PropertyId::GetBoardRevision => 0x00010002,
            PropertyId::GetBoardMac => 0x00010003,
            PropertyId::GetBoardSerial => 0x00010004,
            PropertyId::GetArmMemory => 0x00010005,
            PropertyId::GetVcMemory => 0x00010006,
            PropertyId::GetClocks => 0x00010007,
            PropertyId::GetCommandline => 0x00050001,
            PropertyId::GetDmachannels => 0x00060001,
            PropertyId::GetPowerstate => 0x00020001,
            PropertyId::GetTiming => 0x00020002,
            PropertyId::SetPowerState => 0x00028001,
            PropertyId::GetClockState => 0x00030001,
            PropertyId::SetClockState => 0x00038001,
            PropertyId::GetClockRate => 0x00030002,
            PropertyId::SetClockRate => 0x00038002,
            PropertyId::GetMaxClockRate => 0x00030004,
            PropertyId::GetMinClockRate => 0x00030007,
            PropertyId::GetTurbo => 0x00030009,
            PropertyId::SetTurbo => 0x00038009,
            PropertyId::GetVoltage => 0x00030003,
            PropertyId::SetVoltage => 0x00038003,
            PropertyId::GetMaxVoltage => 0x00030005,
            PropertyId::GetMinVoltage => 0x00030008,
            PropertyId::GetTemperature => 0x00030006,
            PropertyId::GetMaxtemperature => 0x0003000a,
            PropertyId::AllocateMemory => 0x0003000c,
            PropertyId::LockMemory => 0x0003000d,
            PropertyId::UnlockMemory => 0x0003000e,
            PropertyId::ReleaseMemory => 0x0003000f,
            PropertyId::ExecuteCode => 0x00030010,
            PropertyId::GetDispmanxResourceMemHandle => 0x00030014,
            PropertyId::GetEdidBlock => 0x00030020,
            PropertyId::AllocateBuffer => 0x00040001,
            PropertyId::ReleaseBuffer => 0x00048001,
            PropertyId::BlankScreen => 0x00040002,
            PropertyId::GetPhysicalWidthHeight => 0x00040003,
            PropertyId::TestPhysicalWidthHeight => 0x00044003,
            PropertyId::SetPhysicalWidthHeight => 0x00048003,
            PropertyId::GetVirtualWidthHeight => 0x00040004,
            PropertyId::TestVirtualWidthHeight => 0x00044004,
            PropertyId::SetVirtualWidthHeight => 0x00048004,
            PropertyId::GetDepth => 0x00040005,
            PropertyId::TestDepth => 0x00044005,
            PropertyId::SetDepth => 0x00048005,
            PropertyId::GetPixelOrder => 0x00040006,
            PropertyId::TestPixelOrder => 0x00044006,
            PropertyId::SetPixelOrder => 0x00048006,
            PropertyId::GetAlphaMode => 0x00040007,
            PropertyId::TestAlphaMode => 0x00044007,
            PropertyId::SetAlphaMode => 0x00048007,
            PropertyId::GetPitch => 0x00040008,
            PropertyId::GetVirtualOffset => 0x00040009,
            PropertyId::TestVirtualOffset => 0x00044009,
            PropertyId::SetVirtualOffset => 0x00048009,
            PropertyId::GetOverscan => 0x0004000a,
            PropertyId::TestOverscan => 0x0004400a,
            PropertyId::SetOverscan => 0x0004800a,
            PropertyId::GetPalette => 0x0004000b,
            PropertyId::TestPalette => 0x0004400b,
            PropertyId::SetPalette => 0x0004800b,
            PropertyId::SetCursorInfo => 0x00008010,
            PropertyId::SetCursorState => 0x00008011,
            PropertyId::Unimplemented => 0x00,
        }
    }

    /// Returns the identifier of the property in a message to the firmware.
    pub fn id(self) -> (code: u32)
        ensures
            code == self.code(),
    {
        match self {
            PropertyId::GetFirmwareRevision => 0x00000001,
            PropertyId::GetBoardModel => 0x00010001,
            PropertyId::GetBoardRevision => 0x00010002,
            PropertyId::GetBoardMac => 0x00010003,
            PropertyId::GetBoardSerial => 0x00010004,
            PropertyId::GetArmMemory => 0x00010005,
            PropertyId::GetVcMemory => 0x00010006,
            PropertyId::GetClocks => 0x00010007,
            PropertyId::GetCommandline => 0x00050001,
            PropertyId::GetDmachannels => 0x00060001,
            PropertyId::GetPowerstate => 0x00020001,
            PropertyId::GetTiming => 0x00020002,
            PropertyId::SetPowerState => 0x00028001,
            PropertyId::GetClockState => 0x00030001,
            PropertyId::SetClockState => 0x00038001,
            PropertyId::GetClockRate => 0x00030002,
            PropertyId::SetClockRate => 0x00038002,
            PropertyId::GetMaxClockRate => 0x00030004,
            PropertyId::GetMinClockRate => 0x00030007,
            PropertyId::GetTurbo => 0x00030009,
            PropertyId::SetTurbo => 0x00038009,
            PropertyId::GetVoltage => 0x00030003,
            PropertyId::SetVoltage => 0x00038003,
            PropertyId::GetMaxVoltage => 0x00030005,
            PropertyId::GetMinVoltage => 0x00030008,
            PropertyId::GetTemperature => 0x00030006,
            PropertyId::GetMaxtemperature => 0x0003000a,
            PropertyId::AllocateMemory => 0x0003000c,
            PropertyId::LockMemory => 0x0003000d,
            PropertyId::UnlockMemory => 0x0003000e,
            PropertyId::ReleaseMemory => 0x0003000f,
            PropertyId::ExecuteCode => 0x00030010,
            PropertyId::GetDispmanxResourceMemHandle => 0x00030014,
            PropertyId::GetEdidBlock => 0x00030020,
            PropertyId::AllocateBuffer => 0x00040001,
            PropertyId::ReleaseBuffer => 0x00048001,
            PropertyId::BlankScreen => 0x00040002,
            PropertyId::GetPhysicalWidthHeight => 0x00040003,
            PropertyId::TestPhysicalWidthHeight => 0x00044003,
            PropertyId::SetPhysicalWidthHeight => 0x00048003,
            PropertyId::GetVirtualWidthHeight => 0x00040004,
            PropertyId::TestVirtualWidthHeight => 0x00044004,
            PropertyId::SetVirtualWidthHeight => 0x00048004,
            PropertyId::GetDepth => 0x00040005,
            PropertyId::TestDepth => 0x00044005,
            PropertyId::SetDepth => 0x00048005,
            PropertyId::GetPixelOrder => 0x00040006,
            PropertyId::TestPixelOrder => 0x00044006,
            PropertyId::SetPixelOrder => 0x00048006,
            PropertyId::GetAlphaMode => 0x00040007,
            PropertyId::TestAlphaMode => 0x00044007,
            PropertyId::SetAlphaMode => 0x00048007,
            PropertyId::GetPitch => 0x00040008,
            PropertyId::GetVirtualOffset => 0x00040009,
            PropertyId::TestVirtualOffset => 0x00044009,
            PropertyId::SetVirtualOffset => 0x00048009,
            PropertyId::GetOverscan => 0x0004000a,
            PropertyId::TestOverscan => 0x0004400a,
            PropertyId::SetOverscan => 0x0004800a,
            PropertyId::GetPalette => 0x0004000b,
            PropertyId::TestPalette => 0x0004400b,
            PropertyId::SetPalette => 0x0004800b,
            PropertyId::SetCursorInfo => 0x00008010,
            PropertyId::SetCursorState => 0x00008011,
            PropertyId::Unimplemented => 0x00,
        }
    }
}

/// The number of value words that a tag has room for.
pub const DATA_WORDS: usize = 32;

/// The bytes of a tag before its values: identifier, length and type.
pub const HEADER_BYTES: usize = 0x0c;

/// The type of a tag that asks.
pub const REQUEST: u32 = 0x00;

/// Width in pixels of the screen that is asked for.
pub const SCREEN_WIDTH: u32 = 320;

/// Height in pixels of the screen that is asked for.
pub const SCREEN_HEIGHT: u32 = 240;

/// Bits of a pixel of the screen that is asked for.
pub const SCREEN_DEPTH: u32 = 24;

/// One tag of a message to or from the firmware: the identifier of a
/// property, the length of its values in bytes, the type of the tag, and the
/// values.
#[derive(Clone, Copy, Debug)]
pub struct PropertyTag {
    pub id: u32,
    pub byte_length: u32,
    pub tag_type: u32,
    pub data: [u32; 32],
}

/// The four bytes of `x`, lowest first.
pub open spec fn le_bytes(x: u32) -> Seq<u8> {
    seq![
        (x as int % 0x100) as u8,
        (x as int / 0x100 % 0x100) as u8,
        (x as int / 0x1_0000 % 0x100) as u8,
        (x as int / 0x100_0000) as u8,
    ]
}

/// The word whose four bytes, lowest first, stand in `bytes` from position
/// `at`.
pub open spec fn le_word(bytes: Seq<u8>, at: int) -> u32 {
    (bytes[at] + bytes[at + 1] * 0x100 + bytes[at + 2] * 0x1_0000 + bytes[at + 3] * 0x100_0000) as u32
}

/// The sequence `buffer` with `bytes` written over it from position `at`.
pub open spec fn overwritten(buffer: Seq<u8>, at: int, bytes: Seq<u8>) -> Seq<u8> {
    Seq::new(
        buffer.len(),
        |k: int|
            if at <= k < at + bytes.len() {
                bytes[k - at]
            } else {
                buffer[k]
            },
    )
}

/// A word read back from its own bytes is the word.
pub proof fn lemma_le_word_of_bytes(x: u32)
    ensures
        le_bytes(x).len() == 4,
        le_word(le_bytes(x), 0) == x,
{
    assert(x % 0x100 + (x / 0x100 % 0x100) * 0x100 + (x / 0x1_0000 % 0x100) * 0x1_0000 + (x
        / 0x100_0000) * 0x100_0000 == x) by (bit_vector);
    assert(x / 0x100_0000 < 0x100) by (bit_vector);
}

/// The bytes of a word that was read are the bytes it was read from.
pub proof fn lemma_le_bytes_of_word(bytes: Seq<u8>, at: int)
    requires
        0 <= at,
        at + 4 <= bytes.len(),
    ensures
        le_bytes(le_word(bytes, at)) == bytes.subrange(at, at + 4),
{
    let b0: u32 = bytes[at] as u32;
    let b1: u32 = bytes[at + 1] as u32;
    let b2: u32 = bytes[at + 2] as u32;
    let b3: u32 = bytes[at + 3] as u32;
    let word: u32 = le_word(bytes, at);
    assert(word == b0 + b1 * 0x100 + b2 * 0x1_0000 + b3 * 0x100_0000);
    assert(word % 0x100 == b0 && word / 0x100 % 0x100 == b1 && word / 0x1_0000 % 0x100 == b2
        && word / 0x100_0000 == b3) by (bit_vector)
        requires
            b0 < 0x100,
            b1 < 0x100,
            b2 < 0x100,
            b3 < 0x100,
            word == b0 + b1 * 0x100 + b2 * 0x1_0000 + b3 * 0x100_0000,
    ;
    assert(le_bytes(word) =~= bytes.subrange(at, at + 4));
}

/// Writes the four bytes of `i`, lowest first, into `buffer` from position
/// `at`.
pub fn u32_to_buffer(i: u32, buffer: &mut Vec<u8>, at: usize)
    requires
        at + 4 <= old(buffer)@.len(),
    ensures
        final(buffer)@ == overwritten(old(buffer)@, at as int, le_bytes(i)),
{
    let total: usize = buffer.len();
    assert(i >> 24 == i / 0x100_0000) by (bit_vector);
    assert((i >> 16) & 0xff == i / 0x1_0000 % 0x100) by (bit_vector);
    assert((i >> 8) & 0xff == i / 0x100 % 0x100) by (bit_vector);
    assert(i & 0xff == i % 0x100) by (bit_vector);
    buffer[at + 3] = (i >> 24) as u8;
    buffer[at + 2] = ((i >> 16) & 0xff) as u8;
    buffer[at + 1] = ((i >> 8) & 0xff) as u8;
    buffer[at] = (i & 0xff) as u8;
    assert(buffer@ =~= overwritten(old(buffer)@, at as int, le_bytes(i)));
}

/// Reads the word whose four bytes, lowest first, stand in `buffer` from
/// position `at`.
pub fn u32_from_buffer(buffer: &[u8], at: usize) -> (word: u32)
    requires
        at + 4 <= buffer@.len(),
    ensures
        word == le_word(buffer@, at as int),
{
    let total: usize = buffer.len();
    let b0: u32 = buffer[at] as u32;
    let b1: u32 = buffer[at + 1] as u32;
    let b2: u32 = buffer[at + 2] as u32;
    let b3: u32 = buffer[at + 3] as u32;
    assert((b3 << 24) | (b2 << 16) | (b1 << 8) | b0 == b0 + b1 * 0x100 + b2 * 0x1_0000 + b3
        * 0x100_0000) by (bit_vector)
        requires
            b0 < 0x100,
            b1 < 0x100,
            b2 < 0x100,
            b3 < 0x100,
    ;
    (b3 << 24) | (b2 << 16) | (b1 << 8) | b0
}

/// What a tag holds, as a mathematical value.
pub struct Tag {
    pub id: u32,
    pub byte_length: u32,
    pub tag_type: u32,
    pub data: Seq<u32>,
}

impl View for PropertyTag {
    type V = Tag;

    open spec fn view(&self) -> Tag {
        Tag {
            id: self.id,
            byte_length: self.byte_length,
            tag_type: self.tag_type,
            data: self.data@,
        }
    }
}

impl Tag {
    /// The number of value words of the tag: its length in bytes, in whole
    /// words.
    pub open spec fn words(self) -> int {
        self.byte_length as int / 4
    }

    /// The bytes of the first `count` value words.
    pub open spec fn payload(self, count: int) -> Seq<u8>
        decreases count,
    {
        if count <= 0 {
            Seq::empty()
        } else {
            self.payload(count - 1) + le_bytes(self.data[count - 1])
        }
    }

    /// The bytes of the identifier, the length and the type.
    pub open spec fn header(self) -> Seq<u8> {
        le_bytes(self.id) + le_bytes(self.byte_length) + le_bytes(self.tag_type)
    }

    /// The bytes of the tag in a message: identifier, length and type, then
    /// the value words, each as four bytes, lowest first.
    pub open spec fn encoded(self) -> Seq<u8> {
        self.header() + self.payload(self.words())
    }

    /// The tag with which the property `property_id` is asked for. The
    /// properties of the frame buffer have tags of their own; any other
    /// property has the tag of the property `Unimplemented`, without values.
    pub open spec fn request(property_id: PropertyId) -> Tag {
        match property_id {
            PropertyId::AllocateBuffer => Tag::asking(property_id, 8, 1, 0),
            PropertyId::SetPhysicalWidthHeight => Tag::asking(
                property_id,
                8,
                SCREEN_WIDTH,
                SCREEN_HEIGHT,
            ),
            PropertyId::SetVirtualWidthHeight => Tag::asking(
                property_id,
                8,
                SCREEN_WIDTH,
                SCREEN_HEIGHT,
            ),
            PropertyId::SetDepth => Tag::asking(property_id, 4, SCREEN_DEPTH, 0),
            PropertyId::GetPhysicalWidthHeight => Tag::asking(property_id, 8, 0, 0),
            PropertyId::GetPitch => Tag::asking(property_id, 4, 0, 0),
            PropertyId::GetDepth => Tag::asking(property_id, 4, 0, 0),
            _ => Tag::asking(PropertyId::Unimplemented, 0, 0, 0),
        }
    }

    /// The request for `property_id` with `byte_length` bytes of values, of
    /// which the first two words are `first` and `second` and all others
    /// zero.
    pub open spec fn asking(property_id: PropertyId, byte_length: u32, first: u32, second: u32) -> Tag {
        Tag {
            id: property_id.code(),
            byte_length,
            tag_type: REQUEST,
            data: Seq::new(
                DATA_WORDS as nat,
                |k: int|
                    if k == 0 {
                        first
                    } else if k == 1 {
                        second
                    } else {
                        0u32
                    },
            ),
        }
    }
}

impl Default for PropertyTag {
    /// The tag of the property `Unimplemented`, without values.
    fn default() -> (tag: PropertyTag)
        ensures
            tag@ == Tag::asking(PropertyId::Unimplemented, 0, 0, 0),
    {
        let tag = PropertyTag { id: 0, byte_length: 0, tag_type: 0, data: [0;32] };
        assert(tag@.data =~= Tag::asking(PropertyId::Unimplemented, 0, 0, 0).data);
        tag
    }
}

impl PropertyTag {
    /// Makes the tag with which the property `property_id` is asked for.
    pub fn new(property_id: PropertyId) -> (tag: PropertyTag)
        ensures
            tag@ == Tag::request(property_id),
    {
        let mut data: [u32; 32] = [0x00;32];
        let tag = match property_id {
            PropertyId::AllocateBuffer => {
                data[0] = 1;
                PropertyTag { id: property_id.id(), byte_length: 8, tag_type: REQUEST, data }
            },
            PropertyId::SetPhysicalWidthHeight => {
                data[0] = SCREEN_WIDTH;
                data[1] = SCREEN_HEIGHT;
                PropertyTag { id: property_id.id(), byte_length: 8, tag_type: REQUEST, data }
            },
            PropertyId::SetVirtualWidthHeight => {
                data[0] = SCREEN_WIDTH;
                data[1] = SCREEN_HEIGHT;
                PropertyTag { id: property_id.id(), byte_length: 8, tag_type: REQUEST, data }
            },
            PropertyId::SetDepth => {
                data[0] = SCREEN_DEPTH;
                PropertyTag { id: property_id.id(), byte_length: 4, tag_type: REQUEST, data }
            },
            PropertyId::GetPhysicalWidthHeight => {
                PropertyTag { id: property_id.id(), byte_length: 8, tag_type: REQUEST, data }
            },
            PropertyId::GetPitch => {
                PropertyTag { id: property_id.id(), byte_length: 4, tag_type: REQUEST, data }
            },
            PropertyId::GetDepth => {
                PropertyTag { id: property_id.id(), byte_length: 4, tag_type: REQUEST, data }
            },
            _ => {
                PropertyTag {
                    id: PropertyId::Unimplemented.id(),
                    byte_length: 0,
                    tag_type: REQUEST,
                    data,
                }
            },
        };
        assert(tag@.data =~= Tag::request(property_id).data);
        tag
    }

    /// Writes the tag into `buffer` from position `at` as it stands in a
    /// message, and returns the number of bytes written. The tag has no more
    /// value words than it has room for, and the buffer has room for the
    /// bytes.
    pub fn to_bytes(&self, buffer: &mut Vec<u8>, at: usize) -> (num_written: usize)
        requires
            self@.words() <= DATA_WORDS,
            at + HEADER_BYTES + 4 * self@.words() <= old(buffer)@.len(),
        ensures
            final(buffer)@ == overwritten(old(buffer)@, at as int, self@.encoded()),
            num_written == self@.encoded().len(),
            num_written == HEADER_BYTES + 4 * self@.words(),
    {
        let total: usize = buffer.len();
        let ghost initial = buffer@;
        let mut num_written: usize = 0;
        u32_to_buffer(self.id, buffer, at);
        num_written += 4;
        u32_to_buffer(self.byte_length, buffer, at + num_written);
        num_written += 4;
        u32_to_buffer(self.tag_type, buffer, at + num_written);
        num_written += 4;
        assert(buffer@ =~= overwritten(initial, at as int, self@.header()));
        let count: usize = (self.byte_length / 4) as usize;
        let mut i: usize = 0;
        while i < count
            invariant
                i <= count,
                count == self@.words(),
                count <= DATA_WORDS,
                total == initial.len(),
                at + HEADER_BYTES + 4 * count <= total,
                num_written == HEADER_BYTES + 4 * i,
                self@.payload(i as int).len() == 4 * i,
                buffer@ == overwritten(initial, at as int, self@.header() + self@.payload(i as int)),
            decreases count - i,
        {
            let ghost before = buffer@;
            u32_to_buffer(self.data[i], buffer, at + num_written);
            num_written += 4;
            i += 1;
            assert(buffer@ =~= overwritten(
                initial,
                at as int,
                self@.header() + self@.payload(i as int),
            ));
        }
        num_written
    }

    /// Returns the number of bytes that the tag takes in a message by its
    /// length field: that many bytes of values behind the header.
    pub fn length(&self) -> (bytes: usize)
        requires
            self.byte_length + HEADER_BYTES <= usize::MAX,
        ensures
            bytes == self.byte_length + HEADER_BYTES,
    {
        self.byte_length as usize + HEADER_BYTES
    }

    /// Whether a tag can be read from `buffer` at position `at`: the header
    /// lies within the buffer, and so do the value words that its length
    /// field announces, which are no more than a tag has room for.
    pub open spec fn readable(buffer: Seq<u8>, at: int) -> bool {
        &&& 0 <= at
        &&& at + HEADER_BYTES <= buffer.len()
        &&& le_word(buffer, at + 4) as int / 4 <= DATA_WORDS
        &&& at + HEADER_BYTES + 4 * (le_word(buffer, at + 4) as int / 4) <= buffer.len()
    }

    /// The tag that stands in `buffer` at position `at`. The value words
    /// behind those that the length field announces are zero.
    pub open spec fn decoded(buffer: Seq<u8>, at: int) -> Tag {
        let byte_length = le_word(buffer, at + 4);
        Tag {
            id: le_word(buffer, at),
            byte_length,
            tag_type: le_word(buffer, at + 8),
            data: Seq::new(
                DATA_WORDS as nat,
                |k: int|
                    if k < byte_length as int / 4 {
                        le_word(buffer, at + HEADER_BYTES + 4 * k)
                    } else {
                        0u32
                    },
            ),
        }
    }

    /// Tells whether a tag can be read from `buffer` at position `at`.
    pub fn can_read(buffer: &[u8], at: usize) -> (readable: bool)
        ensures
            readable == PropertyTag::readable(buffer@, at as int),
    {
        let total: usize = buffer.len();
        if total < HEADER_BYTES || at > total - HEADER_BYTES {
            return false;
        }
        let count: usize = (u32_from_buffer(buffer, at + 4) / 4) as usize;
        count <= DATA_WORDS && 4 * count <= total - HEADER_BYTES - at
    }

    /// Reads the tag that stands in `buffer` at position `at`.
    pub fn from_bytes(buffer: &[u8], at: usize) -> (tag: PropertyTag)
        requires
            PropertyTag::readable(buffer@, at as int),
        ensures
            tag@ == PropertyTag::decoded(buffer@, at as int),
    {
        let total: usize = buffer.len();
        let mut num_read: usize = 0;
        let id = u32_from_buffer(buffer, at + num_read);
        num_read += 4;
        let byte_length = u32_from_buffer(buffer, at + num_read);
        num_read += 4;
        let tag_type = u32_from_buffer(buffer, at + num_read);
        num_read += 4;
        let mut data: [u32; 32] = [0x00;32];
        let count: usize = (byte_length / 4) as usize;
        let mut i: usize = 0;
        while i < count
            invariant
                i <= count,
                count == byte_length as int / 4,
                count <= DATA_WORDS,
                total == buffer@.len(),
                at + HEADER_BYTES + 4 * count <= total,
                num_read == HEADER_BYTES + 4 * i,
                forall|k: int|
                    0 <= k < DATA_WORDS ==> #[trigger] data@[k] == if k < i {
                        le_word(buffer@, at + HEADER_BYTES + 4 * k)
                    } else {
                        0u32
                    },
            decreases count - i,
        {
            data[i] = u32_from_buffer(buffer, at + num_read);
            num_read += 4;
            i += 1;
        }
        let tag = PropertyTag { id, byte_length, tag_type, data };
        assert(tag@.data =~= PropertyTag::decoded(buffer@, at as int).data);
        tag
    }
}

/// The value words take four bytes each, and word `k` stands at byte `4 * k`
/// of the payload.
pub proof fn lemma_payload(tag: Tag, count: int, k: int)
    requires
        0 <= k < count,
    ensures
        tag.payload(count).len() == 4 * count,
        tag.payload(count).subrange(4 * k, 4 * k + 4) == le_bytes(tag.data[k]),
        le_word(tag.payload(count), 4 * k) == tag.data[k],
    decreases count,
{
    lemma_payload_len(tag, count);
    lemma_payload_len(tag, count - 1);
    if k == count - 1 {
        assert(tag.payload(count).subrange(4 * k, 4 * k + 4) =~= le_bytes(tag.data[k]));
    } else {
        lemma_payload(tag, count - 1, k);
        assert(tag.payload(count).subrange(4 * k, 4 * k + 4) =~= tag.payload(count - 1).subrange(
            4 * k,
            4 * k + 4,
        ));
    }
    lemma_le_word_of_bytes(tag.data[k]);
    let bytes = le_bytes(tag.data[k]);
    let part = tag.payload(count).subrange(4 * k, 4 * k + 4);
    assert(part[0] == tag.payload(count)[4 * k]);
    assert(part[1] == tag.payload(count)[4 * k + 1]);
    assert(part[2] == tag.payload(count)[4 * k + 2]);
    assert(part[3] == tag.payload(count)[4 * k + 3]);
}

/// The value words take four bytes each.
pub proof fn lemma_payload_len(tag: Tag, count: int)
    ensures
        tag.payload(count).len() == if count <= 0 {
            0
        } else {
            4 * count
        },
    decreases count,
{
    if count > 0 {
        lemma_payload_len(tag, count - 1);
    }
}

/// A tag that was written into a buffer can be read back from where it
/// stands, and is the tag that was written, as long as it has no more value
/// words than it has room for and those behind its length are zero.
pub proof fn lemma_read_what_was_written(tag: Tag, buffer: Seq<u8>, at: int)
    requires
        0 <= at,
        tag.words() <= DATA_WORDS,
        tag.data.len() == DATA_WORDS,
        forall|k: int| tag.words() <= k < DATA_WORDS ==> tag.data[k] == 0,
        at + tag.encoded().len() <= buffer.len(),
    ensures
        PropertyTag::readable(overwritten(buffer, at, tag.encoded()), at),
        PropertyTag::decoded(overwritten(buffer, at, tag.encoded()), at) == tag,
{
    let written = overwritten(buffer, at, tag.encoded());
    let encoded = tag.encoded();
    lemma_payload_len(tag, tag.words());
    lemma_le_word_of_bytes(tag.id);
    lemma_le_word_of_bytes(tag.byte_length);
    lemma_le_word_of_bytes(tag.tag_type);
    assert(encoded.len() == HEADER_BYTES + 4 * tag.words());
    assert forall|j: int| 0 <= j < encoded.len() implies written[at + j] == encoded[j] by {}
    assert(le_word(written, at) == tag.id) by {
        assert(encoded[0] == le_bytes(tag.id)[0]);
        assert(encoded[1] == le_bytes(tag.id)[1]);
        assert(encoded[2] == le_bytes(tag.id)[2]);
        assert(encoded[3] == le_bytes(tag.id)[3]);
    }
    assert(le_word(written, at + 4) == tag.byte_length) by {
        assert(encoded[4] == le_bytes(tag.byte_length)[0]);
        assert(encoded[5] == le_bytes(tag.byte_length)[1]);
        assert(encoded[6] == le_bytes(tag.byte_length)[2]);
        assert(encoded[7] == le_bytes(tag.byte_length)[3]);
    }
    assert(le_word(written, at + 8) == tag.tag_type) by {
        assert(encoded[8] == le_bytes(tag.tag_type)[0]);
        assert(encoded[9] == le_bytes(tag.tag_type)[1]);
        assert(encoded[10] == le_bytes(tag.tag_type)[2]);
        assert(encoded[11] == le_bytes(tag.tag_type)[3]);
    }
    let decoded = PropertyTag::decoded(written, at);
    assert forall|k: int| 0 <= k < DATA_WORDS implies decoded.data[k] == tag.data[k] by {
        if k < tag.words() {
            lemma_payload(tag, tag.words(), k);
            let payload = tag.payload(tag.words());
            let from = at + HEADER_BYTES + 4 * k;
            assert(written[from] == encoded[HEADER_BYTES + 4 * k]);
            assert(written[from + 1] == encoded[HEADER_BYTES + 4 * k + 1]);
            assert(written[from + 2] == encoded[HEADER_BYTES + 4 * k + 2]);
            assert(written[from + 3] == encoded[HEADER_BYTES + 4 * k + 3]);
            assert(encoded[HEADER_BYTES + 4 * k] == payload[4 * k]);
            assert(encoded[HEADER_BYTES + 4 * k + 1] == payload[4 * k + 1]);
            assert(encoded[HEADER_BYTES + 4 * k + 2] == payload[4 * k + 2]);
            assert(encoded[HEADER_BYTES + 4 * k + 3] == payload[4 * k + 3]);
        }
    }
    assert(decoded.data =~= tag.data);
}

} // verus!
