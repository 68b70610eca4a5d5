use vstd::prelude::*;
use crate::propertytag::{
    le_bytes, le_word, lemma_payload_len, overwritten, u32_from_buffer, u32_to_buffer, PropertyTag,
    Tag, DATA_WORDS, HEADER_BYTES,
};

verus! {

/// The bytes of the buffer through which messages of tags pass to the
/// firmware and back.
pub const BUFFER_BYTES: usize = 1 << 10;

/// The bytes of a message before its tags: its size and its code.
pub const MESSAGE_HEADER: usize = 8;

/// The code of a message that asks.
pub const REQUEST_CODE: u32 = 0;

/// The word that ends the tags of a message.
pub const END_TAG: u32 = 0;

/// What the tags of `tags` hold.
pub open spec fn views(tags: Seq<PropertyTag>) -> Seq<Tag> {
    Seq::new(tags.len(), |i: int| tags[i]@)
}

/// The bytes of the tags of a message, one behind the other.
#[verifier::opaque]
pub open spec fn body(tags: Seq<Tag>) -> Seq<u8>
    decreases tags.len(),
{
    if tags.len() == 0 {
        Seq::empty()
    } else {
        body(tags.drop_last()) + tags.last().encoded()
    }
}

/// Whether a message with the tags `tags` can be written into a buffer of
/// `capacity` bytes: no tag has more value words than it has room for, and
/// the message is no longer than the buffer.
pub open spec fn writable(tags: Seq<Tag>, capacity: int) -> bool {
    &&& forall|i: int| 0 <= i < tags.len() ==> (#[trigger] tags[i]).words() <= DATA_WORDS
    &&& MESSAGE_HEADER + body(tags).len() + 4 <= capacity
    &&& capacity <= u32::MAX
}

/// The message that asks for the tags `tags`: its size in bytes, the code of
/// a request, the tags, and the end tag.
pub open spec fn request(tags: Seq<Tag>) -> Seq<u8> {
    le_bytes((MESSAGE_HEADER + body(tags).len() + 4) as u32) + le_bytes(REQUEST_CODE) + body(tags)
        + le_bytes(END_TAG)
}

/// A longer list of tags has no shorter a body.
pub proof fn lemma_body_grows(tags: Seq<Tag>, i: int)
    requires
        0 <= i <= tags.len(),
    ensures
        body(tags.take(i)).len() <= body(tags).len(),
    decreases tags.len() - i,
{
    reveal(body);
    if i < tags.len() {
        lemma_body_grows(tags, i + 1);
        assert(tags.take(i + 1).drop_last() == tags.take(i));
    } else {
        assert(tags.take(i) == tags);
    }
}

/// The body of the first `i + 1` tags is the body of the first `i` with tag
/// `i` behind it, which takes its header and four bytes for each value word.
pub proof fn lemma_body_step(tags: Seq<Tag>, i: int)
    requires
        0 <= i < tags.len(),
    ensures
        body(tags.take(i + 1)) == body(tags.take(i)) + tags[i].encoded(),
        tags[i].encoded().len() == HEADER_BYTES + 4 * tags[i].words(),
        body(tags.take(i + 1)).len() == body(tags.take(i)).len() + HEADER_BYTES + 4
            * tags[i].words(),
        body(tags.take(i + 1)).len() <= body(tags).len(),
{
    reveal(body);
    assert(tags.take(i + 1).drop_last() == tags.take(i));
    assert(tags.take(i + 1).last() == tags[i]);
    lemma_payload_len(tags[i], tags[i].words());
    assert(tags[i].header().len() == HEADER_BYTES);
    lemma_body_grows(tags, i + 1);
}

/// Writes the message that asks for `tags` into `buffer`, from its first
/// byte, and returns the size of the message. Nothing is written, and `None`
/// is returned, where the message cannot be written into the buffer.
pub fn write_request(tags: &Vec<PropertyTag>, buffer: &mut Vec<u8>) -> (size: Option<usize>)
    ensures
        size is Some <==> writable(views(tags@), old(buffer)@.len() as int),
        size is None ==> final(buffer)@ == old(buffer)@,
        size matches Some(bytes) ==> {
            &&& final(buffer)@ == overwritten(old(buffer)@, 0, request(views(tags@)))
            &&& bytes == request(views(tags@)).len()
        },
{
    let capacity: usize = buffer.len();
    let ghost asked = views(tags@);
    let ghost initial = buffer@;
    if capacity < MESSAGE_HEADER + 4 || capacity > u32::MAX as usize {
        return None;
    }
    // Measure first, so that a message that does not fit leaves the buffer alone.
    let mut needed: usize = MESSAGE_HEADER;
    let mut i: usize = 0;
    proof {
        reveal(body);
        assert(asked.take(0) == Seq::<Tag>::empty());
        assert(body(asked.take(0)).len() == 0);
    }
    while i < tags.len()
        invariant
            i <= tags@.len(),
            asked == views(tags@),
            capacity == initial.len(),
            buffer@ == initial,
            initial == old(buffer)@,
            MESSAGE_HEADER + 4 <= capacity,
            needed == MESSAGE_HEADER + body(asked.take(i as int)).len(),
            needed + 4 <= capacity,
            forall|k: int| 0 <= k < i ==> (#[trigger] asked[k]).words() <= DATA_WORDS,
        decreases tags@.len() - i,
    {
        let count: usize = (tags[i].byte_length / 4) as usize;
        proof {
            assert(asked[i as int] == tags@[i as int]@);
            lemma_body_step(asked, i as int);
        }
        if count > DATA_WORDS {
            assert(!writable(asked, capacity as int)) by {
                assert(asked[i as int].words() > DATA_WORDS);
            }
            return None;
        }
        let bytes: usize = HEADER_BYTES + 4 * count;
        if bytes > capacity - 4 - needed {
            assert(!writable(asked, capacity as int)) by {
                assert(body(asked).len() >= body(asked.take(i + 1)).len());
            }
            return None;
        }
        needed += bytes;
        i += 1;
    }
    proof {
        assert(asked.take(tags@.len() as int) == asked);
    }
    let mut index: usize = MESSAGE_HEADER;
    let mut i: usize = 0;
    assert(buffer@ =~= overwritten(initial, MESSAGE_HEADER as int, body(asked.take(0))));
    while i < tags.len()
        invariant
            i <= tags@.len(),
            asked == views(tags@),
            capacity == initial.len(),
            buffer@.len() == capacity,
            writable(asked, capacity as int),
            index == MESSAGE_HEADER + body(asked.take(i as int)).len(),
            buffer@ == overwritten(initial, MESSAGE_HEADER as int, body(asked.take(i as int))),
        decreases tags@.len() - i,
    {
        proof {
            assert(asked[i as int] == tags@[i as int]@);
            lemma_body_step(asked, i as int);
        }
        let written = tags[i].to_bytes(buffer, index);
        assert(buffer@ =~= overwritten(
            initial,
            MESSAGE_HEADER as int,
            body(asked.take(i + 1)),
        ));
        index += written;
        i += 1;
    }
    proof {
        assert(asked.take(tags@.len() as int) == asked);
    }
    u32_to_buffer(END_TAG, buffer, index);
    index += 4;
    u32_to_buffer(index as u32, buffer, 0);
    u32_to_buffer(REQUEST_CODE, buffer, 4);
    proof {
        let message = request(asked);
        assert(message.len() == index);
        assert(buffer@ =~= overwritten(initial, 0, message));
    }
    Some(index)
}

/// The tags that stand in `buffer` from position `at` up to the size `size`
/// of the message, each behind the one before it by the length that its
/// length field gives. The list ends where the size is reached or no tag can
/// be read.
pub open spec fn tags_from(buffer: Seq<u8>, at: int, size: int) -> Seq<Tag>
    decreases
            if 0 <= at <= buffer.len() {
                buffer.len() - at
            } else {
                0
            },
{
    if 0 <= at < size && PropertyTag::readable(buffer, at) {
        let tag = PropertyTag::decoded(buffer, at);
        seq![tag] + tags_from(buffer, at + HEADER_BYTES + tag.byte_length, size)
    } else {
        Seq::empty()
    }
}

/// The tags of the answer in `buffer` that a list with room for `capacity`
/// tags keeps: the first `capacity` tags of the message, without the last of
/// them, which is the end of the message and no tag.
pub open spec fn response(buffer: Seq<u8>, capacity: int) -> Seq<Tag> {
    if buffer.len() < MESSAGE_HEADER {
        Seq::empty()
    } else {
        let all = tags_from(buffer, MESSAGE_HEADER as int, le_word(buffer, 0) as int);
        let kept = if all.len() <= capacity {
            all
        } else {
            all.take(capacity)
        };
        if kept.len() == 0 {
            kept
        } else {
            kept.drop_last()
        }
    }
}

/// Reads the tags of the answer that the firmware left in `buffer` into a
/// list with room for `capacity` tags.
pub fn read_response(buffer: &[u8], capacity: usize) -> (tags: Vec<PropertyTag>)
    ensures
        views(tags@) == response(buffer@, capacity as int),
{
    let total: usize = buffer.len();
    let mut tags: Vec<PropertyTag> = Vec::new();
    if total < MESSAGE_HEADER {
        assert(views(tags@) =~= Seq::<Tag>::empty());
        return tags;
    }
    let buffer_size: usize = u32_from_buffer(buffer, 0) as usize;
    let ghost size = le_word(buffer@, 0) as int;
    let ghost all = tags_from(buffer@, MESSAGE_HEADER as int, size);
    let ghost mut seen: Seq<Tag> = Seq::empty();
    let mut bytes_read: usize = MESSAGE_HEADER;
    let mut done = false;
    while !done
        invariant
            total == buffer@.len(),
            MESSAGE_HEADER <= total,
            buffer_size == size,
            all == tags_from(buffer@, MESSAGE_HEADER as int, size),
            !done ==> bytes_read <= total,
            !done ==> all == seen + tags_from(buffer@, bytes_read as int, size),
            done ==> all == seen,
            tags@.len() <= capacity,
            tags@.len() <= seen.len(),
            views(tags@) == if seen.len() <= capacity {
                seen
            } else {
                seen.take(capacity as int)
            },
        decreases
                if done {
                    0
                } else {
                    total - bytes_read + 1
                },
    {
        if bytes_read < buffer_size && PropertyTag::can_read(buffer, bytes_read) {
            let tag = PropertyTag::from_bytes(buffer, bytes_read);
            let ghost before = views(tags@);
            let ghost rest = tags_from(
                buffer@,
                bytes_read + HEADER_BYTES + tag@.byte_length,
                size,
            );
            proof {
                assert(seen + (seq![tag@] + rest) =~= seen.push(tag@) + rest);
                seen = seen.push(tag@);
            }
            if tags.len() < capacity {
                tags.push(tag);
                assert(views(tags@) =~= before.push(tag@));
            }
            assert(views(tags@) =~= if seen.len() <= capacity {
                seen
            } else {
                seen.take(capacity as int)
            });
            if tag.byte_length as usize > total - HEADER_BYTES - bytes_read {
                assert(rest =~= Seq::<Tag>::empty());
                assert(seen + rest =~= seen);
                done = true;
            } else {
                bytes_read += HEADER_BYTES + tag.byte_length as usize;
            }
        } else {
            assert(seen + Seq::<Tag>::empty() =~= seen);
            done = true;
        }
    }
    let ghost kept = views(tags@);
    tags.pop();
    proof {
        if kept.len() > 0 {
            assert(views(tags@) =~= kept.drop_last());
        } else {
            assert(views(tags@) =~= kept);
        }
    }
    tags
}

/// A condition of the mailbox that its status register reports.
#[derive(Clone, Copy, Debug, PartialEq, Eq, Structural)]
pub enum Status {
    /// The mailbox takes no more mail.
    MailFull,
    /// The mailbox holds no mail.
    MailEmpty,
}

/// The channels of the mailbox.
#[derive(Clone, Copy, Debug, PartialEq, Eq, Structural)]
pub enum Channel {
    PowerManagement,
    Framebuffer,
    VirtualUART,
    VCHIQ,
    LED,
    Buttons,
    TouchScreen,
    Reserved,
    PropertyTagsARMTOVC,
    PropertyTagsVCTOARM,
}

/// The bits of a word of mail that name its channel.
pub const CHANNEL_BITS: u32 = 0xf;

impl Status {
    /// The bit of the status register that reports the condition.
    pub open spec fn bit(self) -> u32 {
        match self {
            Status::MailFull => 0x8000_0000,
            Status::MailEmpty => 0x4000_0000,
        }
    }

    /// Returns the bit of the status register that reports the condition.
    pub fn mask(self) -> (mask: u32)
        ensures
            mask == self.bit(),
    {
        match self {
            Status::MailFull => 0x8000_0000,
            Status::MailEmpty => 0x4000_0000,
        }
    }

    /// Tells whether the status register `register` reports the condition,
    /// in which case the mailbox has to be waited for.
    pub fn holds(self, register: u32) -> (held: bool)
        ensures
            held == (register & self.bit() == self.bit()),
    {
        let mask: u32 = self.mask();
        register & mask == mask
    }
}

impl Channel {
    /// The number of the channel.
    pub open spec fn index(self) -> u32 {
        match self {
            Channel::PowerManagement => 0,
            Channel::Framebuffer => 1,
            Channel::VirtualUART => 2,
            Channel::VCHIQ => 3,
            Channel::LED => 4,
            Channel::Buttons => 5,
            Channel::TouchScreen => 6,
            Channel::Reserved => 7,
            Channel::PropertyTagsARMTOVC => 8,
            Channel::PropertyTagsVCTOARM => 9,
        }
    }

    /// Returns the number of the channel.
    pub fn number(self) -> (number: u32)
        ensures
            number == self.index(),
            number <= CHANNEL_BITS,
    {
        match self {
            Channel::PowerManagement => 0,
            Channel::Framebuffer => 1,
            Channel::VirtualUART => 2,
            Channel::VCHIQ => 3,
            Channel::LED => 4,
            Channel::Buttons => 5,
            Channel::TouchScreen => 6,
            Channel::Reserved => 7,
            Channel::PropertyTagsARMTOVC => 8,
            Channel::PropertyTagsVCTOARM => 9,
        }
    }

    /// Returns the word that carries `data` on the channel: the data with
    /// the number of the channel in its low bits.
    pub fn outgoing(self, data: u32) -> (word: u32)
        ensures
            word == self.index() | data,
    {
        self.number() | data
    }

    /// Returns the data of the word `received` if the word came on the
    /// channel, which its low four bits tell: the word with those bits
    /// cleared. A word on another channel gives `None`.
    pub fn incoming(self, received: u32) -> (data: Option<u32>)
        ensures
            data == if received & CHANNEL_BITS == self.index() {
                Some(received & !CHANNEL_BITS)
            } else {
                None
            },
    {
        if received & CHANNEL_BITS == self.number() {
            Some(received & !CHANNEL_BITS)
        } else {
            None
        }
    }
}

/// Mail with aligned data comes back from the channel it was sent on with
/// the data it carried.
pub proof fn lemma_mail_round_trip(channel: Channel, data: u32)
    requires
        data & CHANNEL_BITS == 0,
    ensures
        (channel.index() | data) & CHANNEL_BITS == channel.index(),
        (channel.index() | data) & !CHANNEL_BITS == data,
{
    let number = channel.index();
    assert((number | data) & 0xf == number && (number | data) & !0xfu32 == data) by (bit_vector)
        requires
            data & 0xf == 0,
            number <= 0xf,
    ;
}

} // verus!
