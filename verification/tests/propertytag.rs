use kernel::framebuffer::{Color, Framebuffer, Pixel, Position};
use kernel::mailbox::{read_response, write_request, Channel, Status, BUFFER_BYTES};
use kernel::propertytag::{u32_from_buffer, u32_to_buffer, PropertyId, PropertyTag};

#[test]
fn words_are_written_lowest_byte_first() {
    let mut buffer = vec![0xaau8; 8];
    u32_to_buffer(0x1234_5678, &mut buffer, 2);
    assert_eq!(buffer, vec![0xaa, 0xaa, 0x78, 0x56, 0x34, 0x12, 0xaa, 0xaa]);
    assert_eq!(u32_from_buffer(&buffer, 2), 0x1234_5678);
    assert_eq!(u32_from_buffer(&buffer, 0), 0x5678_aaaa);
    u32_to_buffer(0xffff_ffff, &mut buffer, 4);
    assert_eq!(u32_from_buffer(&buffer, 4), 0xffff_ffff);
}

#[test]
fn property_codes() {
    assert_eq!(PropertyId::GetFirmwareRevision.id(), 0x0000_0001);
    assert_eq!(PropertyId::AllocateBuffer.id(), 0x0004_0001);
    assert_eq!(PropertyId::SetPhysicalWidthHeight.id(), 0x0004_8003);
    assert_eq!(PropertyId::SetVirtualWidthHeight.id(), 0x0004_8004);
    assert_eq!(PropertyId::SetDepth.id(), 0x0004_8005);
    assert_eq!(PropertyId::GetPitch.id(), 0x0004_0008);
    assert_eq!(PropertyId::SetCursorState.id(), 0x0000_8011);
    assert_eq!(PropertyId::Unimplemented.id(), 0);
}

#[test]
fn requests_for_the_frame_buffer() {
    let tag = PropertyTag::new(PropertyId::AllocateBuffer);
    assert_eq!((tag.id, tag.byte_length, tag.tag_type), (0x0004_0001, 8, 0));
    assert_eq!(tag.data[0], 1);
    assert!(tag.data[1..].iter().all(|word| *word == 0));
    let tag = PropertyTag::new(PropertyId::SetPhysicalWidthHeight);
    assert_eq!((tag.id, tag.byte_length), (0x0004_8003, 8));
    assert_eq!((tag.data[0], tag.data[1]), (320, 240));
    let tag = PropertyTag::new(PropertyId::SetVirtualWidthHeight);
    assert_eq!((tag.data[0], tag.data[1], tag.data[2]), (320, 240, 0));
    let tag = PropertyTag::new(PropertyId::SetDepth);
    assert_eq!((tag.id, tag.byte_length, tag.data[0], tag.data[1]), (0x0004_8005, 4, 24, 0));
    let tag = PropertyTag::new(PropertyId::GetPhysicalWidthHeight);
    assert_eq!((tag.id, tag.byte_length, tag.data[0]), (0x0004_0003, 8, 0));
    let tag = PropertyTag::new(PropertyId::GetPitch);
    assert_eq!((tag.id, tag.byte_length), (0x0004_0008, 4));
    let tag = PropertyTag::new(PropertyId::GetDepth);
    assert_eq!((tag.id, tag.byte_length), (0x0004_0005, 4));
}

#[test]
fn other_properties_have_no_request() {
    for id in [PropertyId::GetBoardModel, PropertyId::SetTurbo, PropertyId::Unimplemented] {
        let tag = PropertyTag::new(id);
        assert_eq!((tag.id, tag.byte_length, tag.tag_type), (0, 0, 0));
        assert!(tag.data.iter().all(|word| *word == 0));
    }
    let tag = PropertyTag::default();
    assert_eq!((tag.id, tag.byte_length, tag.tag_type), (0, 0, 0));
}

#[test]
fn tag_to_bytes_and_back() {
    let mut tag = PropertyTag::new(PropertyId::SetPhysicalWidthHeight);
    tag.tag_type = 0x8000_0008;
    let mut buffer = vec![0x55u8; 32];
    assert_eq!(tag.to_bytes(&mut buffer, 4), 20);
    assert_eq!(tag.length(), 20);
    let expected: Vec<u8> = vec![
        0x55, 0x55, 0x55, 0x55, 0x03, 0x80, 0x04, 0x00, 8, 0, 0, 0, 0x08, 0, 0, 0x80, 0x40, 1, 0, 0,
        240, 0, 0, 0, 0x55, 0x55, 0x55, 0x55, 0x55, 0x55, 0x55, 0x55,
    ];
    assert_eq!(buffer, expected);
    assert!(PropertyTag::can_read(&buffer, 4));
    let back = PropertyTag::from_bytes(&buffer, 4);
    assert_eq!((back.id, back.byte_length, back.tag_type), (tag.id, 8, 0x8000_0008));
    assert_eq!(back.data, tag.data);
}

#[test]
fn length_counts_bytes_and_words_round_down() {
    let mut tag = PropertyTag::default();
    tag.byte_length = 7;
    tag.data[0] = 0xdead_beef;
    tag.data[1] = 0x1111_1111;
    assert_eq!(tag.length(), 19);
    let mut buffer = vec![0u8; 20];
    assert_eq!(tag.to_bytes(&mut buffer, 0), 16);
    assert_eq!(&buffer[12..], &[0xef, 0xbe, 0xad, 0xde, 0, 0, 0, 0]);
}

#[test]
fn tags_that_cannot_be_read() {
    assert!(!PropertyTag::can_read(&[0u8; 11], 0));
    assert!(PropertyTag::can_read(&[0u8; 12], 0));
    assert!(!PropertyTag::can_read(&[0u8; 12], 1));
    assert!(!PropertyTag::can_read(&[0u8; 12], usize::MAX));
    // Four bytes of values are announced and not there.
    let mut buffer = vec![0u8; 15];
    buffer[4] = 4;
    assert!(!PropertyTag::can_read(&buffer, 0));
    buffer.push(0);
    assert!(PropertyTag::can_read(&buffer, 0));
    // More words than a tag has room for.
    let mut buffer = vec![0u8; 1024];
    buffer[4] = 132;
    assert!(!PropertyTag::can_read(&buffer, 0));
    buffer[4] = 131;
    assert!(PropertyTag::can_read(&buffer, 0));
}

fn screen_request() -> Vec<PropertyTag> {
    vec![
        PropertyTag::new(PropertyId::SetPhysicalWidthHeight),
        PropertyTag::new(PropertyId::SetVirtualWidthHeight),
        PropertyTag::new(PropertyId::SetDepth),
        PropertyTag::new(PropertyId::AllocateBuffer),
    ]
}

#[test]
fn request_message() {
    let mut buffer = vec![0xeeu8; BUFFER_BYTES];
    let size = write_request(&screen_request(), &mut buffer);
    // Header, two tags of 20 bytes, one of 16, one of 20, and the end tag.
    assert_eq!(size, Some(8 + 20 + 20 + 16 + 20 + 4));
    assert_eq!(u32_from_buffer(&buffer, 0), 88);
    assert_eq!(u32_from_buffer(&buffer, 4), 0);
    assert_eq!(u32_from_buffer(&buffer, 8), 0x0004_8003);
    assert_eq!(u32_from_buffer(&buffer, 28), 0x0004_8004);
    assert_eq!(u32_from_buffer(&buffer, 48), 0x0004_8005);
    assert_eq!(u32_from_buffer(&buffer, 60), 24);
    assert_eq!(u32_from_buffer(&buffer, 64), 0x0004_0001);
    assert_eq!(u32_from_buffer(&buffer, 84), 0);
    assert!(buffer[88..].iter().all(|byte| *byte == 0xee));
}

#[test]
fn request_that_does_not_fit_leaves_the_buffer_alone() {
    let mut buffer = vec![0xeeu8; 87];
    assert_eq!(write_request(&screen_request(), &mut buffer), None);
    assert!(buffer.iter().all(|byte| *byte == 0xee));
    let mut buffer = vec![0xeeu8; 88];
    assert_eq!(write_request(&screen_request(), &mut buffer), Some(88));
    let mut wide = PropertyTag::default();
    wide.byte_length = 33 * 4;
    let mut buffer = vec![0u8; BUFFER_BYTES];
    assert_eq!(write_request(&vec![wide], &mut buffer), None);
    let mut buffer = vec![0u8; BUFFER_BYTES];
    assert_eq!(write_request(&Vec::new(), &mut buffer), Some(12));
    assert_eq!(u32_from_buffer(&buffer, 0), 12);
}

#[test]
fn response_gives_the_tags_back() {
    let mut buffer = vec![0u8; BUFFER_BYTES];
    write_request(&screen_request(), &mut buffer).unwrap();
    // The firmware answers in place.
    u32_to_buffer(0x8000_0000, &mut buffer, 4);
    u32_to_buffer(0xfe00_0000, &mut buffer, 64 + 12);
    u32_to_buffer(0x0003_8400, &mut buffer, 64 + 16);
    let tags = read_response(&buffer, 8);
    assert_eq!(tags.len(), 4);
    assert_eq!(tags[0].id, 0x0004_8003);
    assert_eq!(tags[2].data[0], 24);
    assert_eq!(tags[3].data[0], 0xfe00_0000);
    let framebuffer = Framebuffer::new(&tags).expect("four tags");
    assert_eq!(framebuffer.base, 0x3e00_0000);
    assert_eq!(framebuffer.size, 0x0003_8400);
    assert_eq!((framebuffer.width, framebuffer.height), (320, 240));
}

#[test]
fn response_keeps_no_more_tags_than_there_is_room_for() {
    let mut buffer = vec![0u8; BUFFER_BYTES];
    write_request(&screen_request(), &mut buffer).unwrap();
    // Of the five tags, the end tag among them, three are kept and the last is dropped.
    assert_eq!(read_response(&buffer, 3).len(), 2);
    assert_eq!(read_response(&buffer, 5).len(), 4);
    assert_eq!(read_response(&buffer, 0).len(), 0);
    assert_eq!(read_response(&[0u8; 7], 8).len(), 0);
    // A size of nothing gives no tags.
    assert_eq!(read_response(&[0u8; 64], 8).len(), 0);
}

#[test]
fn frame_buffer_needs_four_tags_and_a_bus_address() {
    let mut tags = screen_request();
    assert!(Framebuffer::new(&tags).is_none());
    tags[3].data[0] = 0xc000_0000;
    tags[3].data[1] = 100;
    let framebuffer = Framebuffer::new(&tags).unwrap();
    assert_eq!((framebuffer.base, framebuffer.size), (0, 100));
    tags.remove(0);
    assert!(Framebuffer::new(&tags).is_none());
}

#[test]
fn pixels_in_the_frame_buffer() {
    let framebuffer = Framebuffer { base: 0, size: 320 * 240 * 3, width: 320, height: 240 };
    let at = |x: usize, y: usize| {
        framebuffer.draw_pixel(&Pixel { color: Color::default(), position: Position { x, y } })
    };
    assert_eq!(at(0, 0), Some(0));
    assert_eq!(at(1, 0), Some(3));
    assert_eq!(at(0, 1), Some(960));
    assert_eq!(at(10, 10), Some(10 * 960 + 30));
    assert_eq!(at(319, 239), Some(320 * 240 * 3 - 3));
    assert_eq!(at(0, 240), None);
    assert_eq!(at(320, 239), None);
    assert_eq!(at(usize::MAX, usize::MAX), None);
    assert_eq!(at(0, usize::MAX / 2), None);
    let tiny = Framebuffer { base: 0, size: 2, width: 1, height: 1 };
    assert_eq!(tiny.draw_pixel(&Pixel::default()), None);
}

#[test]
fn defaults_of_the_drawing_types() {
    assert_eq!(Color::default(), Color { red: 0xff, green: 0xff, blue: 0xff });
    assert_eq!(Position::default(), Position { x: 10, y: 10 });
    assert_eq!(Pixel::default().position, Position { x: 10, y: 10 });
}

#[test]
fn mailbox_channels() {
    assert_eq!(Channel::PowerManagement.number(), 0);
    assert_eq!(Channel::Framebuffer.number(), 1);
    assert_eq!(Channel::PropertyTagsARMTOVC.number(), 8);
    assert_eq!(Channel::PropertyTagsVCTOARM.number(), 9);
    assert_eq!(Channel::PropertyTagsARMTOVC.outgoing(0x1230), 0x1238);
    assert_eq!(Channel::PropertyTagsARMTOVC.incoming(0x1238), Some(0x1230));
    assert_eq!(Channel::Framebuffer.incoming(0x1238), None);
    assert_eq!(Channel::PowerManagement.incoming(0xffff_fff0), Some(0xffff_fff0));
}

#[test]
fn mailbox_status() {
    assert_eq!(Status::MailFull.mask(), 1 << 31);
    assert_eq!(Status::MailEmpty.mask(), 1 << 30);
    assert!(Status::MailFull.holds(0x8000_0000));
    assert!(!Status::MailFull.holds(0x4000_0000));
    assert!(Status::MailEmpty.holds(0xc000_0001));
    assert!(!Status::MailEmpty.holds(0));
}
