use kernel::framebuffer::{Color, Pixel, Position};
use kernel::screen::{corners, fill, has_dot, Screen};

const WHITE: Color = Color { red: 0xff, green: 0xff, blue: 0xff };
const INK: Color = Color { red: 1, green: 2, blue: 3 };

#[test]
fn a_new_screen_writes_green_from_the_corner() {
    let screen = Screen::new();
    assert_eq!(screen.position, Position { x: 0, y: 0 });
    assert_eq!(screen.color, Color { red: 0, green: 0xff, blue: 0 });
}

#[test]
fn clearing_moves_to_the_margin() {
    let mut screen = Screen::new();
    screen.color = INK;
    screen.clear();
    assert_eq!(screen.position, Position { x: 10, y: 10 });
    assert_eq!(screen.color, INK);
}

#[test]
fn dots_of_a_row() {
    assert!(has_dot(0b10000, 0));
    assert!(!has_dot(0b10000, 1));
    assert!(has_dot(0b00001, 4));
    assert!(!has_dot(0b00001, 3));
    assert!(has_dot(0b01010, 1) && has_dot(0b01010, 3));
    assert!(!has_dot(0b01010, 0) && !has_dot(0b01010, 2) && !has_dot(0b01010, 4));
    // Bits above the five dots do not count.
    assert!(!has_dot(0b1110_0000, 0));
}

#[test]
fn corners_of_a_glyph() {
    let cells = corners(&[0b10001, 0b00100], Position { x: 100, y: 50 }, 3, INK);
    let expected: Vec<Pixel> = [
        (100, 50, INK),
        (103, 50, WHITE),
        (106, 50, WHITE),
        (109, 50, WHITE),
        (112, 50, INK),
        (100, 53, WHITE),
        (103, 53, WHITE),
        (106, 53, INK),
        (109, 53, WHITE),
        (112, 53, WHITE),
    ]
    .iter()
    .map(|(x, y, color)| Pixel { position: Position { x: *x, y: *y }, color: *color })
    .collect();
    assert_eq!(cells, expected);
    assert_eq!(corners(&[], Position { x: 0, y: 0 }, 1, INK).len(), 0);
}

#[test]
fn squares_are_filled_column_by_column() {
    let corner = Pixel { position: Position { x: 7, y: 9 }, color: INK };
    let pixels = fill(corner, 2);
    let places: Vec<(usize, usize)> = pixels.iter().map(|p| (p.position.x, p.position.y)).collect();
    assert_eq!(places, vec![(7, 9), (7, 10), (8, 9), (8, 10)]);
    assert!(pixels.iter().all(|p| p.color == INK));
    assert_eq!(fill(corner, 0).len(), 0);
    assert_eq!(fill(corner, 1), vec![corner]);
}

#[test]
fn line_ends_draw_nothing_and_move_down() {
    let mut screen = Screen::new();
    screen.position = Position { x: 77, y: 30 };
    let glyph = [0b11111u8; 7];
    assert_eq!(screen.draw_char_scale(0x0d, 2, Some(&glyph[..]), INK, 320, 240).len(), 0);
    assert_eq!(screen.position, Position { x: 10, y: 50 });
    assert_eq!(screen.draw_char_scale(0x0a, 1, None, INK, 320, 240).len(), 0);
    assert_eq!(screen.position, Position { x: 10, y: 60 });
}

#[test]
fn characters_without_a_glyph_are_skipped() {
    let mut screen = Screen::new();
    screen.position = Position { x: 77, y: 30 };
    assert_eq!(screen.draw_char_scale(1, 2, None, INK, 320, 240).len(), 0);
    assert_eq!(screen.position, Position { x: 77, y: 30 });
}

#[test]
fn characters_move_the_place_on() {
    let mut screen = Screen::new();
    screen.clear();
    let glyph = [0b11111u8; 7];
    let cells = screen.draw_char_scale(b'A', 5, Some(&glyph[..]), INK, 320, 240);
    assert_eq!(cells.len(), 35);
    assert_eq!(cells[0].position, Position { x: 10, y: 10 });
    assert_eq!(cells[34].position, Position { x: 30, y: 40 });
    assert_eq!(screen.position, Position { x: 40, y: 10 });
}

#[test]
fn past_the_right_edge_the_line_breaks() {
    let mut screen = Screen::new();
    screen.position = Position { x: 314, y: 20 };
    let glyph = [0u8; 7];
    screen.draw_char_scale(b'A', 1, Some(&glyph[..]), INK, 320, 240);
    assert_eq!(screen.position, Position { x: 320, y: 20 });
    screen.draw_char_scale(b'A', 1, Some(&glyph[..]), INK, 320, 240);
    assert_eq!(screen.position, Position { x: 0, y: 30 });
}

#[test]
fn near_the_bottom_the_text_returns_to_the_top() {
    let mut screen = Screen::new();
    screen.position = Position { x: 10, y: 230 };
    let glyph = [0b00100u8; 7];
    let cells = screen.draw_char_scale(b'A', 1, Some(&glyph[..]), INK, 320, 240);
    // The character itself is still drawn where the place was.
    assert_eq!(cells[0].position, Position { x: 10, y: 230 });
    assert_eq!(screen.position, Position { x: 16, y: 0 });
    screen.position = Position { x: 10, y: 229 };
    screen.draw_char_scale(b'A', 1, Some(&glyph[..]), INK, 320, 240);
    assert_eq!(screen.position, Position { x: 16, y: 229 });
}
