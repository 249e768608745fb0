use vga_buffer::Color;
use vga_buffer::ColorCode;
use vga_buffer::ScreenChar;
use vga_buffer::Writer;

const WIDTH: usize = 80;
const HEIGHT: usize = 25;

fn all_colors() -> Vec<(Color, u8)> {
    vec![
        (Color::Black, 0),
        (Color::Blue, 1),
        (Color::Green, 2),
        (Color::Cyan, 3),
        (Color::Red, 4),
        (Color::Magenta, 5),
        (Color::Brown, 6),
        (Color::LightGray, 7),
        (Color::DarkGray, 8),
        (Color::LightBlue, 9),
        (Color::LightGreen, 10),
        (Color::LightCyan, 11),
        (Color::LightRed, 12),
        (Color::Pink, 13),
        (Color::Yellow, 14),
        (Color::White, 15),
    ]
}

fn assert_blank(cell: ScreenChar, attr: ColorCode) {
    assert_eq!(cell.ascii_character, 0x20);
    assert_eq!(cell.color_code, attr);
}

#[test]
fn attribute_packing_all_pairs() {
    for &(fg, fg_code) in all_colors().iter() {
        for &(bg, bg_code) in all_colors().iter() {
            let attr = ColorCode::new(fg, bg);
            assert_eq!(attr.0 & 0x0f, fg_code);
            assert_eq!(attr.0 >> 4, bg_code);
            assert_eq!(attr.0, (bg_code << 4) | fg_code);
        }
    }
}

#[test]
fn attribute_exact_values() {
    assert_eq!(ColorCode::new(Color::LightGreen, Color::Black).0, 0x0a);
    assert_eq!(ColorCode::new(Color::White, Color::Blue).0, 0x1f);
    assert_eq!(ColorCode::new(Color::Yellow, Color::Red).0, 0x4e);
    assert_eq!(Color::Black.code(), 0);
    assert_eq!(Color::White.code(), 15);
}

#[test]
fn printable_bytes_pass_through() {
    for b in 0x20u8..=0x7e {
        let mut w = Writer::new(Color::LightGray, Color::Black);
        w.write_string(&[b]);
        assert_eq!(w.cell_at(HEIGHT - 1, 0).ascii_character, b);
        assert_eq!(w.cell_at(HEIGHT - 1, 0).color_code, w.attribute());
        assert_eq!(w.column(), 1);
    }
}

#[test]
fn unprintable_bytes_become_sentinel() {
    for b in [0x00u8, 0x01, 0x1f, 0x7f, 0x80, 0x9b, 0xff] {
        let mut w = Writer::new(Color::LightGray, Color::Black);
        w.write_string(&[b]);
        assert_eq!(w.cell_at(HEIGHT - 1, 0).ascii_character, 0xfe);
        assert_eq!(w.column(), 1);
    }
}

#[test]
fn newline_writes_no_glyph() {
    let mut w = Writer::new(Color::LightGray, Color::Black);
    w.write_string(b"\n");
    assert_eq!(w.column(), 0);
    for row in 0..HEIGHT {
        for col in 0..WIDTH {
            assert_blank(w.cell_at(row, col), w.attribute());
        }
    }
}

#[test]
fn full_row_wraps_with_one_scroll() {
    let mut w = Writer::new(Color::LightGray, Color::Black);
    for _ in 0..WIDTH {
        w.write_string(b"X");
    }
    // the filled row scrolled up exactly one place and the cursor wrapped
    assert_eq!(w.column(), 0);
    for col in 0..WIDTH {
        assert_eq!(w.cell_at(HEIGHT - 2, col).ascii_character, b'X');
        assert_blank(w.cell_at(HEIGHT - 1, col), w.attribute());
    }
    for col in 0..WIDTH {
        assert_blank(w.cell_at(HEIGHT - 3, col), w.attribute());
    }
    // the next byte lands at column 0 of the bottom row
    w.write_string(b"Y");
    assert_eq!(w.cell_at(HEIGHT - 1, 0).ascii_character, b'Y');
    assert_eq!(w.column(), 1);
}

#[test]
fn scroll_moves_every_row_up() {
    let mut w = Writer::new(Color::LightGray, Color::Black);
    w.write_string(b"A\n");
    w.write_string(b"B\n");
    assert_eq!(w.cell_at(HEIGHT - 3, 0).ascii_character, b'A');
    assert_eq!(w.cell_at(HEIGHT - 2, 0).ascii_character, b'B');
    for col in 0..WIDTH {
        assert_blank(w.cell_at(HEIGHT - 1, col), w.attribute());
    }
    for col in 1..WIDTH {
        assert_blank(w.cell_at(HEIGHT - 3, col), w.attribute());
        assert_blank(w.cell_at(HEIGHT - 2, col), w.attribute());
    }
}

#[test]
fn end_to_end_light_green_on_black() {
    let mut w = Writer::new(Color::LightGreen, Color::Black);
    let attr = ColorCode::new(Color::LightGreen, Color::Black);
    assert_eq!(w.attribute(), attr);
    w.write_string(b"AB\n");
    // the row holding 'A' 'B' scrolled up one place; the bottom row is blank
    assert_eq!(w.cell_at(HEIGHT - 2, 0).ascii_character, b'A');
    assert_eq!(w.cell_at(HEIGHT - 2, 0).color_code, attr);
    assert_eq!(w.cell_at(HEIGHT - 2, 1).ascii_character, b'B');
    assert_eq!(w.cell_at(HEIGHT - 2, 1).color_code, attr);
    for col in 2..WIDTH {
        assert_blank(w.cell_at(HEIGHT - 2, col), attr);
    }
    for col in 0..WIDTH {
        assert_blank(w.cell_at(HEIGHT - 1, col), attr);
    }
    assert_eq!(w.column(), 0);
}

#[test]
fn multibyte_character_writes_one_sentinel_per_byte() {
    let encoded = "ö".as_bytes();
    assert_eq!(encoded.len(), 2);
    let mut w = Writer::new(Color::LightGray, Color::Black);
    w.write_string(encoded);
    assert_eq!(w.cell_at(HEIGHT - 1, 0).ascii_character, 0xfe);
    assert_eq!(w.cell_at(HEIGHT - 1, 1).ascii_character, 0xfe);
    assert_eq!(w.column(), 2);
}

#[test]
fn mixed_text_keeps_byte_order() {
    let mut w = Writer::new(Color::LightGray, Color::Black);
    w.write_byte(b'H');
    w.write_string(b"ello ");
    w.write_string("Wörld!".as_bytes());
    let expected: &[u8] = &[
        b'H', b'e', b'l', b'l', b'o', b' ', b'W', 0xfe, 0xfe, b'r', b'l', b'd', b'!',
    ];
    for (col, &b) in expected.iter().enumerate() {
        assert_eq!(w.cell_at(HEIGHT - 1, col).ascii_character, b);
    }
    assert_eq!(w.column(), expected.len());
}

#[test]
fn write_byte_accepts_sentinel_directly() {
    let mut w = Writer::new(Color::LightGray, Color::Black);
    w.write_byte(0xfe);
    assert_eq!(w.cell_at(HEIGHT - 1, 0).ascii_character, 0xfe);
    assert_eq!(w.column(), 1);
}

#[test]
fn fresh_writer_is_blank() {
    let w = Writer::new(Color::Pink, Color::DarkGray);
    assert_eq!(w.column(), 0);
    for row in 0..HEIGHT {
        for col in 0..WIDTH {
            assert_blank(w.cell_at(row, col), w.attribute());
        }
    }
}
