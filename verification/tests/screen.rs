use kernel_terminal::module::Module;
use kernel_terminal::terminal::vga::{Color, ColorCode, FrameBuffer, Op, CLEAR, PUTC, PUTS, SETCOLOR};

fn row_text(fb: &FrameBuffer, row: usize, len: usize) -> Vec<u8> {
    (0..len).map(|col| fb.cell(row, col).ch()).collect()
}

fn send(fb: &mut FrameBuffer, op: u32, data: &[u8]) -> (u32, Vec<u8>) {
    let mut out = vec![0u8; 256];
    let status = fb.receive_message(op, data, &mut out);
    (status, out)
}

#[test]
fn new_frame_buffer_starts_at_column_zero_light_grey_on_black() {
    let fb = FrameBuffer::new();
    assert_eq!(fb.column(), 0);
    assert_eq!(fb.color().byte(), 0x07);
}

#[test]
fn color_code_packs_background_high_foreground_low() {
    assert_eq!(ColorCode::new(Color::White, Color::Blue).byte(), 0x1F);
    assert_eq!(ColorCode::new(Color::LightGray, Color::Black).byte(), 0x07);
    assert_eq!(ColorCode::new(Color::Black, Color::White).byte(), 0xF0);
    let c = ColorCode::new(Color::Yellow, Color::Red).byte();
    assert_eq!(c & 0xF, Color::Yellow.value());
    assert_eq!(c >> 4, Color::Red.value());
}

#[test]
fn color_values_follow_the_vga_palette() {
    let all = [
        Color::Black, Color::Blue, Color::Green, Color::Cyan, Color::Red, Color::Magenta,
        Color::Brown, Color::LightGray, Color::DarkGray, Color::LightBlue, Color::LightGreen,
        Color::LightCyan, Color::LightRed, Color::Pink, Color::Yellow, Color::White,
    ];
    for (i, c) in all.iter().enumerate() {
        assert_eq!(c.value() as usize, i);
    }
}

#[test]
fn op_codes_of_the_frame_buffer() {
    assert_eq!(Op::PutS.code(), PUTS);
    assert_eq!(Op::PutC.code(), PUTC);
    assert_eq!(Op::SetColor.code(), SETCOLOR);
    assert_eq!(Op::Clear.code(), CLEAR);
    assert_eq!((PUTS, PUTC, SETCOLOR, CLEAR), (0, 1, 2, 3));
}

#[test]
fn puts_writes_bottom_row_and_echoes_payload() {
    let mut fb = FrameBuffer::new();
    let (status, out) = send(&mut fb, PUTS, b"abc");
    assert_eq!(status, 0);
    assert_eq!(&out[..3], b"abc");
    assert!(out[3..].iter().all(|&b| b == 0));
    assert_eq!(row_text(&fb, 24, 3), b"abc".to_vec());
    assert_eq!(fb.column(), 3);
}

#[test]
fn puts_echo_keeps_rest_of_reply_buffer() {
    let mut fb = FrameBuffer::new();
    let mut out = vec![9u8; 5];
    let status = fb.receive_message(PUTS, b"xy", &mut out);
    assert_eq!(status, 0);
    assert_eq!(out, vec![b'x', b'y', 9, 9, 9]);
    let mut short = vec![9u8; 1];
    fb.receive_message(PUTS, b"pq", &mut short);
    assert_eq!(short, vec![b'p']);
}

#[test]
fn newline_scrolls_rows_up() {
    let mut fb = FrameBuffer::new();
    send(&mut fb, PUTS, b"A\nB");
    assert_eq!(fb.cell(23, 0).ch(), b'A');
    assert_eq!(fb.cell(24, 0).ch(), b'B');
    assert_eq!(fb.cell(24, 1).ch(), b' ');
    assert_eq!(fb.column(), 1);
    send(&mut fb, PUTS, b"\n");
    assert_eq!(fb.cell(22, 0).ch(), b'A');
    assert_eq!(fb.cell(23, 0).ch(), b'B');
    assert_eq!(fb.cell(24, 0).ch(), b' ');
    assert_eq!(fb.column(), 0);
}

#[test]
fn tab_moves_to_next_multiple_of_eight() {
    let mut fb = FrameBuffer::new();
    send(&mut fb, PUTS, b"\tX");
    assert_eq!(fb.cell(24, 8).ch(), b'X');
    assert_eq!(fb.column(), 9);
    send(&mut fb, PUTS, b"\t");
    assert_eq!(fb.column(), 16);
}

#[test]
fn tab_past_right_edge_wraps_on_next_character() {
    let mut fb = FrameBuffer::new();
    let text = vec![b'.'; 79];
    send(&mut fb, PUTS, &text);
    send(&mut fb, PUTS, b"\t\t");
    assert_eq!(fb.column(), 88);
    send(&mut fb, PUTS, b"Z");
    assert_eq!(fb.column(), 1);
    assert_eq!(fb.cell(24, 0).ch(), b'Z');
    assert_eq!(fb.cell(23, 78).ch(), b'.');
}

#[test]
fn line_wraps_after_eighty_characters() {
    let mut fb = FrameBuffer::new();
    let mut text = vec![b'a'; 80];
    text.push(b'b');
    send(&mut fb, PUTS, &text);
    assert_eq!(row_text(&fb, 23, 80), vec![b'a'; 80]);
    assert_eq!(fb.cell(24, 0).ch(), b'b');
    assert_eq!(fb.column(), 1);
}

#[test]
fn putc_writes_one_byte_and_zeroes_reply() {
    let mut fb = FrameBuffer::new();
    let mut out = vec![7u8; 4];
    let status = fb.receive_message(PUTC, b"Q", &mut out);
    assert_eq!(status, 0);
    assert_eq!(out, vec![b'Q', 0, 0, 0]);
    assert_eq!(fb.cell(24, 0).ch(), b'Q');
}

#[test]
fn putc_with_wrong_length_is_refused() {
    let mut fb = FrameBuffer::new();
    let before = fb.cell(24, 0).ch();
    let mut out = vec![7u8; 4];
    let status = fb.receive_message(PUTC, b"QR", &mut out);
    assert_eq!(status, 1);
    assert_eq!(out, vec![0, 0, 0, 0]);
    assert_eq!(fb.column(), 0);
    assert_eq!(fb.cell(24, 0).ch(), before);
}

#[test]
fn setcolor_changes_attribute_of_new_characters() {
    let mut fb = FrameBuffer::new();
    let (status, out) = send(&mut fb, SETCOLOR, &[0x1F]);
    assert_eq!(status, 0);
    assert!(out.iter().all(|&b| b == 0));
    assert_eq!(fb.color().byte(), 0x1F);
    let before = fb.cell(24, 1).attribute();
    send(&mut fb, PUTS, b"k");
    assert_eq!(fb.cell(24, 0).attribute(), 0x1F);
    assert_eq!(fb.cell(24, 1).attribute(), before);
}

#[test]
fn setcolor_with_wrong_length_is_refused() {
    let mut fb = FrameBuffer::new();
    let (status, _) = send(&mut fb, SETCOLOR, &[]);
    assert_eq!(status, 1);
    assert_eq!(fb.color().byte(), 0x07);
}

#[test]
fn clear_blanks_every_cell_in_current_attribute() {
    let mut fb = FrameBuffer::new();
    send(&mut fb, PUTS, b"x\ny");
    send(&mut fb, SETCOLOR, &[0x42]);
    let (status, _) = send(&mut fb, CLEAR, &[]);
    assert_eq!(status, 0);
    for row in 0..25 {
        for col in 0..80 {
            assert_eq!(fb.cell(row, col).ch(), b' ');
            assert_eq!(fb.cell(row, col).attribute(), 0x42);
        }
    }
    assert_eq!(fb.column(), 1);
}

#[test]
fn unknown_message_leaves_everything() {
    let mut fb = FrameBuffer::new();
    let mut out = vec![5u8; 3];
    let status = fb.receive_message(4, b"zz", &mut out);
    assert_eq!(status, 3);
    assert_eq!(out, vec![5, 5, 5]);
    assert_eq!(fb.column(), 0);
}

#[test]
fn writing_in_pieces_equals_writing_at_once() {
    let mut whole = FrameBuffer::new();
    send(&mut whole, PUTS, b"ab\tcd\nef");
    let mut pieces = FrameBuffer::new();
    send(&mut pieces, PUTS, b"ab\t");
    send(&mut pieces, PUTS, b"cd\n");
    send(&mut pieces, PUTS, b"ef");
    assert_eq!(whole.column(), pieces.column());
    for row in 0..25 {
        for col in 0..80 {
            assert_eq!(whole.cell(row, col).ch(), pieces.cell(row, col).ch());
            assert_eq!(whole.cell(row, col).attribute(), pieces.cell(row, col).attribute());
        }
    }
    assert_eq!(whole.cell(23, 8).ch(), b'c');
    assert_eq!(whole.cell(23, 9).ch(), b'd');
    assert_eq!(whole.cell(24, 1).ch(), b'f');
}

#[test]
fn puts_in_pieces_equals_puts_at_once_and_empty_puts_changes_nothing() {
    let mut whole = FrameBuffer::new();
    whole.puts(b"12\t3\n45");
    let mut pieces = FrameBuffer::new();
    pieces.puts(b"12\t");
    pieces.puts(b"");
    pieces.puts(b"3\n45");
    assert_eq!(whole.column(), pieces.column());
    for row in 0..25 {
        for col in 0..80 {
            assert_eq!(whole.cell(row, col).ch(), pieces.cell(row, col).ch());
        }
    }
    let before = pieces.column();
    pieces.puts(b"");
    assert_eq!(pieces.column(), before);
    assert_eq!(whole.cell(23, 8).ch(), b'3');
    assert_eq!(whole.cell(24, 1).ch(), b'5');
}
