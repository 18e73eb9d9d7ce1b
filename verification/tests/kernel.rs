use kernel_terminal::hello;
use kernel_terminal::module::{
    Counter, Handler, Module, Outcome, COUNT_HANDLE, FB_HANDLE, MAIN_HANDLE, SERIAL_HANDLE, TERMINAL_HANDLE,
};
use kernel_terminal::terminal::serial::{transmit_ready, PortIo, PORT};
use kernel_terminal::terminal::{self, Op};
use kernel_terminal::x86::{MULTIBOOT_CHECKSUM, MULTIBOOT_FLAGS, MULTIBOOT_MAGIC};

fn row(h: &Handler, r: usize, len: usize) -> Vec<u8> {
    (0..len).map(|c| h.frame_buffer().cell(r, c).ch()).collect()
}

fn replied(o: Outcome) -> (u32, Vec<u8>) {
    match o {
        Outcome::Replied { status, output } => (status, output),
        Outcome::Stalled { waiting_for } => panic!("stalled on module {}", waiting_for),
    }
}

fn stalled_on(o: &Outcome) -> Option<usize> {
    match o {
        Outcome::Stalled { waiting_for } => Some(*waiting_for),
        Outcome::Replied { .. } => None,
    }
}

fn init_writes() -> Vec<PortIo> {
    vec![
        PortIo::Out { port: PORT + 1, value: 0x00 },
        PortIo::Out { port: PORT + 3, value: 0x80 },
        PortIo::Out { port: PORT, value: 0x03 },
        PortIo::Out { port: PORT + 1, value: 0x00 },
        PortIo::Out { port: PORT + 3, value: 0x03 },
        PortIo::Out { port: PORT + 2, value: 0xC7 },
        PortIo::Out { port: PORT + 4, value: 0x0B },
    ]
}

#[test]
fn hello_shows_greeting_then_waits_forever() {
    let mut h = Handler::new();
    let o = hello(&mut h);
    assert_eq!(stalled_on(&o), Some(MAIN_HANDLE));
    assert_eq!(h.waiting(), Some(MAIN_HANDLE));
    assert!(h.is_held(MAIN_HANDLE));
    assert_eq!(row(&h, 24, 13), b"Hello, World!".to_vec());
    assert_eq!(h.frame_buffer().column(), 13);
    assert_eq!(h.current(), MAIN_HANDLE);
}

#[test]
fn hello_clear_uses_terminal_code_that_frame_buffer_does_not_know() {
    let mut h = Handler::new();
    replied(h.send_message(FB_HANDLE, 0, b"old", false));
    let (status, out) = replied(h.send_message(FB_HANDLE, Op::Clear.code(), &[], false));
    assert_eq!(status, 3);
    assert!(out.iter().all(|&b| b == 0));
    assert_eq!(row(&h, 24, 3), b"old".to_vec());
}

#[test]
fn terminal_op_codes() {
    assert_eq!(Op::PutS.code(), terminal::PUTS);
    assert_eq!(Op::PutC.code(), terminal::PUTC);
    assert_eq!(Op::SetPos.code(), terminal::SETPOS);
    assert_eq!(Op::SetColor.code(), terminal::SETCOLOR);
    assert_eq!(Op::Clear.code(), terminal::CLEAR);
    assert_eq!(
        (terminal::PUTS, terminal::PUTC, terminal::SETPOS, terminal::SETCOLOR, terminal::CLEAR),
        (0, 1, 2, 3, 4)
    );
}

#[test]
fn main_module_answers_zero() {
    let mut h = Handler::new();
    let (status, out) = replied(h.send_message(MAIN_HANDLE, 9, b"anything", false));
    assert_eq!(status, 0);
    assert_eq!(out, vec![0u8; 256]);
}

#[test]
fn counter_reports_count_little_endian() {
    let mut h = Handler::new();
    for _ in 0..2 {
        replied(h.send_message(COUNT_HANDLE, 0, &[], false));
    }
    let (status, out) = replied(h.send_message(COUNT_HANDLE, 0, &[], false));
    assert_eq!(status, 0);
    assert_eq!(&out[..4], &[3, 0, 0, 0]);
    assert!(out[4..].iter().all(|&b| b == 0));
    for _ in 0..300 {
        replied(h.send_message(COUNT_HANDLE, 0, &[], false));
    }
    let (_, out) = replied(h.send_message(COUNT_HANDLE, 0, &[], false));
    let n = u32::from_le_bytes([out[0], out[1], out[2], out[3]]);
    assert_eq!(n, 304);
    assert_eq!(&out[..4], &[0x30, 0x01, 0, 0]);
}

#[test]
fn send_message_restores_current_module() {
    let mut h = Handler::new();
    assert_eq!(h.current(), MAIN_HANDLE);
    replied(h.send_message(SERIAL_HANDLE, 0, b"x", false));
    assert_eq!(h.current(), MAIN_HANDLE);
    replied(h.send_message(FB_HANDLE, 0, b"y", true));
    assert_eq!(h.current(), MAIN_HANDLE);
}

#[test]
fn reply_handler_runs_under_sender_lock() {
    let mut h = Handler::new();
    assert!(!h.is_held(MAIN_HANDLE));
    let (status, out) = replied(h.send_message(COUNT_HANDLE, 0, &[], true));
    assert_eq!((status, &out[..4]), (0, &[1u8, 0, 0, 0][..]));
    assert!(h.is_held(MAIN_HANDLE));
    assert!(!h.is_held(COUNT_HANDLE));
    h.end_reply();
    assert!(!h.is_held(MAIN_HANDLE));
    replied(h.send_message(COUNT_HANDLE, 0, &[], true));
    h.end_reply();
    assert_eq!(h.waiting(), None);
}

#[test]
fn nested_reply_handler_waits_forever() {
    let mut h = Handler::new();
    replied(h.send_message(COUNT_HANDLE, 0, &[], true));
    let plain = h.send_message(COUNT_HANDLE, 0, &[], false);
    assert_eq!(stalled_on(&plain), None);
    let nested = h.send_message(COUNT_HANDLE, 0, &[], true);
    assert_eq!(stalled_on(&nested), Some(MAIN_HANDLE));
    assert_eq!(h.waiting(), Some(MAIN_HANDLE));
}

#[test]
fn delivery_to_module_whose_lock_is_held_waits_forever() {
    let mut h = Handler::new();
    replied(h.send_message(FB_HANDLE, 0, b"a", true));
    let o = h.send_message(MAIN_HANDLE, 0, &[], false);
    assert_eq!(stalled_on(&o), Some(MAIN_HANDLE));
    assert_eq!(h.current(), MAIN_HANDLE);
}

#[test]
fn serial_puts_sets_line_up_once_then_transmits() {
    let mut h = Handler::new();
    let (status, out) = replied(h.send_message(SERIAL_HANDLE, 0, b"hi", false));
    assert_eq!(status, 0);
    assert_eq!(&out[..2], b"hi");
    let mut expected = init_writes();
    expected.push(PortIo::Transmit { byte: b'h' });
    expected.push(PortIo::Transmit { byte: b'i' });
    assert_eq!(h.take_serial_io(), expected);
    replied(h.send_message(SERIAL_HANDLE, 1, b"!", false));
    assert_eq!(h.take_serial_io(), vec![PortIo::Transmit { byte: b'!' }]);
    assert!(h.take_serial_io().is_empty());
}

#[test]
fn serial_clear_sends_erase_line_sequence() {
    let mut h = Handler::new();
    let (status, _) = replied(h.send_message(SERIAL_HANDLE, terminal::CLEAR, &[], false));
    assert_eq!(status, 0);
    let io = h.take_serial_io();
    assert_eq!(
        io[7..].to_vec(),
        vec![
            PortIo::Transmit { byte: 0x1B },
            PortIo::Transmit { byte: b'[' },
            PortIo::Transmit { byte: b'2' },
            PortIo::Transmit { byte: b'K' },
        ]
    );
}

#[test]
fn serial_refuses_bad_putc_and_unknown_ops() {
    let mut h = Handler::new();
    let (status, out) = replied(h.send_message(SERIAL_HANDLE, 1, b"ab", false));
    assert_eq!(status, 1);
    assert!(out.iter().all(|&b| b == 0));
    let (status, _) = replied(h.send_message(SERIAL_HANDLE, 3, b"a", false));
    assert_eq!(status, 3);
    assert_eq!(h.take_serial_io(), init_writes());
}

#[test]
fn transmit_ready_reads_bit_five() {
    assert!(transmit_ready(0x20));
    assert!(transmit_ready(0x60));
    assert!(!transmit_ready(0x00));
    assert!(!transmit_ready(0xDF));
}

#[test]
fn terminal_waits_forever_for_its_own_lock() {
    let mut h = Handler::new();
    let o = h.send_message(TERMINAL_HANDLE, 0, b"abc", false);
    assert_eq!(stalled_on(&o), Some(TERMINAL_HANDLE));
    assert_eq!(h.waiting(), Some(TERMINAL_HANDLE));
    assert_eq!(h.current(), TERMINAL_HANDLE);
    assert!(h.is_held(TERMINAL_HANDLE));
    assert!(!h.is_held(FB_HANDLE));
    assert_eq!(row(&h, 24, 3), b"abc".to_vec());
    assert!(h.take_serial_io().is_empty());
}

#[test]
fn terminal_forwards_set_color_to_screen_before_waiting() {
    let mut h = Handler::new();
    let o = h.send_message(TERMINAL_HANDLE, 2, &[0x1F], true);
    assert_eq!(stalled_on(&o), Some(TERMINAL_HANDLE));
    assert_eq!(h.frame_buffer().color().byte(), 0x1F);
    assert!(!h.is_held(MAIN_HANDLE));
}

#[test]
fn terminal_run_by_main_module_answers_with_merged_reply() {
    let mut h = Handler::new();
    let mut out = vec![0u8; 256];
    let status = h.terminal_message(0, b"abc", &mut out);
    assert_eq!(status, Some(0));
    assert_eq!(&out[..3], b"abc");
    assert!(out[3..].iter().all(|&b| b == 0));
    assert_eq!(row(&h, 24, 3), b"abc".to_vec());
    let mut expected = init_writes();
    for &b in b"abc" {
        expected.push(PortIo::Transmit { byte: b });
    }
    assert_eq!(h.take_serial_io(), expected);
    assert!(!h.is_held(MAIN_HANDLE));
    assert_eq!(h.current(), MAIN_HANDLE);
    assert_eq!(h.waiting(), None);
}

#[test]
fn terminal_run_by_main_module_merges_status_codes() {
    let mut h = Handler::new();
    let mut out = vec![0u8; 256];
    let status = h.terminal_message(2, &[0x1F], &mut out);
    assert_eq!(status, Some(0x0003_0000));
    assert!(out.iter().all(|&b| b == 0));
    assert_eq!(h.frame_buffer().color().byte(), 0x1F);
}

#[test]
fn terminal_run_inside_reply_handler_waits_forever() {
    let mut h = Handler::new();
    replied(h.send_message(COUNT_HANDLE, 0, &[], true));
    let mut out = vec![0u8; 256];
    let status = h.terminal_message(0, b"z", &mut out);
    assert_eq!(status, None);
    assert_eq!(h.waiting(), Some(MAIN_HANDLE));
    assert_eq!(row(&h, 24, 1), b"z".to_vec());
    assert!(h.take_serial_io().is_empty());
}

#[test]
fn terminal_color_values() {
    let all = [
        terminal::Color::Black, terminal::Color::Blue, terminal::Color::Green,
        terminal::Color::Cyan, terminal::Color::Red, terminal::Color::Magenta,
        terminal::Color::Brown, terminal::Color::LightGray, terminal::Color::DarkGray,
        terminal::Color::LightBlue, terminal::Color::LightGreen, terminal::Color::LightCyan,
        terminal::Color::LightRed, terminal::Color::Pink, terminal::Color::Yellow,
        terminal::Color::White,
    ];
    for (i, c) in all.iter().enumerate() {
        assert_eq!(c.value() as usize, i);
    }
}

#[test]
fn multiboot_header_sums_to_zero() {
    assert_eq!(
        MULTIBOOT_MAGIC.wrapping_add(MULTIBOOT_FLAGS).wrapping_add(MULTIBOOT_CHECKSUM),
        0
    );
    assert_eq!(MULTIBOOT_CHECKSUM, 0u32.wrapping_sub(MULTIBOOT_MAGIC + MULTIBOOT_FLAGS));
}

#[test]
fn counter_module_counts_on_its_own() {
    let mut c = Counter::new();
    let mut out = vec![0u8; 4];
    assert_eq!(c.receive_message(0, &[], &mut out), 0);
    assert_eq!(out, vec![1, 0, 0, 0]);
    let mut short = vec![7u8; 3];
    assert_eq!(c.receive_message(0, &[], &mut short), 1);
    assert_eq!(short, vec![7, 7, 7]);
    assert_eq!(c.receive_message(0, &[], &mut out), 0);
    assert_eq!(out, vec![3, 0, 0, 0]);
}
