use kernel_terminal::terminal::{compare, merge, receive, Compare, Progress, Terminal};
use kernel_terminal::module::{FB_HANDLE, SERIAL_HANDLE};

#[test]
fn compare_new_reply_ends_first() {
    assert_eq!(compare(&[1, 0, 3], &[1, 2, 3]), Compare::New);
}

#[test]
fn compare_old_reply_ends_first() {
    assert_eq!(compare(&[1, 2, 3], &[1, 0, 3]), Compare::Old);
}

#[test]
fn compare_disagreeing_bytes() {
    assert_eq!(compare(&[1, 2, 3], &[1, 5, 3]), Compare::Mismatch(1));
}

#[test]
fn compare_equal_replies() {
    assert_eq!(compare(&[4, 5], &[4, 5]), Compare::Old);
    assert_eq!(compare(&[4, 0], &[4, 0]), Compare::New);
    assert_eq!(compare(&[], &[1]), Compare::Old);
}

#[test]
fn merge_puts_smaller_code_low() {
    assert_eq!(merge(5, 2), 0x0005_0002);
    assert_eq!(merge(2, 5), 0x0005_0002);
    assert_eq!(merge(0, 3), 0x0003_0000);
    assert_eq!(merge(1, 1), 0x0001_0001);
}

#[test]
fn receive_keeps_first_reply_then_merges() {
    let mut store = Progress::Empty;
    let mut first = vec![0u8; 256];
    first[0] = b'a';
    receive(&mut store, &first, 3);
    match &store {
        Progress::Partial(s) => {
            assert_eq!(s.output, first);
            assert_eq!(s.code, 3);
        }
        _ => panic!("expected the first reply to be kept"),
    }
    receive(&mut store, &first, 0);
    match &store {
        Progress::Done(s) => {
            assert_eq!(s.output, first);
            assert_eq!(s.code, 0x0003_0000);
        }
        _ => panic!("expected the merged reply"),
    }
}

#[test]
fn receive_takes_new_reply_when_old_ends_first() {
    let mut store = Progress::Empty;
    let old = vec![0u8; 256];
    receive(&mut store, &old, 1);
    let mut new = vec![0u8; 256];
    new[0] = 9;
    receive(&mut store, &new, 1);
    match &store {
        Progress::Done(s) => {
            assert_eq!(s.output, new);
            assert_eq!(s.code, 0x0001_0001);
        }
        _ => panic!("expected the merged reply"),
    }
}

#[test]
fn terminal_new_waits_for_replies() {
    let t = Terminal::new(FB_HANDLE, SERIAL_HANDLE);
    assert_eq!(t.vga_handle(), FB_HANDLE);
    assert_eq!(t.serial_handle(), SERIAL_HANDLE);
}
