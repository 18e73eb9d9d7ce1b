//! A small message-passing kernel: modules addressed by handle receive
//! messages, a VGA text frame buffer renders characters, a serial port
//! decides what to send on the line, and a terminal forwards each message
//! to both devices. Each module sits behind a spin lock that is not
//! re-entrant, and a reply handler runs under its sender's lock.
pub mod module;
pub mod terminal;
pub mod x86;

use vstd::prelude::*;
use crate::module::{Handler, KernelState, Answer, Outcome, FB_HANDLE, message};
use crate::terminal::{Op, CLEAR, PUTS};
use crate::terminal::vga::{puts_screen, lemma_puts_fits_no_tab};

verus! {

/// The greeting that `hello` prints first: "Hello, World!".
pub open spec fn greeting() -> Seq<u8> {
    seq![72u8, 101, 108, 108, 111, 44, 32, 87, 111, 114, 108, 100, 33]
}

/// The line that `hello` prints second: "\nTerminal in working order!".
pub open spec fn status_line() -> Seq<u8> {
    seq![
        10u8, 84, 101, 114, 109, 105, 110, 97, 108, 32, 105, 110, 32, 119, 111, 114, 107, 105,
        110, 103, 32, 111, 114, 100, 101, 114, 33,
    ]
}

/// The first two deliveries of `hello`: the screen is asked to clear
/// itself with a reply handler, and inside that handler the greeting is
/// sent with a reply handler of its own.
pub open spec fn hello_spec(k: KernelState) -> (KernelState, Answer) {
    let first = message(k, FB_HANDLE, CLEAR, Seq::empty(), true);
    if first.1 is Stalled {
        first
    } else {
        message(first.0, FB_HANDLE, PUTS, greeting(), true)
    }
}

/// The kernel's first words. It asks the frame buffer to clear the screen,
/// with the terminal's code for clearing, which the frame buffer answers as
/// unknown, so the screen keeps what it showed. Its reply handler runs
/// under the sender's lock and sends the greeting, again with a reply
/// handler; that handler needs the same lock, so the kernel waits forever
/// there (`Stalled`), after the greeting is shown: the status line is never
/// sent.
pub fn hello(handler: &mut Handler) -> (o: Outcome)
    requires
        old(handler).wf(),
        old(handler)@.waiting is None,
    ensures
        final(handler).wf(),
        (final(handler)@, o@) == hello_spec(old(handler)@),
        o@ is Stalled,
        old(handler)@.current != FB_HANDLE && !old(handler)@.held[FB_HANDLE as int]
            && !old(handler)@.held[old(handler)@.current as int] ==> {
            &&& final(handler)@.fb == puts_screen(old(handler)@.fb, greeting())
            &&& o@ == Answer::Stalled { waiting_for: old(handler)@.current }
        },
{
    proof {
        handler.lemma_wf_view();
    }
    let empty: [u8; 0] = [];
    let cleared = handler.send_message(FB_HANDLE, Op::Clear.code(), &empty, true);
    match cleared {
        Outcome::Stalled { waiting_for } => {
            return Outcome::Stalled { waiting_for };
        },
        Outcome::Replied { .. } => {},
    }
    let greeting_bytes: [u8; 13] = [72, 101, 108, 108, 111, 44, 32, 87, 111, 114, 108, 100, 33];
    proof {
        assert(greeting_bytes@ =~= greeting());
        lemma_puts_fits_no_tab(handler@.fb, greeting());
    }
    let greeted = handler.send_message(FB_HANDLE, Op::PutS.code(), &greeting_bytes, true);
    match greeted {
        Outcome::Stalled { waiting_for } => {
            return Outcome::Stalled { waiting_for };
        },
        Outcome::Replied { .. } => {},
    }
    let line_bytes: [u8; 27] = [
        10, 84, 101, 114, 109, 105, 110, 97, 108, 32, 105, 110, 32, 119, 111, 114, 107, 105,
        110, 103, 32, 111, 114, 100, 101, 114, 33,
    ];
    proof {
        assert(line_bytes@ =~= status_line());
        lemma_puts_fits_no_tab(handler@.fb, status_line());
    }
    let shown = handler.send_message(FB_HANDLE, Op::PutS.code(), &line_bytes, false);
    handler.end_reply();
    handler.end_reply();
    shown
}

} // verus!
