use vstd::prelude::*;
use crate::terminal::vga::{FrameBuffer, Screen, Color, BUF_CELLS, color_code_value, vga_message, vga_accepts};
use crate::terminal::serial::{SerialPort, SerialState, PortIo, serial_message, serial_accepts, init_state, init_sequence};
use crate::terminal::{Terminal, Stage, compare_from, merge_codes, receive_stage, receive_ok};

verus! {

/// Address of a module.
pub type ModHandle = usize;

/// Length of the reply buffer that every message gets.
pub const BUFFER_LEN: usize = 256;

/// A module of the kernel: it is addressed by a handle and answers each
/// message with a status code, writing its reply into `out`.
pub trait Module {
    /// Whether the module handles this message in its current state.
    spec fn accepts(&self, op: u32, data: Seq<u8>, out_len: nat) -> bool;

    /// Handles message `op` with payload `data`, writing the reply into
    /// `out` and returning the status code.
    fn receive_message(&mut self, op: u32, data: &[u8], out: &mut [u8]) -> (status: u32)
        requires
            old(self).accepts(op, data@, old(out)@.len()),
        ensures
            final(out)@.len() == old(out)@.len(),
    ;
}

/// `n` zero bytes.
pub open spec fn zeros(n: nat) -> Seq<u8> {
    Seq::new(n, |i: int| 0u8)
}

/// `out` with its first bytes replaced by those of `data`, as far as both
/// reach.
pub open spec fn echo(out: Seq<u8>, data: Seq<u8>) -> Seq<u8> {
    Seq::new(out.len(), |i: int| if i < data.len() { data[i] } else { out[i] })
}

/// Sets every byte of `out` to zero.
pub(crate) fn fill_zero(out: &mut [u8])
    ensures
        final(out)@ == zeros(old(out)@.len()),
{
    let mut i: usize = 0;
    while i < out.len()
        invariant
            i <= out@.len(),
            out@.len() == old(out)@.len(),
            forall|j: int| 0 <= j < i ==> out@[j] == 0,
        decreases out@.len() - i,
    {
        out[i] = 0;
        i = i + 1;
    }
    assert(out@ =~= zeros(old(out)@.len()));
}

/// Copies `data` into the front of `out`, as far as both reach.
pub(crate) fn copy_prefix(out: &mut [u8], data: &[u8])
    ensures
        final(out)@ == echo(old(out)@, data@),
{
    let mut i: usize = 0;
    while i < out.len() && i < data.len()
        invariant
            i <= out@.len(),
            i <= data@.len(),
            out@.len() == old(out)@.len(),
            forall|j: int| 0 <= j < i ==> out@[j] == data@[j],
            forall|j: int| i <= j < out@.len() ==> out@[j] == old(out)@[j],
        decreases out@.len() - i,
    {
        out[i] = data[i];
        i = i + 1;
    }
    assert(out@ =~= echo(old(out)@, data@));
}

/// A vector holding the bytes of `data`.
pub(crate) fn bytes_to_vec(data: &[u8]) -> (v: Vec<u8>)
    ensures
        v@ == data@,
{
    let mut v: Vec<u8> = Vec::new();
    let mut i: usize = 0;
    while i < data.len()
        invariant
            i <= data@.len(),
            v@ == data@.take(i as int),
        decreases data@.len() - i,
    {
        v.push(data[i]);
        i = i + 1;
    }
    assert(data@.take(i as int) =~= data@);
    v
}

/// A reply buffer of `BUFFER_LEN` zero bytes.
pub(crate) fn zero_buffer() -> (v: Vec<u8>)
    ensures
        v@ == zeros(BUFFER_LEN as nat),
{
    let mut v: Vec<u8> = Vec::new();
    let mut i: usize = 0;
    while i < BUFFER_LEN
        invariant
            i <= BUFFER_LEN,
            v@ == zeros(i as nat),
        decreases BUFFER_LEN - i,
    {
        v.push(0);
        i = i + 1;
        assert(v@ =~= zeros(i as nat));
    }
    v
}

/// The module that starts the kernel.
pub const MAIN_HANDLE: ModHandle = 0;
/// The VGA frame buffer.
pub const FB_HANDLE: ModHandle = 1;
/// The message counter.
pub const COUNT_HANDLE: ModHandle = 2;
/// The terminal.
pub const TERMINAL_HANDLE: ModHandle = 3;
/// The serial port.
pub const SERIAL_HANDLE: ModHandle = 4;
/// Number of modules.
pub const MODULE_COUNT: ModHandle = 5;

/// Lets a thread of control yield while it waits.
pub fn pause() {
}

/// The module that starts the kernel: it answers every message with 0 and
/// leaves the reply buffer alone.
pub struct MainMod;

impl Module for MainMod {
    open spec fn accepts(&self, op: u32, data: Seq<u8>, out_len: nat) -> bool {
        true
    }

    fn receive_message(&mut self, op: u32, data: &[u8], out: &mut [u8]) -> (status: u32)
        ensures
            status == 0,
            final(out)@ == old(out)@,
    {
        0
    }
}

/// The four bytes of `n`, least significant first.
pub open spec fn le_bytes(n: u32) -> Seq<u8> {
    seq![
        (n & 0xff) as u8,
        ((n >> 8u32) & 0xff) as u8,
        ((n >> 16u32) & 0xff) as u8,
        ((n >> 24u32) & 0xff) as u8,
    ]
}

/// What the counter does with a message: it counts it, then writes the new
/// count into the first four bytes of `out` (status 0), or, when `out` is
/// shorter, leaves it alone (status 1).
pub open spec fn counter_message(count: u32, out: Seq<u8>) -> (u32, Seq<u8>, u32) {
    let n = (count + 1) as u32;
    if out.len() < 4 {
        (n, out, 1)
    } else {
        (n, le_bytes(n) + out.skip(4), 0)
    }
}

/// Counts the messages it receives.
pub struct Counter(u32);

impl Counter {
    /// The number of messages counted.
    pub closed spec fn count(&self) -> u32 {
        self.0
    }

    /// A counter that has counted nothing.
    pub fn new() -> (c: Counter)
        ensures
            c.count() == 0,
    {
        Counter(0)
    }
}

impl Module for Counter {
    open spec fn accepts(&self, op: u32, data: Seq<u8>, out_len: nat) -> bool {
        self.count() < u32::MAX
    }

    fn receive_message(&mut self, op: u32, data: &[u8], out: &mut [u8]) -> (status: u32)
        ensures
            (final(self).count(), final(out)@, status) == counter_message(old(self).count(), old(out)@),
    {
        self.0 = self.0 + 1;
        if out.len() < 4 {
            1
        } else {
            out[0] = (self.0 & 0xFF) as u8;
            out[1] = ((self.0 >> 8u32) & 0xFF) as u8;
            out[2] = ((self.0 >> 16u32) & 0xFF) as u8;
            out[3] = ((self.0 >> 24u32) & 0xFF) as u8;
            assert(out@ =~= le_bytes(self.0) + old(out)@.skip(4));
            0
        }
    }
}

/// The state of all modules; for each module whether its lock is held;
/// the module that is handling a message; and, once the kernel waits
/// forever for a lock that is already held, that lock.
#[verifier::ext_equal]
pub struct KernelState {
    pub fb: Screen,
    pub count: u32,
    pub terminal: Stage,
    pub serial: SerialState,
    pub held: Seq<bool>,
    pub current: ModHandle,
    pub waiting: Option<ModHandle>,
}

/// What a delivery comes to: the receiver's status code and reply, or the
/// lock the kernel waits for forever.
pub enum Answer {
    Replied { status: u32, output: Seq<u8> },
    Stalled { waiting_for: ModHandle },
}

/// What a delivery comes to: the receiver's status code and reply buffer,
/// or the lock the kernel waits for forever (the spin lock is not
/// re-entrant, so a lock that is already held is never obtained).
pub enum Outcome {
    Replied { status: u32, output: Vec<u8> },
    Stalled { waiting_for: ModHandle },
}

impl View for Outcome {
    type V = Answer;

    open spec fn view(&self) -> Answer {
        match self {
            Outcome::Replied { status, output } => Answer::Replied { status: *status, output: output@ },
            Outcome::Stalled { waiting_for } => Answer::Stalled { waiting_for: *waiting_for },
        }
    }
}

/// What module `h` (not the terminal) does with a message whose reply
/// buffer is `out`: the kernel afterwards, the reply and the status code.
pub open spec fn device_message(k: KernelState, h: ModHandle, op: u32, data: Seq<u8>, out: Seq<u8>) -> (KernelState, Seq<u8>, u32) {
    if h == FB_HANDLE {
        let r = vga_message(k.fb, op, data, out);
        (KernelState { fb: r.0, ..k }, r.1, r.2)
    } else if h == COUNT_HANDLE {
        let r = counter_message(k.count, out);
        (KernelState { count: r.0, ..k }, r.1, r.2)
    } else if h == SERIAL_HANDLE {
        let r = serial_message(k.serial, op, data, out);
        (KernelState { serial: r.0, ..k }, r.1, r.2)
    } else {
        (k, out, 0)
    }
}

/// The messages that module `h` (not the terminal) handles without failing.
pub open spec fn device_accepts(k: KernelState, h: ModHandle, op: u32, data: Seq<u8>, out_len: nat) -> bool {
    &&& (h == FB_HANDLE ==> vga_accepts(k.fb, op, data, out_len))
    &&& (h == COUNT_HANDLE ==> k.count < u32::MAX)
    &&& (h == SERIAL_HANDLE ==> serial_accepts(op, data, out_len))
}

/// The kernel waiting forever for lock `h`, with module `current` current.
pub open spec fn stall(k: KernelState, current: ModHandle, h: ModHandle) -> (KernelState, Answer) {
    (KernelState { current, waiting: Some(h), ..k }, Answer::Stalled { waiting_for: h })
}

/// A delivery to module `h` (not the terminal). The receiver becomes
/// current and its lock is taken; a held lock is waited for forever. The
/// receiver handles the message into a buffer of zeros, its lock is
/// released and the sender is current again. With a reply handler, the
/// handler then runs under the sender's lock, which it takes (waiting
/// forever when it is held) and keeps until `end_reply`.
pub open spec fn device_step(k: KernelState, h: ModHandle, op: u32, data: Seq<u8>, reply_handler: bool) -> (KernelState, Answer) {
    if k.held[h as int] {
        stall(k, h, h)
    } else {
        let r = device_message(k, h, op, data, zeros(BUFFER_LEN as nat));
        if reply_handler && k.held[k.current as int] {
            stall(r.0, k.current, k.current)
        } else if reply_handler {
            (KernelState { held: k.held.update(k.current as int, true), ..r.0 }, Answer::Replied { status: r.2, output: r.1 })
        } else {
            (r.0, Answer::Replied { status: r.2, output: r.1 })
        }
    }
}

/// The kernel after a reply handler that hands `answer` to the terminal
/// (see `receive`) returns: the terminal has taken the reply and the lock
/// of module `caller`, under which the handler ran, is released.
pub open spec fn handed_to_terminal(k: KernelState, caller: ModHandle, answer: Answer) -> KernelState {
    KernelState {
        terminal: receive_stage(k.terminal, answer->Replied_output, answer->Replied_status),
        held: k.held.update(caller as int, false),
        ..k
    }
}

/// The terminal's handling of a message, run by module `k.current`: the
/// unchanged message goes to the frame buffer and then to the serial port,
/// each with a reply handler (running under the current module's lock)
/// that hands the reply and status code to the terminal. With both replies
/// taken, the answer is the merged reply and status code. `None` when a
/// delivery waits forever for a held lock.
pub open spec fn terminal_handling(k: KernelState, op: u32, data: Seq<u8>) -> (KernelState, Option<(Seq<u8>, u32)>) {
    let first = device_step(k, FB_HANDLE, op, data, true);
    if first.1 is Stalled {
        (first.0, None)
    } else {
        let k1 = handed_to_terminal(first.0, k.current, first.1);
        let second = device_step(k1, SERIAL_HANDLE, op, data, true);
        if second.1 is Stalled {
            (second.0, None)
        } else {
            let k2 = handed_to_terminal(second.0, k.current, second.1);
            (k2, Some((k2.terminal->Done_output, k2.terminal->Done_code)))
        }
    }
}

/// The messages the terminal handles without failing: the frame buffer
/// does not fail on the message, and each reply that arrives can be taken
/// (see `receive_ok`).
pub open spec fn terminal_accepts(k: KernelState, op: u32, data: Seq<u8>) -> bool {
    let first = device_step(k, FB_HANDLE, op, data, true);
    let k1 = handed_to_terminal(first.0, k.current, first.1);
    let second = device_step(k1, SERIAL_HANDLE, op, data, true);
    &&& (!k.held[FB_HANDLE as int] ==> vga_accepts(k.fb, op, data, BUFFER_LEN as nat))
    &&& (first.1 is Replied ==> receive_ok(first.0.terminal, first.1->Replied_output))
    &&& (first.1 is Replied && second.1 is Replied ==> receive_ok(second.0.terminal, second.1->Replied_output))
}

/// The kernel once a delivery to the terminal has taken the terminal's
/// lock and made it current.
pub open spec fn terminal_entered(k: KernelState) -> KernelState {
    KernelState { held: k.held.update(TERMINAL_HANDLE as int, true), current: TERMINAL_HANDLE, ..k }
}

/// A delivery to the terminal. The terminal becomes current and its lock
/// is taken (a held lock is waited for forever); it handles the message
/// (see `terminal_handling`), its lock is released and the sender is
/// current again, and a reply handler runs as for any delivery.
pub open spec fn terminal_step(k: KernelState, op: u32, data: Seq<u8>, reply_handler: bool) -> (KernelState, Answer) {
    if k.held[TERMINAL_HANDLE as int] {
        stall(k, TERMINAL_HANDLE, TERMINAL_HANDLE)
    } else {
        let r = terminal_handling(terminal_entered(k), op, data);
        if r.1 is None {
            (r.0, Answer::Stalled { waiting_for: match r.0.waiting { Some(w) => w, None => TERMINAL_HANDLE } })
        } else {
            let k3 = KernelState { held: r.0.held.update(TERMINAL_HANDLE as int, false), current: k.current, ..r.0 };
            let answer = Answer::Replied { status: r.1.unwrap().1, output: r.1.unwrap().0 };
            if reply_handler && k3.held[k.current as int] {
                stall(k3, k.current, k.current)
            } else if reply_handler {
                (KernelState { held: k3.held.update(k.current as int, true), ..k3 }, answer)
            } else {
                (k3, answer)
            }
        }
    }
}

/// What `send_message` does: the kernel afterwards and what the delivery
/// comes to.
pub open spec fn message(k: KernelState, receiver: ModHandle, op: u32, data: Seq<u8>, reply_handler: bool) -> (KernelState, Answer) {
    if receiver == TERMINAL_HANDLE {
        terminal_step(k, op, data, reply_handler)
    } else {
        device_step(k, receiver, op, data, reply_handler)
    }
}

/// The messages that are delivered without failing: the kernel is not
/// waiting forever already; the receiver exists; and a module that gets
/// the message does not fail on it (the counter does not wrap; the frame
/// buffer's column stays within a machine word; the terminal can take the
/// replies).
pub open spec fn message_accepts(k: KernelState, receiver: ModHandle, op: u32, data: Seq<u8>) -> bool {
    &&& k.waiting is None
    &&& receiver < MODULE_COUNT
    &&& (receiver != TERMINAL_HANDLE && !k.held[receiver as int] ==> device_accepts(k, receiver, op, data, BUFFER_LEN as nat))
    &&& (receiver == TERMINAL_HANDLE && !k.held[TERMINAL_HANDLE as int] ==> terminal_accepts(terminal_entered(k), op, data))
}

/// The frame buffer and the serial port give the same reply to every
/// message that arrives with a buffer of zeros.
pub proof fn lemma_devices_agree(fb: Screen, serial: SerialState, op: u32, data: Seq<u8>)
    ensures
        vga_message(fb, op, data, zeros(BUFFER_LEN as nat)).1 == serial_message(serial, op, data, zeros(BUFFER_LEN as nat)).1,
        vga_message(fb, op, data, zeros(BUFFER_LEN as nat)).1.len() == BUFFER_LEN,
{
}

/// A reply never disagrees with itself.
pub proof fn lemma_compare_self(s: Seq<u8>, i: int)
    requires
        0 <= i,
    ensures
        !(compare_from(s, s, i) is Mismatch),
    decreases s.len() - i,
{
    if i < s.len() && s[i] != 0 {
        lemma_compare_self(s, i + 1);
    }
}

/// The four reply bytes of the counter put together give the count.
pub proof fn lemma_le_bytes_count(n: u32)
    ensures
        le_bytes(n).len() == 4,
        le_bytes(n)[0] + 256 * le_bytes(n)[1] + 65536 * le_bytes(n)[2] + 16777216 * le_bytes(n)[3] == n,
{
    let b0 = (n & 0xff) as u8;
    let b1 = ((n >> 8u32) & 0xff) as u8;
    let b2 = ((n >> 16u32) & 0xff) as u8;
    let b3 = ((n >> 24u32) & 0xff) as u8;
    assert(b0 + 256 * b1 + 65536 * b2 + 16777216 * b3 == n) by (bit_vector)
        requires
            b0 == (n & 0xff) as u8,
            b1 == ((n >> 8u32) & 0xff) as u8,
            b2 == ((n >> 16u32) & 0xff) as u8,
            b3 == ((n >> 24u32) & 0xff) as u8,
    ;
}

/// Every message to the counter counts one more, and a reply buffer of at
/// least four bytes gets the new count.
pub proof fn lemma_counter_counts(count: u32, out: Seq<u8>)
    requires
        count < u32::MAX,
    ensures
        counter_message(count, out).0 == count + 1,
        out.len() >= 4 ==> counter_message(count, out).1.subrange(0, 4) == le_bytes((count + 1) as u32),
        out.len() >= 4 ==> counter_message(count, out).1.len() == out.len(),
        out.len() >= 4 ==> counter_message(count, out).1.skip(4) == out.skip(4),
        out.len() >= 4 ==> counter_message(count, out).2 == 0,
        out.len() < 4 ==> counter_message(count, out).1 == out,
        out.len() < 4 ==> counter_message(count, out).2 == 1,
{
    if out.len() >= 4 {
        assert((le_bytes((count + 1) as u32) + out.skip(4)).subrange(0, 4) =~= le_bytes((count + 1) as u32));
        assert((le_bytes((count + 1) as u32) + out.skip(4)).skip(4) =~= out.skip(4));
    }
}

/// Merging status codes does not depend on the order of the replies, and
/// for codes below 2^16 the low half is the smaller and the high half the
/// larger.
pub proof fn lemma_merge_codes(a: u32, b: u32)
    ensures
        merge_codes(a, b) == merge_codes(b, a),
        a < 0x10000 && b < 0x10000 ==> merge_codes(a, b) & 0xffff == (if a < b { a } else { b }),
        a < 0x10000 && b < 0x10000 ==> merge_codes(a, b) >> 16u32 == (if a < b { b } else { a }),
{
    if a < 0x10000 && b < 0x10000 {
        assert((a | (b << 16u32)) & 0xffff == a && (a | (b << 16u32)) >> 16u32 == b) by (bit_vector)
            requires
                a < 0x10000,
                b < 0x10000,
        ;
        assert((b | (a << 16u32)) & 0xffff == b && (b | (a << 16u32)) >> 16u32 == a) by (bit_vector)
            requires
                a < 0x10000,
                b < 0x10000,
        ;
    }
}

/// A delivery leaves the sender current, unless the kernel waits forever.
pub proof fn lemma_message_keeps_current(k: KernelState, receiver: ModHandle, op: u32, data: Seq<u8>, reply_handler: bool)
    requires
        k.held.len() == MODULE_COUNT,
        k.current < MODULE_COUNT,
        receiver < MODULE_COUNT,
    ensures
        message(k, receiver, op, data, reply_handler).1 is Replied ==> message(k, receiver, op, data, reply_handler).0.current == k.current,
{
}

/// A reply handler runs under the sender's lock: after a delivery with a
/// reply handler the sender's lock is held; a second delivery with a reply
/// handler from inside it waits forever for that lock.
pub proof fn lemma_nested_reply_handler_stalls(k: KernelState, r1: ModHandle, op1: u32, d1: Seq<u8>, r2: ModHandle, op2: u32, d2: Seq<u8>)
    requires
        k.held.len() == MODULE_COUNT,
        k.current < MODULE_COUNT,
        r1 < MODULE_COUNT,
        r1 != TERMINAL_HANDLE,
        r2 < MODULE_COUNT,
        r2 != TERMINAL_HANDLE,
        message(k, r1, op1, d1, true).1 is Replied,
    ensures
        message(k, r1, op1, d1, true).0.held[k.current as int],
        ({
            let k1 = message(k, r1, op1, d1, true).0;
            message(k1, r2, op2, d2, true).1 is Stalled
        }),
{
}

/// The terminal never answers: every delivery to it waits forever, and
/// when the terminal and the frame buffer are free it waits for the
/// terminal's own lock, after the frame buffer has handled the message.
pub proof fn lemma_terminal_never_answers(k: KernelState, op: u32, data: Seq<u8>, reply_handler: bool)
    requires
        k.held.len() == MODULE_COUNT,
    ensures
        message(k, TERMINAL_HANDLE, op, data, reply_handler).1 is Stalled,
        !k.held[TERMINAL_HANDLE as int] && !k.held[FB_HANDLE as int] ==> {
            let r = message(k, TERMINAL_HANDLE, op, data, reply_handler);
            &&& r.1 == Answer::Stalled { waiting_for: TERMINAL_HANDLE }
            &&& r.0.fb == vga_message(k.fb, op, data, zeros(BUFFER_LEN as nat)).0
            &&& r.0.serial == k.serial
            &&& r.0.terminal == k.terminal
        },
{
}

/// Run by a module whose lock is free, with the frame buffer and the
/// serial port free and the terminal waiting for its first reply, the
/// terminal forwards the message to both devices, frame buffer first, and
/// answers with their common reply and the merge of their status codes;
/// afterwards it holds that answer and the locks are as before.
pub proof fn lemma_terminal_answers(k: KernelState, op: u32, data: Seq<u8>)
    requires
        k.held.len() == MODULE_COUNT,
        k.current < MODULE_COUNT,
        !k.held[FB_HANDLE as int],
        !k.held[SERIAL_HANDLE as int],
        !k.held[k.current as int],
        k.waiting is None,
        k.terminal == Stage::Waiting,
    ensures
        ({
            let v = vga_message(k.fb, op, data, zeros(BUFFER_LEN as nat));
            let l = serial_message(k.serial, op, data, zeros(BUFFER_LEN as nat));
            let r = terminal_handling(k, op, data);
            &&& r.1 == Some((v.1, merge_codes(v.2, l.2)))
            &&& r.0.fb == v.0
            &&& r.0.serial == l.0
            &&& r.0.terminal == Stage::Done { output: v.1, code: merge_codes(v.2, l.2) }
            &&& r.0.held == k.held
            &&& r.0.current == k.current
            &&& r.0.waiting is None
        }),
        vga_accepts(k.fb, op, data, BUFFER_LEN as nat) ==> terminal_accepts(k, op, data),
{
    lemma_devices_agree(k.fb, k.serial, op, data);
    let o = vga_message(k.fb, op, data, zeros(BUFFER_LEN as nat)).1;
    lemma_compare_self(o, 0);
    let first = device_step(k, FB_HANDLE, op, data, true);
    assert(first.1 is Replied);
    assert(first.0.current == k.current);
    let k1 = handed_to_terminal(first.0, k.current, first.1);
    assert(k1.held =~= k.held);
    let second = device_step(k1, SERIAL_HANDLE, op, data, true);
    assert(second.1 is Replied);
    assert(second.0.current == k.current);
    let r = terminal_handling(k, op, data);
    assert(r.0.held =~= k.held);
}

/// The serial line is set up by the first message and only then: after
/// any message it is set up, and the set-up writes are asked for exactly
/// when it was not set up before.
pub proof fn lemma_serial_set_up_once(s: SerialState, op: u32, data: Seq<u8>, out: Seq<u8>)
    ensures
        serial_message(s, op, data, out).0.initialized,
        serial_message(s, op, data, out).0.io.subrange(0, s.io.len() as int) == s.io,
        s.initialized ==> init_state(s) == s,
        !s.initialized ==> init_state(s).io == s.io + seq![
            (PortIo::Out { port: 0x3F9u16, value: 0x00u8 }),
            (PortIo::Out { port: 0x3FBu16, value: 0x80u8 }),
            (PortIo::Out { port: 0x3F8u16, value: 0x03u8 }),
            (PortIo::Out { port: 0x3F9u16, value: 0x00u8 }),
            (PortIo::Out { port: 0x3FBu16, value: 0x03u8 }),
            (PortIo::Out { port: 0x3FAu16, value: 0xC7u8 }),
            (PortIo::Out { port: 0x3FCu16, value: 0x0Bu8 }),
        ],
{
    let r = serial_message(s, op, data, out).0;
    assert(r.io.subrange(0, s.io.len() as int) =~= s.io);
    assert(init_sequence() =~= seq![
        (PortIo::Out { port: 0x3F9u16, value: 0x00u8 }),
        (PortIo::Out { port: 0x3FBu16, value: 0x80u8 }),
        (PortIo::Out { port: 0x3F8u16, value: 0x03u8 }),
        (PortIo::Out { port: 0x3F9u16, value: 0x00u8 }),
        (PortIo::Out { port: 0x3FBu16, value: 0x03u8 }),
        (PortIo::Out { port: 0x3FAu16, value: 0xC7u8 }),
        (PortIo::Out { port: 0x3FCu16, value: 0x0Bu8 }),
    ]);
}

/// Each handle reaches its own module: a delivery without a reply handler
/// to a module whose lock is free is handled by that module alone, which
/// gets a buffer of zeros; its reply and status come back, and nothing else
/// in the kernel changes. The main module answers 0 and leaves the buffer
/// alone.
pub proof fn lemma_handles_reach_their_modules(k: KernelState, op: u32, data: Seq<u8>)
    requires
        k.held.len() == MODULE_COUNT,
    ensures
        !k.held[FB_HANDLE as int] ==> {
            let v = vga_message(k.fb, op, data, Seq::new(256, |i: int| 0u8));
            message(k, FB_HANDLE, op, data, false) == (KernelState { fb: v.0, ..k }, Answer::Replied { status: v.2, output: v.1 })
        },
        !k.held[COUNT_HANDLE as int] ==> {
            let c = counter_message(k.count, Seq::new(256, |i: int| 0u8));
            message(k, COUNT_HANDLE, op, data, false) == (KernelState { count: c.0, ..k }, Answer::Replied { status: c.2, output: c.1 })
        },
        !k.held[SERIAL_HANDLE as int] ==> {
            let l = serial_message(k.serial, op, data, Seq::new(256, |i: int| 0u8));
            message(k, SERIAL_HANDLE, op, data, false) == (KernelState { serial: l.0, ..k }, Answer::Replied { status: l.2, output: l.1 })
        },
        !k.held[MAIN_HANDLE as int] ==> message(k, MAIN_HANDLE, op, data, false)
            == (k, Answer::Replied { status: 0, output: Seq::new(256, |i: int| 0u8) }),
{
    assert(zeros(BUFFER_LEN as nat) =~= Seq::new(256, |i: int| 0u8));
}

/// All modules of the kernel, addressed by handle, each behind its lock.
pub struct Handler {
    main: MainMod,
    fb: FrameBuffer,
    count: Counter,
    terminal: Terminal,
    serial: SerialPort,
    held: Vec<bool>,
    current: ModHandle,
    waiting: Option<ModHandle>,
}

impl View for Handler {
    type V = KernelState;

    closed spec fn view(&self) -> KernelState {
        KernelState {
            fb: self.fb@,
            count: self.count.count(),
            terminal: self.terminal.stage(),
            serial: self.serial@,
            held: self.held@,
            current: self.current,
            waiting: self.waiting,
        }
    }
}

impl Handler {
    /// The frame buffer is whole, there is one lock per module, the current
    /// module exists, and the terminal forwards to the frame buffer and the
    /// serial port.
    pub closed spec fn wf(&self) -> bool {
        &&& self.fb.wf()
        &&& self.held@.len() == MODULE_COUNT
        &&& self.current < MODULE_COUNT
        &&& self.terminal.vga_target() == FB_HANDLE
        &&& self.terminal.serial_target() == SERIAL_HANDLE
    }

    /// A well-formed kernel has one lock per module and an existing current
    /// module.
    pub proof fn lemma_wf_view(&self)
        requires
            self.wf(),
        ensures
            self@.held.len() == MODULE_COUNT,
            self@.current < MODULE_COUNT,
    {
    }

    /// The kernel as it boots: a frame buffer at the start of the bottom
    /// row writing light grey on black, no message counted, the
    /// terminal waiting for its first reply, the serial line not set up, no
    /// lock held, and the main module current.
    pub fn new() -> (h: Handler)
        ensures
            h.wf(),
            h@.fb.cells.len() == BUF_CELLS,
            h@.fb.column == 0,
            h@.fb.color == color_code_value(Color::LightGray, Color::Black),
            h@.count == 0,
            h@.terminal == Stage::Waiting,
            h@.serial == (SerialState { initialized: false, io: Seq::empty() }),
            h@.held == Seq::new(MODULE_COUNT as nat, |i: int| false),
            h@.current == MAIN_HANDLE,
            h@.waiting is None,
    {
        let mut held: Vec<bool> = Vec::new();
        let mut i: usize = 0;
        while i < MODULE_COUNT
            invariant
                i <= MODULE_COUNT,
                held@ == Seq::new(i as nat, |j: int| false),
            decreases MODULE_COUNT - i,
        {
            held.push(false);
            i = i + 1;
            assert(held@ =~= Seq::new(i as nat, |j: int| false));
        }
        Handler {
            main: MainMod,
            fb: FrameBuffer::new(),
            count: Counter::new(),
            terminal: Terminal::new(FB_HANDLE, SERIAL_HANDLE),
            serial: SerialPort::new(),
            held,
            current: MAIN_HANDLE,
            waiting: None,
        }
    }

    /// The frame buffer.
    pub fn frame_buffer(&self) -> (fb: &FrameBuffer)
        ensures
            fb@ == self@.fb,
    {
        &self.fb
    }

    /// The module handling the current message.
    pub fn current(&self) -> (h: ModHandle)
        ensures
            h == self@.current,
    {
        self.current
    }

    /// Whether the lock of module `h` is held.
    pub fn is_held(&self, h: ModHandle) -> (b: bool)
        requires
            self.wf(),
            h < MODULE_COUNT,
        ensures
            b == self@.held[h as int],
    {
        self.held[h]
    }

    /// The lock the kernel waits for forever, if it does.
    pub fn waiting(&self) -> (w: Option<ModHandle>)
        ensures
            w == self@.waiting,
    {
        self.waiting
    }

    /// Hands over the port I/O that the serial port asked for so far.
    pub fn take_serial_io(&mut self) -> (io: Vec<crate::terminal::serial::PortIo>)
        requires
            old(self).wf(),
        ensures
            final(self).wf(),
            io@ == old(self)@.serial.io,
            final(self)@ == (KernelState {
                serial: SerialState { initialized: old(self)@.serial.initialized, io: Seq::empty() },
                ..old(self)@
            }),
    {
        self.serial.take_io()
    }

    /// Hands message `op` with reply buffer `out` to module `h`, which is
    /// not the terminal.
    fn device_receive(&mut self, h: ModHandle, op: u32, data: &[u8], out: &mut [u8]) -> (status: u32)
        requires
            old(self).wf(),
            h < MODULE_COUNT,
            h != TERMINAL_HANDLE,
            device_accepts(old(self)@, h, op, data@, old(out)@.len()),
        ensures
            final(self).wf(),
            (final(self)@, final(out)@, status) == device_message(old(self)@, h, op, data@, old(out)@),
    {
        if h == FB_HANDLE {
            self.fb.receive_message(op, data, out)
        } else if h == COUNT_HANDLE {
            self.count.receive_message(op, data, out)
        } else if h == SERIAL_HANDLE {
            self.serial.receive_message(op, data, out)
        } else {
            self.main.receive_message(op, data, out)
        }
    }

    /// Records that the kernel waits forever for lock `h`, with module
    /// `current` current.
    fn stall(&mut self, current: ModHandle, h: ModHandle) -> (o: Outcome)
        requires
            old(self).wf(),
            current < MODULE_COUNT,
        ensures
            final(self).wf(),
            (final(self)@, o@) == stall(old(self)@, current, h),
    {
        self.current = current;
        self.waiting = Some(h);
        Outcome::Stalled { waiting_for: h }
    }

    /// Delivers a message to module `h`, which is not the terminal (see
    /// `device_step`).
    fn device_send(&mut self, h: ModHandle, op: u32, data: &[u8], reply_handler: bool) -> (o: Outcome)
        requires
            old(self).wf(),
            h < MODULE_COUNT,
            h != TERMINAL_HANDLE,
            !old(self)@.held[h as int] ==> device_accepts(old(self)@, h, op, data@, BUFFER_LEN as nat),
        ensures
            final(self).wf(),
            (final(self)@, o@) == device_step(old(self)@, h, op, data@, reply_handler),
    {
        let old_id = self.current;
        if self.held[h] {
            return self.stall(h, h);
        }
        self.current = h;
        self.held.set(h, true);
        let mut buffer = zero_buffer();
        let status = self.device_receive(h, op, data, buffer.as_mut_slice());
        self.held.set(h, false);
        self.current = old_id;
        assert(self.held@ =~= old(self).held@);
        if reply_handler {
            if self.held[old_id] {
                return self.stall(old_id, old_id);
            }
            self.held.set(old_id, true);
        }
        Outcome::Replied { status, output: buffer }
    }

    /// The reply handler that is running returns: the lock of the current
    /// module, which it held, is released.
    pub fn end_reply(&mut self)
        requires
            old(self).wf(),
            old(self)@.waiting is None,
            old(self)@.held[old(self)@.current as int],
        ensures
            final(self).wf(),
            final(self)@ == (KernelState {
                held: old(self)@.held.update(old(self)@.current as int, false),
                ..old(self)@
            }),
    {
        let c = self.current;
        self.held.set(c, false);
    }

    /// The terminal's handling of a message, run by the current module
    /// (see `terminal_handling`): it forwards the message to its screen
    /// device and then to its line device, each with a reply handler that
    /// hands the reply to the terminal (see `receive`), and answers with the
    /// merged reply, written into `out`, and the merged status code. `None`
    /// when a delivery waits forever for a held lock.
    pub fn terminal_message(&mut self, op: u32, data: &[u8], out: &mut [u8]) -> (status: Option<u32>)
        requires
            old(self).wf(),
            old(self)@.waiting is None,
            old(out)@.len() == BUFFER_LEN,
            terminal_accepts(old(self)@, op, data@),
        ensures
            final(self).wf(),
            final(self)@ == terminal_handling(old(self)@, op, data@).0,
            status is Some <==> terminal_handling(old(self)@, op, data@).1 is Some,
            status is Some ==> status->0 == terminal_handling(old(self)@, op, data@).1.unwrap().1
                && final(out)@ == terminal_handling(old(self)@, op, data@).1.unwrap().0,
    {
        proof {
            self.lemma_wf_view();
        }
        let vga = self.terminal.vga_handle();
        match self.device_send(vga, op, data, true) {
            Outcome::Stalled { .. } => None,
            Outcome::Replied { status: c1, output: o1 } => {
                self.terminal.take_reply(o1.as_slice(), c1);
                self.end_reply();
                let serial = self.terminal.serial_handle();
                match self.device_send(serial, op, data, true) {
                    Outcome::Stalled { .. } => None,
                    Outcome::Replied { status: c2, output: o2 } => {
                        self.terminal.take_reply(o2.as_slice(), c2);
                        self.end_reply();
                        Some(self.terminal.answer(out))
                    },
                }
            },
        }
    }

    /// Sends message `op` with payload `data` to module `receiver` (see
    /// `message`). With `reply_handler`, the sender's reply handler runs
    /// once this returns `Replied`, under the sender's lock, until
    /// `end_reply`. `Stalled` means that the kernel waits forever for a
    /// lock that is already held; nothing goes on from there.
    pub fn send_message(&mut self, receiver: ModHandle, op: u32, data: &[u8], reply_handler: bool) -> (o: Outcome)
        requires
            old(self).wf(),
            message_accepts(old(self)@, receiver, op, data@),
        ensures
            final(self).wf(),
            (final(self)@, o@) == message(old(self)@, receiver, op, data@, reply_handler),
    {
        if receiver != TERMINAL_HANDLE {
            return self.device_send(receiver, op, data, reply_handler);
        }
        let old_id = self.current;
        if self.held[receiver] {
            return self.stall(receiver, receiver);
        }
        self.current = receiver;
        self.held.set(receiver, true);
        let mut buffer = zero_buffer();
        match self.terminal_message(op, data, buffer.as_mut_slice()) {
            None => {
                let w = match self.waiting {
                    Some(w) => w,
                    None => receiver,
                };
                Outcome::Stalled { waiting_for: w }
            },
            Some(status) => {
                self.held.set(receiver, false);
                self.current = old_id;
                if reply_handler {
                    if self.held[old_id] {
                        return self.stall(old_id, old_id);
                    }
                    self.held.set(old_id, true);
                }
                Outcome::Replied { status, output: buffer }
            },
        }
    }
}

} // verus!
