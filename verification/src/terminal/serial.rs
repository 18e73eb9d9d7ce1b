use vstd::prelude::*;
use crate::module::{Module, zeros, echo, fill_zero, copy_prefix};
use super::{CLEAR, PUTC, PUTS};

verus! {

/// I/O base port of the first serial line.
pub const PORT: u16 = 0x3F8;

/// One step of port I/O that the serial port asks for, in order.
#[derive(Debug, Clone, Copy, PartialEq, Eq)]
pub enum PortIo {
    /// Write `value` to I/O port `port`.
    Out { port: u16, value: u8 },
    /// Wait until the line can take a byte (see `transmit_ready`), then
    /// write `byte` to the data port `PORT`.
    Transmit { byte: u8 },
}

/// Whether the line status register says that the transmitter can take a
/// byte: bit 5, transmit holding register empty.
pub fn transmit_ready(line_status: u8) -> (ready: bool)
    ensures
        ready == (line_status & 0x20 != 0),
{
    line_status & 0x20 != 0
}

/// The register writes that set the line up: interrupts off, divisor 3
/// (38400 baud), 8 data bits without parity and one stop bit, FIFO on,
/// modem control set.
pub open spec fn init_sequence() -> Seq<PortIo> {
    seq![
        PortIo::Out { port: (PORT + 1) as u16, value: 0x00 },
        PortIo::Out { port: (PORT + 3) as u16, value: 0x80 },
        PortIo::Out { port: PORT, value: 0x03 },
        PortIo::Out { port: (PORT + 1) as u16, value: 0x00 },
        PortIo::Out { port: (PORT + 3) as u16, value: 0x03 },
        PortIo::Out { port: (PORT + 2) as u16, value: 0xC7 },
        PortIo::Out { port: (PORT + 4) as u16, value: 0x0B },
    ]
}

/// The bytes of `text` sent on the line, in order.
pub open spec fn transmit(text: Seq<u8>) -> Seq<PortIo> {
    text.map_values(|b: u8| PortIo::Transmit { byte: b })
}

/// The escape sequence that erases the current line of a terminal:
/// ESC [ 2 K.
pub open spec fn erase_line() -> Seq<u8> {
    seq![0x1Bu8, 0x5Bu8, 0x32u8, 0x4Bu8]
}

/// What the serial port has done: whether the line is set up, and the port
/// I/O it asked for that has not been taken yet.
#[verifier::ext_equal]
pub struct SerialState {
    pub initialized: bool,
    pub io: Seq<PortIo>,
}

/// The line is set up once: the first time the register writes are asked
/// for, later nothing.
pub open spec fn init_state(s: SerialState) -> SerialState {
    if s.initialized {
        s
    } else {
        SerialState { initialized: true, io: s.io + init_sequence() }
    }
}

/// `s` with the bytes of `text` sent.
pub open spec fn send_state(s: SerialState, text: Seq<u8>) -> SerialState {
    SerialState { initialized: s.initialized, io: s.io + transmit(text) }
}

/// What the serial port does with message `op`: its state afterwards, the
/// reply in `out` and the status code (0 done, 1 payload of the wrong
/// length, 3 unknown message). The line is set up first, whatever the
/// message.
pub open spec fn serial_message(s: SerialState, op: u32, data: Seq<u8>, out: Seq<u8>) -> (SerialState, Seq<u8>, u32) {
    let t = init_state(s);
    if op == PUTS {
        (send_state(t, data), echo(out, data), 0)
    } else if op == PUTC {
        if data.len() != 1 {
            (t, zeros(out.len()), 1)
        } else {
            (send_state(t, seq![data[0]]), zeros(out.len()).update(0, data[0]), 0)
        }
    } else if op == CLEAR {
        (send_state(t, erase_line()), zeros(out.len()), 0)
    } else {
        (t, out, 3)
    }
}

/// The messages on which the serial port does not fail: a byte echoed by
/// `PUTC` needs a reply buffer of at least one byte.
pub open spec fn serial_accepts(op: u32, data: Seq<u8>, out_len: nat) -> bool {
    op == PUTC && data.len() == 1 ==> out_len >= 1
}

/// `PUTC` with one byte succeeds (status 0): the line is set up if it was
/// not, the byte is sent, just as `PUTS` of that byte sends it, and the
/// reply is the byte followed by zeros. A payload of another length sends
/// nothing (only the set-up), zeroes the reply and gives status 1.
pub proof fn lemma_serial_putc(s: SerialState, c: u8, out: Seq<u8>)
    requires
        out.len() >= 1,
    ensures
        serial_message(s, PUTC, seq![c], out).2 == 0,
        serial_message(s, PUTC, seq![c], out).0 == serial_message(s, PUTS, seq![c], out).0,
        serial_message(s, PUTC, seq![c], out).0.io == init_state(s).io.push((PortIo::Transmit { byte: c })),
        serial_message(s, PUTC, seq![c], out).0.initialized,
        serial_message(s, PUTC, seq![c], out).1 == seq![c] + Seq::new((out.len() - 1) as nat, |i: int| 0u8),
        forall|d: Seq<u8>| d.len() != 1 ==> (#[trigger] serial_message(s, PUTC, d, out)).2 == 1,
        forall|d: Seq<u8>| d.len() != 1 ==> (#[trigger] serial_message(s, PUTC, d, out)).0 == init_state(s),
{
    assert(transmit(seq![c]) =~= seq![PortIo::Transmit { byte: c }]);
    assert(init_state(s).io + transmit(seq![c]) =~= init_state(s).io.push(PortIo::Transmit { byte: c }));
    assert(serial_message(s, PUTC, seq![c], out).1 =~= seq![c] + Seq::new((out.len() - 1) as nat, |i: int| 0u8));
}

/// `PUTS` sends the payload byte by byte after setting the line up if it
/// was not; the reply buffer gets the payload over its first bytes and
/// keeps the rest; the status is 0.
pub proof fn lemma_serial_puts(s: SerialState, data: Seq<u8>, out: Seq<u8>)
    ensures
        serial_message(s, PUTS, data, out).0.io.len() == init_state(s).io.len() + data.len(),
        serial_message(s, PUTS, data, out).0.io.subrange(0, init_state(s).io.len() as int) == init_state(s).io,
        forall|i: int| 0 <= i < data.len() ==> #[trigger] serial_message(s, PUTS, data, out).0.io[init_state(s).io.len() + i]
            == (PortIo::Transmit { byte: data[i] }),
        serial_message(s, PUTS, data, out).0.initialized,
        forall|i: int| 0 <= i < out.len() && i < data.len() ==> #[trigger] serial_message(s, PUTS, data, out).1[i] == data[i],
        forall|i: int| data.len() <= i < out.len() ==> #[trigger] serial_message(s, PUTS, data, out).1[i] == out[i],
        serial_message(s, PUTS, data, out).1.len() == out.len(),
        serial_message(s, PUTS, data, out).2 == 0,
{
    let r = serial_message(s, PUTS, data, out).0;
    assert(r.io.subrange(0, init_state(s).io.len() as int) =~= init_state(s).io);
}

/// `CLEAR` sends ESC [ 2 K after setting the line up if it was not, zeroes
/// the reply and gives status 0; any message other than `PUTS`, `PUTC` and
/// `CLEAR` only sets the line up, leaves the reply alone and gives status 3.
pub proof fn lemma_serial_clear_and_unknown(s: SerialState, op: u32, data: Seq<u8>, out: Seq<u8>)
    ensures
        serial_message(s, CLEAR, data, out).0.io == init_state(s).io + seq![
            (PortIo::Transmit { byte: 0x1B }),
            (PortIo::Transmit { byte: 0x5B }),
            (PortIo::Transmit { byte: 0x32 }),
            (PortIo::Transmit { byte: 0x4B }),
        ],
        serial_message(s, CLEAR, data, out).1 == Seq::new(out.len(), |i: int| 0u8),
        serial_message(s, CLEAR, data, out).2 == 0,
        op != PUTS && op != PUTC && op != CLEAR ==> serial_message(s, op, data, out) == (init_state(s), out, 3u32),
{
    assert(transmit(erase_line()) =~= seq![
        PortIo::Transmit { byte: 0x1B },
        PortIo::Transmit { byte: 0x5B },
        PortIo::Transmit { byte: 0x32 },
        PortIo::Transmit { byte: 0x4B },
    ]);
    assert(zeros(out.len()) =~= Seq::new(out.len(), |i: int| 0u8));
}

/// The first serial line. It decides the port I/O that each message needs
/// and queues it; whoever drives the hardware takes it with `take_io`.
pub struct SerialPort {
    initialized: bool,
    io: Vec<PortIo>,
}

impl View for SerialPort {
    type V = SerialState;

    closed spec fn view(&self) -> SerialState {
        SerialState { initialized: self.initialized, io: self.io@ }
    }
}

impl SerialPort {
    /// A serial port that is not set up yet and has asked for nothing.
    pub fn new() -> (p: SerialPort)
        ensures
            p@ == (SerialState { initialized: false, io: Seq::empty() }),
    {
        SerialPort { initialized: false, io: Vec::new() }
    }

    /// Sets the line up, the first time only.
    pub fn init(&mut self)
        ensures
            final(self)@ == init_state(old(self)@),
    {
        if !self.initialized {
            self.io.push(PortIo::Out { port: PORT + 1, value: 0x00 });
            self.io.push(PortIo::Out { port: PORT + 3, value: 0x80 });
            self.io.push(PortIo::Out { port: PORT + 0, value: 0x03 });
            self.io.push(PortIo::Out { port: PORT + 1, value: 0x00 });
            self.io.push(PortIo::Out { port: PORT + 3, value: 0x03 });
            self.io.push(PortIo::Out { port: PORT + 2, value: 0xC7 });
            self.io.push(PortIo::Out { port: PORT + 4, value: 0x0B });
            self.initialized = true;
            assert(self@.io =~= old(self)@.io + init_sequence());
        }
    }

    /// Sends one byte.
    fn putc(&mut self, ch: u8)
        ensures
            final(self)@ == send_state(old(self)@, seq![ch]),
    {
        self.io.push(PortIo::Transmit { byte: ch });
        assert(self@.io =~= old(self)@.io + transmit(seq![ch]));
    }

    /// Sends the bytes of `s` in order.
    fn puts(&mut self, s: &[u8])
        ensures
            final(self)@ == send_state(old(self)@, s@),
    {
        let mut i: usize = 0;
        while i < s.len()
            invariant
                i <= s@.len(),
                self@ == send_state(old(self)@, s@.take(i as int)),
            decreases s@.len() - i,
        {
            self.putc(s[i]);
            i = i + 1;
            assert(self@.io =~= old(self)@.io + transmit(s@.take(i as int)));
        }
        assert(s@.take(i as int) =~= s@);
    }

    /// Erases the current line of the terminal on the other end.
    fn clear(&mut self)
        ensures
            final(self)@ == send_state(old(self)@, erase_line()),
    {
        let seq: [u8; 4] = [0x1B, 0x5B, 0x32, 0x4B];
        assert(seq@ =~= erase_line());
        self.puts(&seq);
    }

    /// Hands over the port I/O asked for so far, oldest first, and forgets it.
    pub fn take_io(&mut self) -> (io: Vec<PortIo>)
        ensures
            io@ == old(self)@.io,
            final(self)@ == (SerialState { initialized: old(self)@.initialized, io: Seq::empty() }),
    {
        let mut io: Vec<PortIo> = Vec::new();
        std::mem::swap(&mut io, &mut self.io);
        io
    }
}

impl Module for SerialPort {
    open spec fn accepts(&self, op: u32, data: Seq<u8>, out_len: nat) -> bool {
        serial_accepts(op, data, out_len)
    }

    fn receive_message(&mut self, op: u32, data: &[u8], output: &mut [u8]) -> (status: u32)
        ensures
            (final(self)@, final(output)@, status) == serial_message(old(self)@, op, data@, old(output)@),
    {
        self.init();
        if op == PUTS {
            self.puts(data);
            copy_prefix(output, data);
            0
        } else if op == PUTC {
            fill_zero(output);
            if data.len() != 1 {
                return 1;
            }
            output[0] = data[0];
            self.putc(data[0]);
            0
        } else if op == CLEAR {
            fill_zero(output);
            self.clear();
            0
        } else {
            3
        }
    }
}

} // verus!
