pub mod vga;
pub mod serial;

use vstd::prelude::*;
use crate::module::{BUFFER_LEN, ModHandle, bytes_to_vec, copy_prefix};

verus! {

/// The messages the terminal understands, as it forwards them.
#[derive(Debug, Clone, Copy, PartialEq, Eq)]
pub enum Op {
    PutS,
    PutC,
    SetPos,
    SetColor,
    Clear,
}

/// Message code: write the payload.
pub const PUTS: u32 = 0;
/// Message code: write the single byte of the payload.
pub const PUTC: u32 = 1;
/// Message code: move the cursor.
pub const SETPOS: u32 = 2;
/// Message code: change the colour.
pub const SETCOLOR: u32 = 3;
/// Message code: clear the screen.
pub const CLEAR: u32 = 4;

impl Op {
    /// The message code of the operation.
    pub fn code(self) -> (c: u32)
        ensures
            c == match self {
                Op::PutS => PUTS,
                Op::PutC => PUTC,
                Op::SetPos => SETPOS,
                Op::SetColor => SETCOLOR,
                Op::Clear => CLEAR,
            },
    {
        match self {
            Op::PutS => PUTS,
            Op::PutC => PUTC,
            Op::SetPos => SETPOS,
            Op::SetColor => SETCOLOR,
            Op::Clear => CLEAR,
        }
    }
}

/// The sixteen colours of VGA text mode.
#[derive(Debug, Clone, Copy, PartialEq, Eq)]
pub enum Color {
    Black,
    Blue,
    Green,
    Cyan,
    Red,
    Magenta,
    Brown,
    LightGray,
    DarkGray,
    LightBlue,
    LightGreen,
    LightCyan,
    LightRed,
    Pink,
    Yellow,
    White,
}

impl Color {
    /// The value of the colour, as a VGA attribute nibble.
    pub open spec fn spec_value(self) -> u8 {
        match self {
            Color::Black => 0,
            Color::Blue => 1,
            Color::Green => 2,
            Color::Cyan => 3,
            Color::Red => 4,
            Color::Magenta => 5,
            Color::Brown => 6,
            Color::LightGray => 7,
            Color::DarkGray => 8,
            Color::LightBlue => 9,
            Color::LightGreen => 10,
            Color::LightCyan => 11,
            Color::LightRed => 12,
            Color::Pink => 13,
            Color::Yellow => 14,
            Color::White => 15,
        }
    }

    /// The value of the colour, as a VGA attribute nibble.
    #[verifier::when_used_as_spec(spec_value)]
    pub fn value(self) -> (v: u8)
        ensures
            v == self.spec_value(),
            v < 16,
    {
        match self {
            Color::Black => 0,
            Color::Blue => 1,
            Color::Green => 2,
            Color::Cyan => 3,
            Color::Red => 4,
            Color::Magenta => 5,
            Color::Brown => 6,
            Color::LightGray => 7,
            Color::DarkGray => 8,
            Color::LightBlue => 9,
            Color::LightGreen => 10,
            Color::LightCyan => 11,
            Color::LightRed => 12,
            Color::Pink => 13,
            Color::Yellow => 14,
            Color::White => 15,
        }
    }
}

/// A reply kept by the terminal: the reply bytes and the status code.
pub struct Store {
    pub output: Vec<u8>,
    pub code: u32,
}

/// How far the terminal is with merging the replies of its two devices.
pub enum Progress {
    Empty,
    Partial(Store),
    Done(Store),
}

/// The terminal's progress as values: nothing yet, the first reply, or the
/// merged reply.
#[verifier::ext_equal]
pub enum Stage {
    Waiting,
    Partial { output: Seq<u8>, code: u32 },
    Done { output: Seq<u8>, code: u32 },
}

impl View for Progress {
    type V = Stage;

    open spec fn view(&self) -> Stage {
        match self {
            Progress::Empty => Stage::Waiting,
            Progress::Partial(s) => Stage::Partial { output: s.output@, code: s.code },
            Progress::Done(s) => Stage::Done { output: s.output@, code: s.code },
        }
    }
}

/// How two replies compare: they disagree at an index where both hold a
/// non-zero byte, or the new one ends first (a zero in the old one), or the
/// old one does.
#[derive(Debug, Clone, Copy, PartialEq, Eq)]
pub enum Compare {
    Mismatch(usize),
    New,
    Old,
}

/// The comparison of `old` and `new` from index `i` on: the first index
/// that decides it, in the order of the tests; `Old` when none does.
pub open spec fn compare_from(old: Seq<u8>, new: Seq<u8>, i: int) -> Compare
    decreases old.len() - i,
{
    if i < 0 || i >= old.len() || i >= new.len() {
        Compare::Old
    } else if old[i] != new[i] && old[i] != 0 && new[i] != 0 {
        Compare::Mismatch(i as usize)
    } else if old[i] == 0 {
        Compare::New
    } else if new[i] == 0 {
        Compare::Old
    } else {
        compare_from(old, new, i + 1)
    }
}

/// The comparison of two replies.
pub open spec fn compare_spec(old: Seq<u8>, new: Seq<u8>) -> Compare {
    compare_from(old, new, 0)
}

/// The status codes of two replies in one word: the smaller in the low
/// half, the larger shifted into the high half.
pub open spec fn merge_codes(first: u32, second: u32) -> u32 {
    if first < second {
        first | (second << 16u32)
    } else {
        second | (first << 16u32)
    }
}

/// The terminal's progress after one more reply: the first is kept, the
/// second is merged with it into the final reply.
pub open spec fn receive_stage(st: Stage, data: Seq<u8>, code: u32) -> Stage {
    match st {
        Stage::Waiting => Stage::Partial { output: data, code },
        Stage::Partial { output, code: first } => Stage::Done {
            output: match compare_spec(output, data) {
                Compare::New => data,
                Compare::Old => output,
                Compare::Mismatch(i) => data.take(i as int),
            },
            code: merge_codes(first, code),
        },
        Stage::Done { .. } => st,
    }
}

/// The replies the terminal can take without failing: the first must fill
/// a whole reply buffer, and so must the one the second comparison picks;
/// two replies that disagree, or a third reply, are not handled.
pub open spec fn receive_ok(st: Stage, data: Seq<u8>) -> bool {
    match st {
        Stage::Waiting => data.len() == BUFFER_LEN,
        Stage::Partial { output, .. } => match compare_spec(output, data) {
            Compare::New => data.len() == BUFFER_LEN,
            Compare::Old => output.len() == BUFFER_LEN,
            Compare::Mismatch(_) => false,
        },
        Stage::Done { .. } => false,
    }
}

/// Two replies that agree, with non-zero bytes, on the indices before `i`
/// compare from any index `k` up to `i` as they do from `i` on.
pub proof fn lemma_compare_prefix(o: Seq<u8>, d: Seq<u8>, k: int, i: int)
    requires
        0 <= k <= i,
        i <= o.len(),
        i <= d.len(),
        forall|j: int| #![trigger o[j]] 0 <= j < i ==> o[j] == d[j] && o[j] != 0,
    ensures
        compare_from(o, d, k) == compare_from(o, d, i),
    decreases i - k,
{
    if k < i {
        assert(o[k] == d[k]);
        lemma_compare_prefix(o, d, k + 1, i);
    }
}

/// How the terminal merges a kept reply `o` (code `c1`) with a new reply
/// `d` (code `c2`) that agrees with it, in non-zero bytes, before index
/// `i`: where the new reply ends first (a zero in `d` only) or one of them
/// runs out, the kept reply stays; where the kept reply ends first (a zero
/// in `o`), the new reply is taken; two different non-zero bytes are not
/// handled. The code is the merge of both codes. The first reply is kept
/// as it is, and must fill a reply buffer.
pub proof fn lemma_receive_merge(o: Seq<u8>, d: Seq<u8>, c1: u32, c2: u32, i: int)
    requires
        0 <= i,
        i <= o.len(),
        i <= d.len(),
        forall|j: int| #![trigger o[j]] 0 <= j < i ==> o[j] == d[j] && o[j] != 0,
    ensures
        i < o.len() && i < d.len() && o[i] != 0 && d[i] == 0 ==> receive_stage(Stage::Partial { output: o, code: c1 }, d, c2)
            == (Stage::Done { output: o, code: merge_codes(c1, c2) }),
        (i >= o.len() || i >= d.len()) ==> receive_stage(Stage::Partial { output: o, code: c1 }, d, c2)
            == (Stage::Done { output: o, code: merge_codes(c1, c2) }),
        i < o.len() && i < d.len() && o[i] == 0 ==> receive_stage(Stage::Partial { output: o, code: c1 }, d, c2)
            == (Stage::Done { output: d, code: merge_codes(c1, c2) }),
        i < o.len() && i < d.len() && o[i] != 0 && d[i] != 0 && o[i] != d[i] ==> !receive_ok(Stage::Partial { output: o, code: c1 }, d),
        receive_stage(Stage::Waiting, d, c2) == (Stage::Partial { output: d, code: c2 }),
        receive_ok(Stage::Waiting, d) <==> d.len() == BUFFER_LEN,
        !receive_ok(Stage::Done { output: o, code: c1 }, d),
{
    lemma_compare_prefix(o, d, 0, i);
}

/// Compares two replies.
pub fn compare(old: &[u8], new: &[u8]) -> (c: Compare)
    ensures
        c == compare_spec(old@, new@),
{
    let mut i: usize = 0;
    while i < old.len() && i < new.len()
        invariant
            compare_from(old@, new@, 0) == compare_from(old@, new@, i as int),
        decreases old@.len() - i,
    {
        let o = old[i];
        let n = new[i];
        if o != n && o != 0 && n != 0 {
            return Compare::Mismatch(i);
        } else if o == 0 {
            return Compare::New;
        } else if n == 0 {
            return Compare::Old;
        }
        i = i + 1;
    }
    Compare::Old
}

/// The two status codes in one word (see `merge_codes`).
pub fn merge(first: u32, second: u32) -> (c: u32)
    ensures
        c == merge_codes(first, second),
{
    if first < second {
        first | (second << 16u32)
    } else {
        second | (first << 16u32)
    }
}

/// Takes one device's reply: the first is kept, the second is merged with
/// it.
pub fn receive(store: &mut Progress, data: &[u8], code: u32)
    requires
        receive_ok(old(store)@, data@),
    ensures
        final(store)@ == receive_stage(old(store)@, data@, code),
{
    let next = match &*store {
        Progress::Empty => Progress::Partial(Store { output: bytes_to_vec(data), code }),
        Progress::Partial(s) => {
            let result = compare(s.output.as_slice(), data);
            let output = match result {
                Compare::New => bytes_to_vec(data),
                Compare::Old => bytes_to_vec(s.output.as_slice()),
                Compare::Mismatch(_) => vstd::pervasive::unreached(),
            };
            Progress::Done(Store { output, code: merge(s.code, code) })
        },
        Progress::Done(_) => vstd::pervasive::unreached(),
    };
    *store = next;
}

/// The terminal: it forwards every message to a screen device and a line
/// device, with reply handlers that keep and merge their replies.
pub struct Terminal {
    vga: ModHandle,
    serial: ModHandle,
    store: Progress,
}

impl Terminal {
    /// A terminal forwarding to the modules `vga` and `serial`, with no
    /// reply yet.
    pub fn new(vga: ModHandle, serial: ModHandle) -> (t: Terminal)
        ensures
            t.vga_target() == vga,
            t.serial_target() == serial,
            t.stage() == Stage::Waiting,
    {
        Terminal { vga, serial, store: Progress::Empty }
    }

    /// The module that gets the messages first.
    pub closed spec fn vga_target(&self) -> ModHandle {
        self.vga
    }

    /// The module that gets the messages second.
    pub closed spec fn serial_target(&self) -> ModHandle {
        self.serial
    }

    /// How far the terminal is with merging replies.
    pub closed spec fn stage(&self) -> Stage {
        self.store@
    }

    /// The module that gets the messages first.
    pub fn vga_handle(&self) -> (h: ModHandle)
        ensures
            h == self.vga_target(),
    {
        self.vga
    }

    /// The module that gets the messages second.
    pub fn serial_handle(&self) -> (h: ModHandle)
        ensures
            h == self.serial_target(),
    {
        self.serial
    }

    /// Takes one device's reply (see `receive`).
    pub(crate) fn take_reply(&mut self, data: &[u8], code: u32)
        requires
            receive_ok(old(self).stage(), data@),
        ensures
            final(self).stage() == receive_stage(old(self).stage(), data@, code),
            final(self).vga_target() == old(self).vga_target(),
            final(self).serial_target() == old(self).serial_target(),
    {
        receive(&mut self.store, data, code);
    }

    /// Writes the merged reply into `out` and returns the merged status
    /// code.
    pub(crate) fn answer(&self, out: &mut [u8]) -> (status: u32)
        requires
            self.stage() is Done,
            self.stage()->Done_output.len() == old(out)@.len(),
        ensures
            final(out)@ == self.stage()->Done_output,
            status == self.stage()->Done_code,
    {
        match &self.store {
            Progress::Done(s) => {
                copy_prefix(out, s.output.as_slice());
                assert(out@ =~= s.output@);
                s.code
            },
            _ => vstd::pervasive::unreached(),
        }
    }
}

} // verus!
