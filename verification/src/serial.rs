//! The serial console: what to write to the ports of the UART, and what to
//! make of what it answers.
//!
//! Nothing here touches a port. Each function says which bytes go to which
//! ports, or judges a byte that was read; the caller does the port I/O.

use vstd::prelude::*;

verus! {

/// The first port of the first serial interface.
pub const PORT: u16 = 0x3f8;

/// The byte that is sent through the chip in loopback mode to test it.
pub const LOOPBACK_BYTE: u8 = 0xAE;

/// The bit of the line status register that says that the transmitter can
/// take another byte.
pub const TRANSMIT_EMPTY: u8 = 0x20;

/// One byte to write to one port.
#[derive(Clone, Copy, Debug, PartialEq, Eq, Structural)]
pub struct PortWrite {
    pub port: u16,
    pub value: u8,
}

/// How the test of the chip ended: the status to report, and the write that
/// ends the setup where there is one.
#[derive(Clone, Copy, Debug, PartialEq, Eq, Structural)]
pub struct SerialInit {
    /// 0 for a chip that works and 1 for a faulty one.
    pub status: i32,
    /// The write that takes a working chip out of loopback mode.
    pub finish: Option<PortWrite>,
}

/// The writes that set the chip up and start its test: interrupts off, the
/// divisor latch opened, the divisor set to 3, eight bits without parity and
/// with one stop bit, the buffers on and cleared, loopback mode, and the
/// test byte.
pub open spec fn init_script() -> Seq<PortWrite> {
    seq![
        PortWrite { port: 0x3f9, value: 0x00 },
        PortWrite { port: 0x3fb, value: 0x80 },
        PortWrite { port: 0x3f8, value: 0x03 },
        PortWrite { port: 0x3f9, value: 0x00 },
        PortWrite { port: 0x3fb, value: 0x03 },
        PortWrite { port: 0x3fa, value: 0xC7 },
        PortWrite { port: 0x3fc, value: 0x0B },
        PortWrite { port: 0x3fc, value: 0x1E },
        PortWrite { port: 0x3f8, value: 0xAE },
    ]
}

/// The byte that stands for `a` on the wire: the low eight bits of its code.
pub open spec fn wire_byte(a: char) -> u8 {
    (a as u32 % 256) as u8
}

/// The writes that send the line `s`: one for each character, then one for
/// the line feed.
pub open spec fn line_writes(s: Seq<char>) -> Seq<PortWrite> {
    Seq::new(
        s.len() + 1,
        |i: int|
            PortWrite {
                port: PORT,
                value: if i < s.len() {
                    wire_byte(s[i])
                } else {
                    0x0A
                },
            },
    )
}

/// The writes that set the chip up and start its test, in the order in which
/// they are to be made. The byte that the chip then offers at [`PORT`] goes
/// to [`init_serial`].
pub fn init_commands() -> (commands: Vec<PortWrite>)
    ensures
        commands@ == init_script(),
{
    let mut commands: Vec<PortWrite> = Vec::new();
    commands.push(PortWrite { port: PORT + 1, value: 0x00 });
    commands.push(PortWrite { port: PORT + 3, value: 0x80 });
    commands.push(PortWrite { port: PORT, value: 0x03 });
    commands.push(PortWrite { port: PORT + 1, value: 0x00 });
    commands.push(PortWrite { port: PORT + 3, value: 0x03 });
    commands.push(PortWrite { port: PORT + 2, value: 0xC7 });
    commands.push(PortWrite { port: PORT + 4, value: 0x0B });
    commands.push(PortWrite { port: PORT + 4, value: 0x1E });
    commands.push(PortWrite { port: PORT, value: LOOPBACK_BYTE });
    assert(commands@ =~= init_script());
    commands
}

/// Judges the byte `echo` that the chip returned for the test byte. A chip
/// that returned the same byte works: the status is 0, and one more write
/// puts the chip into normal operation. Any other byte means a faulty chip:
/// the status is 1 and nothing more is written.
pub fn init_serial(echo: u8) -> (outcome: SerialInit)
    ensures
        echo == LOOPBACK_BYTE ==> outcome == (SerialInit {
            status: 0,
            finish: Some(PortWrite { port: 0x3fc, value: 0x0F }),
        }),
        echo != LOOPBACK_BYTE ==> outcome == (SerialInit { status: 1, finish: None }),
{
    if echo != LOOPBACK_BYTE {
        return SerialInit { status: 1, finish: None };
    }
    SerialInit { status: 0, finish: Some(PortWrite { port: PORT + 4, value: 0x0F }) }
}

/// Whether the line status `line_status`, as read from port [`PORT`]` + 5`,
/// says that the transmitter can take another byte.
pub fn is_transmit_empty(line_status: u8) -> (empty: bool)
    ensures
        empty == (line_status & TRANSMIT_EMPTY != 0),
{
    line_status & TRANSMIT_EMPTY != 0
}

/// The write that sends the character `a`, to be made once the transmitter
/// can take a byte.
pub fn write_serial(a: char) -> (write: PortWrite)
    ensures
        write == (PortWrite { port: PORT, value: wire_byte(a) }),
{
    PortWrite { port: PORT, value: (a as u32 % 256) as u8 }
}

/// The writes that send `s` as a line: its characters in order, then a line
/// feed.
pub fn println(s: &str) -> (writes: Vec<PortWrite>)
    ensures
        writes@ == line_writes(s@),
{
    let mut writes: Vec<PortWrite> = Vec::new();
    proof {
        broadcast use vstd::string::axiom_spec_iter;
    }
    for a in iter: s.chars()
        invariant
            iter.seq() == s@,
            writes@.len() == iter.index(),
            forall|j: int| 0 <= j < iter.index() ==> writes@[j] == line_writes(s@)[j],
    {
        writes.push(write_serial(a));
    }
    writes.push(write_serial('\n'));
    assert(writes@ =~= line_writes(s@));
    writes
}

} // verus!
