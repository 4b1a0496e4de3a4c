//! The decisions of the PS/2 keyboard driver: controller commands and
//! configuration bits, the meaning of scan codes, and the line that the user
//! is typing.

use crate::port::Port;
use vstd::prelude::*;
use vstd::std_specs::convert::FromSpecImpl;

verus! {

/// The byte with which a device acknowledges a command.
pub const PS2_ACK: u8 = 0xFA;

/// The process identifier under which the kernel announces an interrupt.
pub const KERNEL_SENDER: u64 = 0;

/// A command to the controller.
#[derive(Clone, Copy, Debug, PartialEq, Eq, Structural)]
pub enum PS2CtlCmd {
    ReadControllerCfg,
    WriteControllerCfg,
}

impl PS2CtlCmd {
    /// The byte that stands for the command.
    pub open spec fn code(self) -> u8 {
        match self {
            PS2CtlCmd::ReadControllerCfg => 0x20,
            PS2CtlCmd::WriteControllerCfg => 0x60,
        }
    }
}

impl From<PS2CtlCmd> for u8 {
    fn from(cmd: PS2CtlCmd) -> (code: u8) {
        match cmd {
            PS2CtlCmd::ReadControllerCfg => 0x20,
            PS2CtlCmd::WriteControllerCfg => 0x60,
        }
    }
}

impl FromSpecImpl<PS2CtlCmd> for u8 {
    open spec fn obeys_from_spec() -> bool {
        true
    }

    open spec fn from_spec(cmd: PS2CtlCmd) -> u8 {
        cmd.code()
    }
}

/// The controller: its two ports.
pub struct PS2Ctl {
    data_port: Port<u8, u8>,
    sts_or_cmd_reg: Port<u8, u8>,
}

impl PS2Ctl {
    /// The controller at its fixed place: data at `0x60`, status and
    /// commands at `0x64`.
    #[must_use]
    pub fn new() -> (ctl: PS2Ctl)
        ensures
            ctl.spec_data_port()@ == 0x60,
            ctl.spec_sts_or_cmd_reg()@ == 0x64,
    {
        Self { data_port: Port::new(0x60), sts_or_cmd_reg: Port::new(0x64) }
    }

    /// The port through which data passes.
    pub closed spec fn spec_data_port(&self) -> Port<u8, u8> {
        self.data_port
    }

    /// The port that gives the status when read and takes commands when
    /// written.
    pub closed spec fn spec_sts_or_cmd_reg(&self) -> Port<u8, u8> {
        self.sts_or_cmd_reg
    }

    /// The port through which data passes.
    #[verifier::when_used_as_spec(spec_data_port)]
    pub fn data_port(&self) -> (port: Port<u8, u8>)
        ensures
            port == self.spec_data_port(),
    {
        self.data_port
    }

    /// The port that gives the status when read and takes commands when
    /// written.
    #[verifier::when_used_as_spec(spec_sts_or_cmd_reg)]
    pub fn sts_or_cmd_reg(&self) -> (port: Port<u8, u8>)
        ensures
            port == self.spec_sts_or_cmd_reg(),
    {
        self.sts_or_cmd_reg
    }
}

/// Whether bit `n` of `byte` is set.
pub open spec fn bit_is_set(byte: u8, n: u8) -> bool {
    byte & (1u8 << n) != 0
}

/// `byte` with bit `n` set to `on`.
pub open spec fn with_bit(byte: u8, n: u8, on: bool) -> u8 {
    if on {
        byte | (1u8 << n)
    } else {
        byte & !(1u8 << n)
    }
}

/// Setting a bit makes that bit read as set and leaves the others alone.
pub proof fn lemma_with_bit(byte: u8, n: u8, on: bool, m: u8)
    requires
        n < 8,
        m < 8,
    ensures
        bit_is_set(with_bit(byte, n, on), m) == (if m == n {
            on
        } else {
            bit_is_set(byte, m)
        }),
{
    assert((byte | (1u8 << n)) & (1u8 << m) != 0 <==> (m == n || byte & (1u8 << m) != 0))
        by (bit_vector)
        requires
            n < 8,
            m < 8,
    ;
    assert((byte & !(1u8 << n)) & (1u8 << m) != 0 <==> (m != n && byte & (1u8 << m) != 0))
        by (bit_vector)
        requires
            n < 8,
            m < 8,
    ;
}

/// Whether the status byte says that the controller has data to read.
pub fn output_full(status: u8) -> (full: bool)
    ensures
        full == bit_is_set(status, 0),
{
    assert(1u8 << 0u8 == 1u8) by (bit_vector);
    (status & 1) != 0
}

/// Whether the status byte says that the controller still holds data
/// written to it.
pub fn input_full(status: u8) -> (full: bool)
    ensures
        full == bit_is_set(status, 1),
{
    assert(1u8 << 1u8 == 2u8) by (bit_vector);
    (status & (1 << 1)) != 0
}

/// The configuration byte of the controller.
#[derive(Clone, Copy, Debug, PartialEq, Eq, Structural)]
pub struct Ps2Cfg {
    bits: u8,
}

impl View for Ps2Cfg {
    type V = u8;

    closed spec fn view(&self) -> u8 {
        self.bits
    }
}

impl From<u8> for Ps2Cfg {
    fn from(bits: u8) -> (cfg: Ps2Cfg)
        ensures
            cfg@ == bits,
    {
        Ps2Cfg { bits }
    }
}

impl FromSpecImpl<u8> for Ps2Cfg {
    open spec fn obeys_from_spec() -> bool {
        false
    }

    open spec fn from_spec(bits: u8) -> Ps2Cfg {
        arbitrary()
    }
}

impl From<Ps2Cfg> for u8 {
    fn from(cfg: Ps2Cfg) -> (bits: u8)
        ensures
            bits == cfg@,
    {
        cfg.bits
    }
}

impl FromSpecImpl<Ps2Cfg> for u8 {
    open spec fn obeys_from_spec() -> bool {
        true
    }

    open spec fn from_spec(cfg: Ps2Cfg) -> u8 {
        cfg@
    }
}

impl Ps2Cfg {
    /// Bit 0: the first port raises interrupts.
    pub fn port1_intr(&self) -> (on: bool)
        ensures
            on == bit_is_set(self@, 0),
    {
        assert(1u8 << 0u8 == 0x01u8) by (bit_vector);
        self.bits & 0x01 != 0
    }

    /// Bit 1: the second port raises interrupts.
    pub fn port2_intr(&self) -> (on: bool)
        ensures
            on == bit_is_set(self@, 1),
    {
        assert(1u8 << 1u8 == 0x02u8) by (bit_vector);
        self.bits & 0x02 != 0
    }

    /// Bit 2: the power-on self test passed.
    pub fn post_pass(&self) -> (on: bool)
        ensures
            on == bit_is_set(self@, 2),
    {
        assert(1u8 << 2u8 == 0x04u8) by (bit_vector);
        self.bits & 0x04 != 0
    }

    /// Bit 4: the clock of the first port is off.
    pub fn port1_clock(&self) -> (on: bool)
        ensures
            on == bit_is_set(self@, 4),
    {
        assert(1u8 << 4u8 == 0x10u8) by (bit_vector);
        self.bits & 0x10 != 0
    }

    /// Bit 5: the clock of the second port is off.
    pub fn port2_clock(&self) -> (on: bool)
        ensures
            on == bit_is_set(self@, 5),
    {
        assert(1u8 << 5u8 == 0x20u8) by (bit_vector);
        self.bits & 0x20 != 0
    }

    /// Bit 6: scan codes of the first port are translated.
    pub fn port1_translation(&self) -> (on: bool)
        ensures
            on == bit_is_set(self@, 6),
    {
        assert(1u8 << 6u8 == 0x40u8) by (bit_vector);
        self.bits & 0x40 != 0
    }

    /// This configuration with bit 0 set to `on`.
    pub fn with_port1_intr(self, on: bool) -> (cfg: Ps2Cfg)
        ensures
            cfg@ == with_bit(self@, 0, on),
    {
        assert(1u8 << 0u8 == 0x01u8) by (bit_vector);
        assert(!0x01u8 == 0xFEu8) by (bit_vector);
        Ps2Cfg { bits: if on { self.bits | 0x01 } else { self.bits & 0xFE } }
    }

    /// This configuration with bit 1 set to `on`.
    pub fn with_port2_intr(self, on: bool) -> (cfg: Ps2Cfg)
        ensures
            cfg@ == with_bit(self@, 1, on),
    {
        assert(1u8 << 1u8 == 0x02u8) by (bit_vector);
        assert(!0x02u8 == 0xFDu8) by (bit_vector);
        Ps2Cfg { bits: if on { self.bits | 0x02 } else { self.bits & 0xFD } }
    }

    /// This configuration with bit 6 set to `on`.
    pub fn with_port1_translation(self, on: bool) -> (cfg: Ps2Cfg)
        ensures
            cfg@ == with_bit(self@, 6, on),
    {
        assert(1u8 << 6u8 == 0x40u8) by (bit_vector);
        assert(!0x40u8 == 0xBFu8) by (bit_vector);
        Ps2Cfg { bits: if on { self.bits | 0x40 } else { self.bits & 0xBF } }
    }

    /// The configuration that the driver writes back after it has read
    /// `self`: interrupts of the first port on, interrupts of the second port
    /// off, translation on, everything else as read.
    pub fn for_keyboard(self) -> (cfg: Ps2Cfg)
        ensures
            cfg@ == with_bit(with_bit(with_bit(self@, 0, true), 1, false), 6, true),
            bit_is_set(cfg@, 0),
            !bit_is_set(cfg@, 1),
            bit_is_set(cfg@, 6),
            forall|m: u8| m < 8 && m != 0 && m != 1 && m != 6 ==> bit_is_set(cfg@, m) == bit_is_set(
                self@,
                m,
            ),
    {
        let cfg = self.with_port1_intr(true).with_port2_intr(false).with_port1_translation(true);
        proof {
            let a = with_bit(self@, 0, true);
            let b = with_bit(a, 1, false);
            assert forall|m: u8| m < 8 implies bit_is_set(cfg@, m) == (if m == 0 || m == 6 {
                true
            } else if m == 1 {
                false
            } else {
                bit_is_set(self@, m)
            }) by {
                lemma_with_bit(self@, 0, true, m);
                lemma_with_bit(a, 1, false, m);
                lemma_with_bit(b, 6, true, m);
            }
            assert(bit_is_set(cfg@, 0u8));
            assert(!bit_is_set(cfg@, 1u8));
            assert(bit_is_set(cfg@, 6u8));
        }
        cfg
    }
}

/// What the keyboard reports.
#[derive(Clone, Copy, Debug, PartialEq, Eq, Structural)]
pub enum Ps2Event {
    ArrowLeft,
    ArrowRight,
    ArrowUp,
    ArrowDown,
    BackSpace,
    Pressed(char),
    Released(char),
    Other(u8),
}

/// The keys of the digit row, from scan code `0x02` on.
pub open spec fn digit_row() -> Seq<char> {
    seq!['1', '2', '3', '4', '5', '6', '7', '8', '9', '0']
}

/// The keys of the upper letter row, from scan code `0x10` on.
pub open spec fn upper_row() -> Seq<char> {
    seq!['q', 'w', 'e', 'r', 't', 'y', 'u', 'i', 'o', 'p']
}

/// The keys of the middle letter row, from scan code `0x1E` on.
pub open spec fn middle_row() -> Seq<char> {
    seq!['a', 's', 'd', 'f', 'g', 'h', 'j', 'k', 'l']
}

/// The keys of the lower letter row, from scan code `0x2C` on.
pub open spec fn lower_row() -> Seq<char> {
    seq!['z', 'x', 'c', 'v', 'b', 'n', 'm']
}

/// The event that scan code `code` stands for. The two codes between the
/// upper letter row and the enter key stand for nothing.
pub open spec fn event_of(code: u8) -> Option<Ps2Event> {
    if code == 0x0E {
        Some(Ps2Event::BackSpace)
    } else if 0x02 <= code <= 0x0B {
        Some(Ps2Event::Pressed(digit_row()[code - 0x02]))
    } else if code == 0x1C {
        Some(Ps2Event::Pressed('\n'))
    } else if 0x10 <= code <= 0x19 {
        Some(Ps2Event::Pressed(upper_row()[code - 0x10]))
    } else if code == 0x1A || code == 0x1B {
        None
    } else if 0x1E <= code <= 0x26 {
        Some(Ps2Event::Pressed(middle_row()[code - 0x1E]))
    } else if code == 0x29 {
        Some(Ps2Event::Pressed('0'))
    } else if 0x2C <= code <= 0x32 {
        Some(Ps2Event::Pressed(lower_row()[code - 0x2C]))
    } else if code == 0x39 {
        Some(Ps2Event::Pressed(' '))
    } else {
        Some(Ps2Event::Other(code))
    }
}

/// Decodes a scan code.
pub fn decode_scancode(code: u8) -> (event: Option<Ps2Event>)
    ensures
        event == event_of(code),
{
    let digits: [char; 10] = ['1', '2', '3', '4', '5', '6', '7', '8', '9', '0'];
    let upper: [char; 10] = ['q', 'w', 'e', 'r', 't', 'y', 'u', 'i', 'o', 'p'];
    let middle: [char; 9] = ['a', 's', 'd', 'f', 'g', 'h', 'j', 'k', 'l'];
    let lower: [char; 7] = ['z', 'x', 'c', 'v', 'b', 'n', 'm'];
    proof {
        assert(digits@ =~= digit_row());
        assert(upper@ =~= upper_row());
        assert(middle@ =~= middle_row());
        assert(lower@ =~= lower_row());
    }
    if code == 0x0E {
        Some(Ps2Event::BackSpace)
    } else if code >= 0x02 && code <= 0x0B {
        Some(Ps2Event::Pressed(digits[(code - 0x02) as usize]))
    } else if code == 0x1C {
        Some(Ps2Event::Pressed('\n'))
    } else if code >= 0x10 && code <= 0x1C {
        if code <= 0x19 {
            Some(Ps2Event::Pressed(upper[(code - 0x10) as usize]))
        } else {
            None
        }
    } else if code >= 0x1E && code <= 0x26 {
        Some(Ps2Event::Pressed(middle[(code - 0x1E) as usize]))
    } else if code == 0x29 {
        Some(Ps2Event::Pressed('0'))
    } else if code >= 0x2C && code <= 0x32 {
        Some(Ps2Event::Pressed(lower[(code - 0x2C) as usize]))
    } else if code == 0x39 {
        Some(Ps2Event::Pressed(' '))
    } else {
        Some(Ps2Event::Other(code))
    }
}

/// What the driver does with an event.
#[derive(Debug, PartialEq, Eq)]
pub enum LineAction {
    /// Nothing.
    Ignore,
    /// Show the character.
    Echo(char),
    /// Show a line break, report the finished line, and show a new prompt.
    Submit(Vec<char>),
}

/// Mathematical value of what the driver does with an event.
pub enum LineActionView {
    Ignore,
    Echo(char),
    Submit(Seq<char>),
}

impl View for LineAction {
    type V = LineActionView;

    open spec fn view(&self) -> LineActionView {
        match self {
            LineAction::Ignore => LineActionView::Ignore,
            LineAction::Echo(c) => LineActionView::Echo(*c),
            LineAction::Submit(line) => LineActionView::Submit(line@),
        }
    }
}

/// What is done with `event` while `typed` has been typed on the line.
pub open spec fn action_for(typed: Seq<char>, event: Ps2Event) -> LineActionView {
    match event {
        Ps2Event::Pressed(ch) => if ch == '\n' {
            LineActionView::Submit(typed)
        } else {
            LineActionView::Echo(ch)
        },
        _ => LineActionView::Ignore,
    }
}

/// What has been typed on the line after `event`.
pub open spec fn typed_after(typed: Seq<char>, event: Ps2Event) -> Seq<char> {
    match event {
        Ps2Event::Pressed(ch) => if ch == '\n' {
            Seq::empty()
        } else {
            typed.push(ch)
        },
        _ => typed,
    }
}

/// The line that the user is typing.
pub struct LineBuffer {
    typed: Vec<char>,
}

impl View for LineBuffer {
    type V = Seq<char>;

    closed spec fn view(&self) -> Seq<char> {
        self.typed@
    }
}

impl LineBuffer {
    /// An empty line.
    pub fn new() -> (line: LineBuffer)
        ensures
            line@ == Seq::<char>::empty(),
    {
        LineBuffer { typed: Vec::new() }
    }

    /// Takes in an event: a pressed key is added to the line and echoed, the
    /// enter key submits the line and starts a new one, anything else is
    /// ignored.
    pub fn feed(&mut self, event: Ps2Event) -> (action: LineAction)
        ensures
            action@ == action_for(old(self)@, event),
            final(self)@ == typed_after(old(self)@, event),
    {
        match event {
            Ps2Event::Pressed(ch) => {
                if ch != '\n' {
                    self.typed.push(ch);
                    LineAction::Echo(ch)
                } else {
                    let mut line: Vec<char> = Vec::new();
                    core::mem::swap(&mut self.typed, &mut line);
                    LineAction::Submit(line)
                }
            },
            _ => LineAction::Ignore,
        }
    }
}

} // verus!
