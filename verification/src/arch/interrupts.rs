//! Hardware interrupt handling: timer and keyboard behind the 8259 PIC.
//!
//! IRQ 0-15 are remapped to interrupt vectors 32-47 to avoid conflicts
//! with the CPU exception vectors 0-31.

use crate::task::scheduler::{tick, timer_tick, FuelGauge};
use vstd::prelude::*;

verus! {

/// PIC1 starts at vector 32 (right after CPU exceptions 0-31).
pub const PIC_1_OFFSET: u8 = 32;

/// PIC2 starts at vector 40.
pub const PIC_2_OFFSET: u8 = PIC_1_OFFSET + 8;

/// Command port of PIC1.
pub const PIC_1_COMMAND_PORT: u16 = 0x20;

/// The end-of-interrupt command.
pub const END_OF_INTERRUPT: u8 = 0x20;

/// Data port of the keyboard controller.
pub const KEYBOARD_DATA_PORT: u16 = 0x60;

/// Hardware interrupt vector indices.
#[derive(Debug, Clone, Copy)]
pub enum InterruptIndex {
    /// IRQ0, vector 32.
    Timer,
    /// IRQ1, vector 33.
    Keyboard,
}

impl InterruptIndex {
    /// The interrupt vector.
    pub open spec fn vector(self) -> int {
        match self {
            InterruptIndex::Timer => PIC_1_OFFSET as int,
            InterruptIndex::Keyboard => PIC_1_OFFSET + 1,
        }
    }

    /// The interrupt vector as `u8`.
    pub fn as_u8(self) -> (vector: u8)
        ensures
            vector == self.vector(),
    {
        match self {
            InterruptIndex::Timer => PIC_1_OFFSET,
            InterruptIndex::Keyboard => PIC_1_OFFSET + 1,
        }
    }

    /// The interrupt vector as `usize`.
    pub fn as_usize(self) -> (vector: usize)
        ensures
            vector == self.vector(),
    {
        self.as_u8() as usize
    }
}

/// A byte to be written to an I/O port.
#[derive(Debug, Clone, Copy, PartialEq, Eq, Structural)]
pub struct PortWrite {
    pub port: u16,
    pub value: u8,
}

/// The write that acknowledges an interrupt of PIC1: end-of-interrupt to
/// its command port.
pub open spec fn acknowledgement() -> PortWrite {
    PortWrite { port: PIC_1_COMMAND_PORT, value: END_OF_INTERRUPT }
}

/// Tick counter, incremented by the timer interrupt.
pub struct TickCounter {
    ticks: u64,
}

impl View for TickCounter {
    type V = u64;

    closed spec fn view(&self) -> u64 {
        self.ticks
    }
}

impl TickCounter {
    /// A counter at zero.
    pub fn new() -> (counter: TickCounter)
        ensures
            counter@ == 0,
    {
        TickCounter { ticks: 0 }
    }

    /// A counter at `ticks`.
    pub fn starting_at(ticks: u64) -> (counter: TickCounter)
        ensures
            counter@ == ticks,
    {
        TickCounter { ticks }
    }
}

/// The count after one more tick: it wraps around after `u64::MAX`.
pub open spec fn next_tick(ticks: u64) -> u64 {
    if ticks == u64::MAX {
        0
    } else {
        (ticks + 1) as u64
    }
}

/// Get the current tick count.
pub fn ticks(counter: &TickCounter) -> (ticks: u64)
    ensures
        ticks == counter@,
{
    counter.ticks
}

/// Timer interrupt (IRQ0, vector 32): count the tick, take one from the
/// scheduler's fuel, and say how to acknowledge the interrupt.
pub fn timer_handler(counter: &mut TickCounter, fuel: &mut FuelGauge) -> (acknowledge: PortWrite)
    ensures
        final(counter)@ == next_tick(old(counter)@),
        final(fuel)@ == tick(old(fuel)@),
        acknowledge == acknowledgement(),
{
    counter.ticks = counter.ticks.wrapping_add(1);
    timer_tick(fuel);
    PortWrite { port: PIC_1_COMMAND_PORT, value: END_OF_INTERRUPT }
}

/// A key event of the scancode decoder: which key, and whether it went
/// down or up. Nothing is read from it here.
#[verifier::external_type_specification]
#[verifier::external_body]
pub struct ExKeyEvent(pc_keyboard::KeyEvent);

/// An error of the scancode decoder. Nothing is read from it here.
#[verifier::external_type_specification]
#[verifier::external_body]
pub struct ExError(pc_keyboard::Error);

/// The code of a key. Nothing is read from it here.
#[verifier::external_type_specification]
#[verifier::external_body]
pub struct ExKeyCode(pc_keyboard::KeyCode);

/// What a key event decodes to: a Unicode character, or the code of a key
/// that has none.
#[derive(Debug, Clone, Copy)]
pub enum DecodedKey {
    RawKey(pc_keyboard::KeyCode),
    Unicode(char),
}

/// Scancode decoder for a US 104-key keyboard that sends scancode set 1,
/// with no special handling of the control key.
///
/// It holds a `pc_keyboard::Keyboard`, whose state (a scancode sequence
/// under way, the modifier keys that are down) is opaque here: what it
/// decodes is named, not described.
#[verifier::external_body]
pub struct KeyboardDecoder {
    keyboard: pc_keyboard::Keyboard<pc_keyboard::layouts::Us104Key, pc_keyboard::ScancodeSet1>,
}

/// What `pc_keyboard::Keyboard::add_byte` answers when the decoder is fed
/// `byte`: a key event once a scancode sequence is complete, nothing while
/// one is under way, or an error. It depends on the decoder and the byte
/// alone.
pub uninterp spec fn event_for(decoder: KeyboardDecoder, byte: u8) -> Result<
    Option<pc_keyboard::KeyEvent>,
    pc_keyboard::Error,
>;

/// The decoder as `pc_keyboard::Keyboard::add_byte` leaves it after `byte`.
pub uninterp spec fn after_byte(decoder: KeyboardDecoder, byte: u8) -> KeyboardDecoder;

/// What `pc_keyboard::Keyboard::process_keyevent` answers for `event`: the
/// key that the event decodes to under the modifier keys that are down, or
/// nothing. It depends on the decoder and the event alone.
pub uninterp spec fn key_for(decoder: KeyboardDecoder, event: pc_keyboard::KeyEvent) -> Option<
    DecodedKey,
>;

/// The decoder as `pc_keyboard::Keyboard::process_keyevent` leaves it
/// after `event`.
pub uninterp spec fn after_event(
    decoder: KeyboardDecoder,
    event: pc_keyboard::KeyEvent,
) -> KeyboardDecoder;

/// The key that a scancode byte decodes to: the byte is fed to the decoder,
/// and if that completes a key event, the event is decoded by the decoder
/// as the byte has left it.
pub open spec fn decoded(decoder: KeyboardDecoder, byte: u8) -> Option<DecodedKey> {
    match event_for(decoder, byte) {
        Ok(Some(event)) => key_for(after_byte(decoder, byte), event),
        _ => None,
    }
}

/// The decoder after a scancode byte: after the byte, and after the key
/// event if the byte completed one.
pub open spec fn after_scancode(decoder: KeyboardDecoder, byte: u8) -> KeyboardDecoder {
    match event_for(decoder, byte) {
        Ok(Some(event)) => after_event(after_byte(decoder, byte), event),
        _ => after_byte(decoder, byte),
    }
}

impl KeyboardDecoder {
    /// A decoder as `pc_keyboard` makes it.
    pub fn new() -> (decoder: KeyboardDecoder) {
        KeyboardDecoder::us104_set1()
    }

    /// Makes the `pc_keyboard::Keyboard`.
    ///
    /// Calls `pc_keyboard::Keyboard::new` with `ScancodeSet1::new()`,
    /// `layouts::Us104Key` and `HandleControl::Ignore`. Nothing is claimed
    /// of the result.
    #[verifier::external_body]
    fn us104_set1() -> (decoder: KeyboardDecoder) {
        KeyboardDecoder {
            keyboard: pc_keyboard::Keyboard::new(
                pc_keyboard::ScancodeSet1::new(),
                pc_keyboard::layouts::Us104Key,
                pc_keyboard::HandleControl::Ignore,
            ),
        }
    }

    /// Feeds one scancode byte to the decoder.
    ///
    /// Calls `pc_keyboard::Keyboard::add_byte`, which advances the state of
    /// the scancode set and answers with a key event once a scancode
    /// sequence is complete. The answer and the new state are named, not
    /// described: they are those of the decoder and the byte.
    #[verifier::external_body]
    fn add_byte(&mut self, byte: u8) -> (event: Result<
        Option<pc_keyboard::KeyEvent>,
        pc_keyboard::Error,
    >)
        ensures
            event == event_for(*old(self), byte),
            *final(self) == after_byte(*old(self), byte),
    {
        self.keyboard.add_byte(byte)
    }

    /// Decodes a key event.
    ///
    /// Calls `pc_keyboard::Keyboard::process_keyevent`, which keeps track
    /// of the modifier keys and maps other keys through the layout. The
    /// answer and the new state are named, not described: they are those
    /// of the decoder and the event.
    #[verifier::external_body]
    fn process_keyevent(&mut self, event: pc_keyboard::KeyEvent) -> (key: Option<DecodedKey>)
        ensures
            key == key_for(*old(self), event),
            *final(self) == after_event(*old(self), event),
    {
        match self.keyboard.process_keyevent(event) {
            Some(pc_keyboard::DecodedKey::RawKey(code)) => Some(DecodedKey::RawKey(code)),
            Some(pc_keyboard::DecodedKey::Unicode(character)) => Some(
                DecodedKey::Unicode(character),
            ),
            None => None,
        }
    }
}

/// What the keyboard interrupt handler asks of its caller.
#[derive(Debug, Clone, Copy, PartialEq, Eq, Structural)]
pub struct KeyboardAction {
    /// The character to emit through the diagnostic sink, if any.
    pub emit: Option<char>,
    /// The write that acknowledges the interrupt.
    pub acknowledge: PortWrite,
}

/// The character that a decoded key emits: its Unicode character, if it
/// has one.
pub open spec fn emitted(key: Option<DecodedKey>) -> Option<char> {
    match key {
        Some(DecodedKey::Unicode(character)) => Some(character),
        _ => None,
    }
}

/// The character to emit for what the decoder answered.
pub fn key_output(key: Option<DecodedKey>) -> (character: Option<char>)
    ensures
        character == emitted(key),
{
    match key {
        Some(DecodedKey::Unicode(character)) => Some(character),
        _ => None,
    }
}

/// Keyboard interrupt (IRQ1, vector 33): feed the scancode that was read
/// from the keyboard data port to the decoder, and say which character to
/// emit, if any, and how to acknowledge the interrupt.
///
/// Whatever the decoder answers, the interrupt is acknowledged. The
/// character that is emitted is the one that the scancode decodes to: if
/// the scancode completes a key event and the event decodes to a Unicode
/// character, that character, and nothing otherwise.
pub fn keyboard_handler(decoder: &mut KeyboardDecoder, scancode: u8) -> (action: KeyboardAction)
    ensures
        action.emit == emitted(decoded(*old(decoder), scancode)),
        action.acknowledge == acknowledgement(),
        *final(decoder) == after_scancode(*old(decoder), scancode),
{
    let key = match decoder.add_byte(scancode) {
        Ok(Some(event)) => decoder.process_keyevent(event),
        _ => None,
    };
    KeyboardAction {
        emit: key_output(key),
        acknowledge: PortWrite { port: PIC_1_COMMAND_PORT, value: END_OF_INTERRUPT },
    }
}

} // verus!
