use exokernel::arch::interrupts::{
    key_output, keyboard_handler, ticks, timer_handler, DecodedKey, InterruptIndex,
    KeyboardAction, KeyboardDecoder, PortWrite, TickCounter, END_OF_INTERRUPT,
    KEYBOARD_DATA_PORT, PIC_1_COMMAND_PORT, PIC_1_OFFSET, PIC_2_OFFSET,
};
use exokernel::task::scheduler::{FuelGauge, DEFAULT_FUEL};

const EOI: PortWrite = PortWrite { port: 0x20, value: 0x20 };

#[test]
fn interrupt_vectors() {
    assert_eq!(PIC_1_OFFSET, 32);
    assert_eq!(PIC_2_OFFSET, 40);
    assert_eq!(InterruptIndex::Timer.as_u8(), 32);
    assert_eq!(InterruptIndex::Keyboard.as_u8(), 33);
    assert_eq!(InterruptIndex::Timer.as_usize(), 32);
    assert_eq!(InterruptIndex::Keyboard.as_usize(), 33);
    assert_eq!(PIC_1_COMMAND_PORT, 0x20);
    assert_eq!(END_OF_INTERRUPT, 0x20);
    assert_eq!(KEYBOARD_DATA_PORT, 0x60);
}

#[test]
fn timer_counts_ticks_and_burns_fuel() {
    let mut counter = TickCounter::new();
    let mut fuel = FuelGauge::new();
    assert_eq!(ticks(&counter), 0);
    for k in 1u64..=30 {
        assert_eq!(timer_handler(&mut counter, &mut fuel), EOI);
        assert_eq!(ticks(&counter), k);
        let expected = if k >= DEFAULT_FUEL { 0 } else { DEFAULT_FUEL - k };
        assert_eq!(fuel.remaining(), expected);
    }
}

#[test]
fn tick_counter_wraps_around() {
    let mut counter = TickCounter::starting_at(u64::MAX - 1);
    let mut fuel = FuelGauge::new();
    timer_handler(&mut counter, &mut fuel);
    assert_eq!(ticks(&counter), u64::MAX);
    timer_handler(&mut counter, &mut fuel);
    assert_eq!(ticks(&counter), 0);
}

#[test]
fn keyboard_emits_unicode_characters() {
    let mut decoder = KeyboardDecoder::new();
    // 'A' key pressed, then released (scancode set 1).
    assert_eq!(
        keyboard_handler(&mut decoder, 0x1E),
        KeyboardAction { emit: Some('a'), acknowledge: EOI }
    );
    assert_eq!(
        keyboard_handler(&mut decoder, 0x9E),
        KeyboardAction { emit: None, acknowledge: EOI }
    );
    // With the left shift key held down.
    assert_eq!(keyboard_handler(&mut decoder, 0x2A).acknowledge, EOI);
    assert_eq!(keyboard_handler(&mut decoder, 0x1E).emit, Some('A'));
    assert_eq!(keyboard_handler(&mut decoder, 0x9E).emit, None);
    assert_eq!(keyboard_handler(&mut decoder, 0xAA).emit, None);
    assert_eq!(keyboard_handler(&mut decoder, 0x02).emit, Some('1'));
}

#[test]
fn keyboard_emits_nothing_for_keys_without_character() {
    let mut decoder = KeyboardDecoder::new();
    // F1 has no Unicode character.
    assert_eq!(
        keyboard_handler(&mut decoder, 0x3B),
        KeyboardAction { emit: None, acknowledge: EOI }
    );
    // The first byte of an extended scancode completes no key event.
    assert_eq!(
        keyboard_handler(&mut decoder, 0xE0),
        KeyboardAction { emit: None, acknowledge: EOI }
    );
    assert_eq!(keyboard_handler(&mut decoder, 0x48).acknowledge, EOI);
}

#[test]
fn key_output_picks_the_character() {
    assert_eq!(key_output(Some(DecodedKey::Unicode('x'))), Some('x'));
    assert_eq!(key_output(Some(DecodedKey::Unicode('\n'))), Some('\n'));
    assert_eq!(key_output(Some(DecodedKey::RawKey(pc_keyboard::KeyCode::F1))), None);
    assert_eq!(key_output(None), None);
}
