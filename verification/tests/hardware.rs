use core::ops::ControlFlow;
use kernel_core::acpi::ICHeader;
use kernel_core::acpi::InterruptController;
use kernel_core::acpi::SDTHeader;
use kernel_core::acpi::SDT_HEADER_LEN;
use kernel_core::port::Port;
use kernel_core::print::kprint;
use kernel_core::ps2::decode_scancode;
use kernel_core::ps2::input_full;
use kernel_core::ps2::output_full;
use kernel_core::ps2::LineAction;
use kernel_core::ps2::LineBuffer;
use kernel_core::ps2::PS2Ctl;
use kernel_core::ps2::PS2CtlCmd;
use kernel_core::ps2::Ps2Cfg;
use kernel_core::ps2::Ps2Event;
use kernel_core::ps2::KERNEL_SENDER;
use kernel_core::ps2::PS2_ACK;
use kernel_core::syscall::TerminationReason;
use kernel_core::terminal::glyph_index;
use kernel_core::terminal::Cell;
use kernel_core::terminal::FrameBufferInfo;
use kernel_core::terminal::ScrollPlan;
use kernel_core::terminal::Terminal;
use kernel_core::terminal::TerminalStep;

fn table(length: u32, fill: u8) -> Vec<u8> {
    let mut bytes = Vec::new();
    bytes.extend_from_slice(b"APIC");
    bytes.extend_from_slice(&length.to_le_bytes());
    bytes.push(4);
    bytes.push(0);
    bytes.extend_from_slice(b"OEMID ");
    bytes.extend_from_slice(b"TABLE ID");
    bytes.extend_from_slice(&0x0102_0304u32.to_le_bytes());
    bytes.extend_from_slice(b"CRTR");
    bytes.extend_from_slice(&0xA0B0_C0D0u32.to_le_bytes());
    while bytes.len() < length as usize {
        bytes.push(fill);
    }
    bytes
}

fn sealed(mut bytes: Vec<u8>, length: usize) -> Vec<u8> {
    let sum = bytes[..length].iter().fold(0u8, |sum, &byte| sum.wrapping_add(byte));
    bytes[9] = bytes[9].wrapping_sub(sum);
    bytes
}

#[test]
fn a_table_header_is_read_field_by_field() {
    let bytes = table(44, 0x11);
    let header = SDTHeader::from_bytes(&bytes).unwrap();
    assert_eq!(SDT_HEADER_LEN, 36);
    assert_eq!(header.signature_bytes(), *b"APIC");
    assert_eq!(header.length(), 44);
    assert_eq!(header.revision, 4);
    assert_eq!(header.oem_id_bytes(), *b"OEMID ");
    assert_eq!(header.oem_table_id_bytes(), *b"TABLE ID");
    assert_eq!(header.oem_revision, 0x0102_0304);
    assert_eq!(header.creator_id_bytes(), *b"CRTR");
    assert_eq!(header.creator_revision, 0xA0B0_C0D0);
}

#[test]
fn a_short_table_header_is_not_read() {
    assert!(SDTHeader::from_bytes(&[]).is_none());
    assert!(SDTHeader::from_bytes(&table(36, 0)[..35]).is_none());
    assert!(SDTHeader::from_bytes(&table(36, 0)).is_some());
}

#[test]
fn the_length_is_read_least_significant_byte_first() {
    let mut bytes = table(36, 0);
    bytes[4..8].copy_from_slice(&[0x78, 0x56, 0x34, 0x12]);
    assert_eq!(SDTHeader::from_bytes(&bytes).unwrap().length(), 0x1234_5678);
    bytes[4..8].copy_from_slice(&[0xFF, 0xFF, 0xFF, 0xFF]);
    assert_eq!(SDTHeader::from_bytes(&bytes).unwrap().length(), 0xFFFF_FFFF);
}

#[test]
fn a_table_is_valid_when_its_bytes_add_up_to_zero() {
    let bytes = sealed(table(60, 0x37), 60);
    let header = SDTHeader::from_bytes(&bytes).unwrap();
    assert!(header.validate(&bytes));
    let mut broken = bytes.clone();
    broken[50] = broken[50].wrapping_add(1);
    assert!(!header.validate(&broken));
}

#[test]
fn bytes_behind_the_table_do_not_count() {
    let mut bytes = sealed(table(40, 0x01), 40);
    let header = SDTHeader::from_bytes(&bytes).unwrap();
    bytes.extend_from_slice(&[1, 2, 3]);
    assert!(header.validate(&bytes));
}

#[test]
fn a_table_shorter_than_its_length_is_not_valid() {
    let bytes = sealed(table(40, 0x01), 40);
    let header = SDTHeader::from_bytes(&bytes).unwrap();
    assert!(!header.validate(&bytes[..39]));
    assert!(!header.validate(&[]));
}

#[test]
fn a_table_of_length_zero_is_valid() {
    let bytes = table(0, 0);
    let header = SDTHeader::from_bytes(&bytes).unwrap();
    assert_eq!(header.length(), 0);
    assert!(header.validate(&bytes));
    assert!(header.validate(&[]));
}

#[test]
fn a_record_header_gives_type_and_length() {
    let header = ICHeader::from_bytes(&[1, 12, 0, 0]).unwrap();
    assert_eq!(header.type_, 1);
    assert_eq!(header.record_type(), 1);
    assert_eq!(header.length(), 12);
    let header = ICHeader::from_bytes(&[0x80, 0xFF]).unwrap();
    assert_eq!((header.type_, header.length()), (0x80, 255));
    assert!(ICHeader::from_bytes(&[1]).is_none());
    assert!(ICHeader::from_bytes(&[]).is_none());
}

#[test]
fn an_interrupt_controller_record_keeps_its_header() {
    let header = ICHeader::from_bytes(&[1, 12]).unwrap();
    assert_eq!(InterruptController::InputOutputAPIC(header).header(), header);
    assert_eq!(InterruptController::OemReserved(header).header(), header);
    assert_ne!(
        InterruptController::InputOutputAPIC(header),
        InterruptController::ProcessorLocalAPIC(header)
    );
}

#[test]
fn a_port_knows_its_address() {
    let port: Port<u8, u8> = Port::new(0x60);
    assert_eq!(port.address(), 0x60);
    assert_eq!(port.address_off(4), 0x64);
    let port: Port<u16, u16> = Port::new(0xFFF0);
    assert_eq!(port.address_off(0xF), 0xFFFF);
    let copy = port;
    assert_eq!(copy.address(), port.address());
    let port: Port<u32, u32> = Port::new(0xCF8);
    assert_eq!(port.clone().address(), 0xCF8);
}

#[test]
fn printing_hands_back_the_text() {
    assert_eq!(kprint(b"hello"), ControlFlow::Continue("hello"));
    assert_eq!(kprint("grüße → 世界".as_bytes()), ControlFlow::Continue("grüße → 世界"));
    assert_eq!(kprint(b""), ControlFlow::Continue(""));
}

#[test]
fn printing_bytes_that_are_not_utf8_is_a_malformed_body() {
    for body in [&[0xFFu8][..], &[b'o', b'k', 0x80][..], &[0xE2, 0x82][..], &[0xF5, 0x80, 0x80, 0x80][..]]
    {
        assert_eq!(kprint(body), ControlFlow::Break(Some(TerminationReason::MalformedBody)));
    }
}

#[test]
fn controller_commands_have_their_codes() {
    assert_eq!(u8::from(PS2CtlCmd::ReadControllerCfg), 0x20);
    assert_eq!(u8::from(PS2CtlCmd::WriteControllerCfg), 0x60);
    assert_eq!(PS2_ACK, 0xFA);
    assert_eq!(KERNEL_SENDER, 0);
}

#[test]
fn the_controller_has_its_two_ports() {
    let ctl = PS2Ctl::new();
    assert_eq!(ctl.data_port().address(), 0x60);
    assert_eq!(ctl.sts_or_cmd_reg().address(), 0x64);
}

#[test]
fn the_status_bits_are_read() {
    assert!(output_full(0b0000_0001));
    assert!(!output_full(0b1111_1110));
    assert!(input_full(0b0000_0010));
    assert!(!input_full(0b1111_1101));
    assert!(output_full(0xFF) && input_full(0xFF));
    assert!(!output_full(0) && !input_full(0));
}

#[test]
fn the_configuration_bits_are_read() {
    let cfg = Ps2Cfg::from(0b0101_0101);
    assert!(cfg.port1_intr());
    assert!(!cfg.port2_intr());
    assert!(cfg.post_pass());
    assert!(cfg.port1_clock());
    assert!(!cfg.port2_clock());
    assert!(cfg.port1_translation());
    let cfg = Ps2Cfg::from(0b1010_1010);
    assert!(!cfg.port1_intr());
    assert!(cfg.port2_intr());
    assert!(!cfg.post_pass());
    assert!(!cfg.port1_clock());
    assert!(cfg.port2_clock());
    assert!(!cfg.port1_translation());
}

#[test]
fn the_configuration_bits_are_set_one_by_one() {
    assert_eq!(u8::from(Ps2Cfg::from(0).with_port1_intr(true)), 0x01);
    assert_eq!(u8::from(Ps2Cfg::from(0).with_port2_intr(true)), 0x02);
    assert_eq!(u8::from(Ps2Cfg::from(0).with_port1_translation(true)), 0x40);
    assert_eq!(u8::from(Ps2Cfg::from(0xFF).with_port1_intr(false)), 0xFE);
    assert_eq!(u8::from(Ps2Cfg::from(0xFF).with_port2_intr(false)), 0xFD);
    assert_eq!(u8::from(Ps2Cfg::from(0xFF).with_port1_translation(false)), 0xBF);
    assert_eq!(u8::from(Ps2Cfg::from(0xA5).with_port1_intr(true)), 0xA5);
}

#[test]
fn the_keyboard_configuration_keeps_the_other_bits() {
    assert_eq!(u8::from(Ps2Cfg::from(0x00).for_keyboard()), 0x41);
    assert_eq!(u8::from(Ps2Cfg::from(0xFF).for_keyboard()), 0xFD);
    assert_eq!(u8::from(Ps2Cfg::from(0b0011_0110).for_keyboard()), 0b0111_0101);
    for raw in 0..=255u8 {
        assert_eq!(u8::from(Ps2Cfg::from(raw).for_keyboard()), (raw | 0x41) & !0x02);
    }
}

#[test]
fn scan_codes_mean_keys() {
    assert_eq!(decode_scancode(0x0E), Some(Ps2Event::BackSpace));
    assert_eq!(decode_scancode(0x1C), Some(Ps2Event::Pressed('\n')));
    assert_eq!(decode_scancode(0x29), Some(Ps2Event::Pressed('0')));
    assert_eq!(decode_scancode(0x39), Some(Ps2Event::Pressed(' ')));
    let rows: [(u8, &str); 4] =
        [(0x02, "1234567890"), (0x10, "qwertyuiop"), (0x1E, "asdfghjkl"), (0x2C, "zxcvbnm")];
    for (first, keys) in rows {
        for (i, key) in keys.chars().enumerate() {
            assert_eq!(decode_scancode(first + i as u8), Some(Ps2Event::Pressed(key)));
        }
    }
}

#[test]
fn other_scan_codes_are_passed_on() {
    for code in [0x00u8, 0x01, 0x0C, 0x0D, 0x0F, 0x1D, 0x27, 0x28, 0x2A, 0x2B, 0x33, 0x38, 0x3A, 0x80, 0xFF]
    {
        assert_eq!(decode_scancode(code), Some(Ps2Event::Other(code)));
    }
}

#[test]
fn the_two_codes_after_the_upper_row_mean_nothing() {
    assert_eq!(decode_scancode(0x1A), None);
    assert_eq!(decode_scancode(0x1B), None);
    let nothing = (0..=255u8).filter(|&code| decode_scancode(code).is_none()).count();
    assert_eq!(nothing, 2);
}

#[test]
fn a_line_is_collected_until_enter() {
    let mut line = LineBuffer::new();
    assert_eq!(line.feed(Ps2Event::Pressed('h')), LineAction::Echo('h'));
    assert_eq!(line.feed(Ps2Event::Pressed('i')), LineAction::Echo('i'));
    assert_eq!(line.feed(Ps2Event::BackSpace), LineAction::Ignore);
    assert_eq!(line.feed(Ps2Event::Released('i')), LineAction::Ignore);
    assert_eq!(line.feed(Ps2Event::Other(0x80)), LineAction::Ignore);
    assert_eq!(line.feed(Ps2Event::ArrowLeft), LineAction::Ignore);
    assert_eq!(line.feed(Ps2Event::Pressed(' ')), LineAction::Echo(' '));
    assert_eq!(line.feed(Ps2Event::Pressed('\n')), LineAction::Submit(vec!['h', 'i', ' ']));
    assert_eq!(line.feed(Ps2Event::Pressed('\n')), LineAction::Submit(vec![]));
    assert_eq!(line.feed(Ps2Event::Pressed('x')), LineAction::Echo('x'));
    assert_eq!(line.feed(Ps2Event::Pressed('\n')), LineAction::Submit(vec!['x']));
}

fn small_terminal() -> Terminal {
    // Three cells in a row, two rows of cells.
    Terminal::new(FrameBufferInfo { width: 24, height: 32, stride: 32 })
}

#[test]
fn a_terminal_measures_the_frame_buffer_in_cells() {
    let t = Terminal::new(FrameBufferInfo { width: 1024, height: 768, stride: 1024 });
    assert_eq!((t.x, t.y, t.width, t.height), (0, 0, 128, 48));
    let t = Terminal::new(FrameBufferInfo { width: 1023, height: 767, stride: 1024 });
    assert_eq!((t.width, t.height), (127, 47));
}

#[test]
fn mapping_counts_huge_pages() {
    let pages = |height, stride| {
        Terminal::new(FrameBufferInfo { width: stride, height, stride }).map_fb()
    };
    assert_eq!(pages(768, 1024), 1);
    assert_eq!(pages(1080, 1920), 1);
    assert_eq!(pages(2048, 1024), 1);
    assert_eq!(pages(2049, 1024), 2);
    assert_eq!(pages(2160, 3840), 4);
    assert_eq!(pages(0, 0), 0);
}

#[test]
fn characters_are_drawn_where_the_cursor_stands() {
    let mut t = small_terminal();
    assert_eq!(t.put('a'), TerminalStep { draw: Some(Cell { column: 0, row: 0 }), scroll: None });
    assert_eq!((t.x, t.y), (1, 0));
    assert_eq!(t.put('b'), TerminalStep { draw: Some(Cell { column: 1, row: 0 }), scroll: None });
    assert_eq!((t.x, t.y), (2, 0));
    // The third character fills the row.
    assert_eq!(t.put('c'), TerminalStep { draw: Some(Cell { column: 2, row: 0 }), scroll: None });
    assert_eq!((t.x, t.y), (0, 1));
}

#[test]
fn a_line_break_goes_to_the_start_of_the_next_row() {
    let mut t = small_terminal();
    t.put('a');
    assert_eq!(t.put('\n'), TerminalStep { draw: None, scroll: None });
    assert_eq!((t.x, t.y), (0, 1));
}

#[test]
fn below_the_last_row_the_picture_scrolls() {
    let mut t = small_terminal();
    t.put('\n');
    let plan = ScrollPlan { copy_from: 32 * 16, copy_to: 32 * 32, clear_from: 32 * 16 };
    assert_eq!(t.put('\n'), TerminalStep { draw: None, scroll: Some(plan) });
    assert_eq!((t.x, t.y), (0, 1));
    t.put('a');
    t.put('b');
    assert_eq!(
        t.put('c'),
        TerminalStep { draw: Some(Cell { column: 2, row: 1 }), scroll: Some(plan) }
    );
    assert_eq!((t.x, t.y), (0, 1));
}

#[test]
fn scrollback_does_nothing_inside_the_picture() {
    let mut t = small_terminal();
    t.x = 2;
    t.y = 1;
    assert_eq!(t.handle_scrollback(), None);
    assert_eq!((t.x, t.y), (2, 1));
    t.y = 2;
    assert_eq!(
        t.handle_scrollback(),
        Some(ScrollPlan { copy_from: 512, copy_to: 1024, clear_from: 512 })
    );
    assert_eq!((t.x, t.y), (0, 1));
}

#[test]
fn clearing_takes_the_cursor_home() {
    let mut t = small_terminal();
    t.put('a');
    t.put('\n');
    t.clear();
    assert_eq!((t.x, t.y), (0, 0));
    assert_eq!((t.width, t.height), (3, 2));
}

#[test]
fn the_font_starts_at_the_exclamation_mark() {
    assert_eq!(glyph_index('!'), Some(0));
    assert_eq!(glyph_index('A'), Some(0x20));
    assert_eq!(glyph_index('~'), Some(0x5D));
    assert_eq!(glyph_index(' '), None);
    assert_eq!(glyph_index('\n'), None);
    assert_eq!(glyph_index('\u{0}'), None);
    assert_eq!(glyph_index('é'), Some(0xE9 - 0x21));
}

#[test]
fn a_glyph_sets_the_pixels_of_its_bits() {
    let mut t = small_terminal();
    assert_eq!(t.draw_char(&[]), vec![]);
    assert_eq!(t.draw_char(&[0x00, 0x00]), vec![]);
    // Bit 0 lies eight pixels to the right of the cell's left edge, bit 7 one.
    assert_eq!(t.draw_char(&[0x01]), vec![(8, 0)]);
    assert_eq!(t.draw_char(&[0x80]), vec![(1, 0)]);
    assert_eq!(t.draw_char(&[0x81, 0x00, 0x18]), vec![(8, 0), (1, 0), (5, 2), (4, 2)]);
    t.x = 2;
    t.y = 1;
    assert_eq!(t.draw_char(&[0x00, 0x03]), vec![(24, 17), (23, 17)]);
    assert_eq!(
        t.draw_char(&[0xFF]),
        vec![(24, 16), (23, 16), (22, 16), (21, 16), (20, 16), (19, 16), (18, 16), (17, 16)]
    );
}
