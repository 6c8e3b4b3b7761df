use chip8::{decode_opcode, Chip8Error, Instruction, Ram, Screen, FONTSET};

#[test]
fn fetch_composes_big_endian_word() {
    let mut ram = Ram::new();
    ram.load_rom(&[0x12, 0x34]).unwrap();
    assert_eq!(ram.fetch_opcode(512), Ok(0x1234));
}

#[test]
fn fetch_at_last_byte_is_out_of_range() {
    let ram = Ram::new();
    assert_eq!(ram.fetch_opcode(4094), Ok(0));
    assert_eq!(ram.fetch_opcode(4095), Err(Chip8Error::AddressOutOfRange));
}

#[test]
fn new_ram_holds_font_table() {
    let ram = Ram::new();
    for (a, byte) in FONTSET.iter().enumerate() {
        assert_eq!(ram.read_byte(a), Ok(*byte));
    }
    assert_eq!(ram.read_byte(80), Ok(0));
    assert_eq!(ram.fetch_opcode(0), Ok(0xF090));
}

#[test]
fn read_and_write_bytes() {
    let mut ram = Ram::new();
    assert_eq!(ram.write_byte(4095, 7), Ok(()));
    assert_eq!(ram.read_byte(4095), Ok(7));
    assert_eq!(ram.write_byte(4096, 7), Err(Chip8Error::AddressOutOfRange));
    assert_eq!(ram.read_byte(4096), Err(Chip8Error::AddressOutOfRange));
}

#[test]
fn load_replaces_bytes_from_program_start() {
    let mut ram = Ram::new();
    ram.load_rom(&[1, 2, 3]).unwrap();
    ram.load_rom(&[9]).unwrap();
    assert_eq!(ram.read_byte(511), Ok(0));
    assert_eq!(ram.read_byte(512), Ok(9));
    assert_eq!(ram.read_byte(513), Ok(2));
    assert_eq!(ram.load_rom(&vec![0u8; 3585]), Err(Chip8Error::ProgramTooLarge));
    assert_eq!(ram.read_byte(512), Ok(9));
}

#[test]
fn screen_xor_returns_previous_value() {
    let mut screen = Screen::new();
    assert_eq!(screen.get_pixel(70), Ok(false));
    assert_eq!(screen.xor_pixel(70), Ok(false));
    assert_eq!(screen.get_pixel(70), Ok(true));
    assert_eq!(screen.xor_pixel(70), Ok(true));
    assert_eq!(screen.get_pixel(70), Ok(false));
    assert_eq!(screen.xor_pixel(2048), Err(Chip8Error::AddressOutOfRange));
    assert_eq!(screen.get_pixel(2048), Err(Chip8Error::AddressOutOfRange));
}

#[test]
fn screen_clear_and_snapshot() {
    let mut screen = Screen::new();
    screen.xor_pixel(0).unwrap();
    screen.xor_pixel(2047).unwrap();
    let pixels = screen.get_pixels();
    assert_eq!(pixels.len(), 2048);
    assert!(pixels[0] && pixels[2047] && !pixels[1]);
    screen.clear_screen();
    assert!(screen.get_pixels().iter().all(|p| !p));
}

#[test]
fn decode_recognises_each_family() {
    assert_eq!(decode_opcode(0x0000), Ok(Instruction::Nop));
    assert_eq!(decode_opcode(0x00E0), Ok(Instruction::ClearScreen));
    assert_eq!(decode_opcode(0x00EE), Ok(Instruction::Return));
    assert_eq!(decode_opcode(0x1ABC), Ok(Instruction::Jump { addr: 0xABC }));
    assert_eq!(decode_opcode(0x2ABC), Ok(Instruction::Call { addr: 0xABC }));
    assert_eq!(decode_opcode(0x3A12), Ok(Instruction::SkipIfEqualImm { x: 0xA, nn: 0x12 }));
    assert_eq!(decode_opcode(0x8AB4), Ok(Instruction::AddReg { x: 0xA, y: 0xB }));
    assert_eq!(decode_opcode(0x8ABE), Ok(Instruction::ShiftLeft { x: 0xA }));
    assert_eq!(decode_opcode(0xD12F), Ok(Instruction::Draw { x: 1, y: 2, n: 0xF }));
    assert_eq!(decode_opcode(0xE29E), Ok(Instruction::SkipIfKey { x: 2 }));
    assert_eq!(decode_opcode(0xF365), Ok(Instruction::LoadRegisters { x: 3 }));
    assert_eq!(decode_opcode(0xF40A), Ok(Instruction::WaitKey { x: 4 }));
}

#[test]
fn decode_rejects_unknown_shapes() {
    for w in [0x0001u16, 0x00E1, 0x5121, 0x8008, 0x9001, 0xE0A2, 0xF000, 0xF066] {
        assert_eq!(decode_opcode(w), Err(Chip8Error::UnknownOpcode(w)));
    }
}
