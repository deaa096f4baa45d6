use chipeite::cpu::instruction::Instruction;

#[test]
fn from_bytes_assembles_big_endian() {
    let inst = Instruction::from_bytes([0xAB, 0xCD]);
    assert_eq!(inst.four(), 0xABCD);
}

#[test]
fn nibbles_come_out_most_significant_first() {
    let inst = Instruction::from_bytes([0xD1, 0x2F]);
    let (id, rest) = inst.one();
    assert_eq!(id, 0xD);
    let (x, rest) = rest.one();
    assert_eq!(x, 0x1);
    let (y, rest) = rest.one();
    assert_eq!(y, 0x2);
    let (n, _) = rest.one();
    assert_eq!(n, 0xF);
}

#[test]
fn byte_and_address_extraction() {
    let inst = Instruction::from_bytes([0x6A, 0x55]);
    let (id, rest) = inst.one();
    assert_eq!(id, 0x6);
    let (x, rest) = rest.one();
    assert_eq!(x, 0xA);
    let (kk, _) = rest.two();
    assert_eq!(kk, 0x55);

    let inst = Instruction::from_bytes([0x1F, 0xED]);
    let (id, rest) = inst.one();
    assert_eq!(id, 0x1);
    let (nnn, _) = rest.three();
    assert_eq!(nnn, 0xFED);
}

#[test]
fn fields_are_mutually_consistent() {
    // The immediate byte is the y nibble above the n nibble, and the
    // address is the x nibble above the immediate byte.
    for op in [0x0000u16, 0x1234, 0x8ACE, 0xFFFF, 0xD12F, 0x7081] {
        let bytes = [(op >> 8) as u8, (op & 0xFF) as u8];
        let (_, rest) = Instruction::from_bytes(bytes).one();
        let (x, after_x) = rest.one();
        let (y, after_y) = after_x.one();
        let (n, _) = after_y.one();
        let (kk, _) = after_x.two();
        let (nnn, _) = rest.three();
        assert_eq!(kk as u16, ((y as u16) << 4) | n as u16);
        assert_eq!(nnn, ((x as u16) << 8) | kk as u16);
        assert_eq!(nnn, op & 0xFFF);
    }
}

#[test]
fn whole_family_sample_decodes() {
    // One representative word per opcode family.
    let words: [u16; 16] = [
        0x00E0, 0x1111, 0x2222, 0x3344, 0x4455, 0x5560, 0x6677, 0x7788, 0x899E, 0x9AB0, 0xABCD,
        0xBCDE, 0xCDEF, 0xD123, 0xE19E, 0xF265,
    ];
    for (i, op) in words.iter().enumerate() {
        let bytes = [(op >> 8) as u8, (op & 0xFF) as u8];
        let (id, _) = Instruction::from_bytes(bytes).one();
        assert_eq!(id as usize, i);
    }
}
