use milton::{decode_asm, encode_instruction};

#[test]
fn renders_every_operand_form() {
    assert_eq!(decode_asm(0x03800005), "add 5");
    assert_eq!(decode_asm(0x0300000C), "add # 12");
    assert_eq!(decode_asm(0x0E400000), "save ~ 0");
    assert_eq!(decode_asm(0x03F01234), "add acc");
    assert_eq!(decode_asm(0x0C80FFFC), "spadd -4");
    assert_eq!(decode_asm(0x0B000000), "ret");
    assert_eq!(decode_asm(0x11000000), "halt");
}

#[test]
fn renders_jumps_with_signed_offsets() {
    assert_eq!(decode_asm(0x08000004), "jump 4");
    assert_eq!(decode_asm(0x0800FFFF), "jump -1");
    assert_eq!(decode_asm(0x09000009), "jifz 9");
    assert_eq!(decode_asm(0x0A000020), "call 32");
}

#[test]
fn renders_the_extreme_arguments() {
    assert_eq!(decode_asm(0x00808000), "sign -32768");
    assert_eq!(decode_asm(0x00807FFF), "sign 32767");
    assert_eq!(decode_asm(0x0D800000), "load 0");
}

#[test]
fn encode_assembles_the_three_fields() {
    assert_eq!(encode_instruction(0x03, 2, 5), 0x03800005);
    assert_eq!(encode_instruction(0x0E, 1, 0), 0x0E400000);
    assert_eq!(encode_instruction(0x11, 0, 0), 0x11000000);
    assert_eq!(encode_instruction(0x08, 0, 0xFFFF), 0x0800FFFF);
}

#[test]
fn disassembly_of_an_encoded_word_round_trips_the_fields() {
    // direct mode: the mnemonic line shows the mode mark and the argument
    let w = encode_instruction(0x0D, 0, 12);
    assert_eq!(decode_asm(w), "load # 12");
    // stack-relative with a negative offset
    let w = encode_instruction(0x0E, 1, (-8i16) as u16);
    assert_eq!(decode_asm(w), "save ~ -8");
    // immediate
    let w = encode_instruction(0x05, 2, 3);
    assert_eq!(decode_asm(w), "mul 3");
    // accumulator
    let w = encode_instruction(0x01, 3, 0);
    assert_eq!(decode_asm(w), "and acc");
}
