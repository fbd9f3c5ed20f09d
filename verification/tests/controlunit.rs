use std::collections::VecDeque;

use milton::controlunit::ControlUnit;
use milton::datapath::{AluOperation, DataPath, DataPathSignals};

fn conf() -> ControlUnit {
    let cu = ControlUnit::new([0; 65536], [0; 65536]);
    cu
}

#[test]
fn sign_spadd() {
    let mut cu = conf();
    cu.datapath.mem[(u16::MAX - 4) as usize] = 0;
    cu.datapath.mem[(u16::MAX - 8) as usize] = 1;
    cu.mem[0] = 0x0080F000; // sign 0xF000
    cu.mem[1] = 0x0E400000; // save ~ 0
    cu.mem[2] = 0x0C80FFFC; // spadd -4
    cu.mem[3] = 0x00807FFF; // sign 0x7FFF
    cu.mem[4] = 0x0E400000; // save ~ 0
    cu.mem[5] = 0x11000000; // halt
    while !cu.tick() {}
    assert_eq!(cu.datapath.mem[(u16::MAX - 4) as usize], 1);
    assert_eq!(cu.datapath.mem[(u16::MAX - 8) as usize], 0);
}

#[test]
fn ops() {
    let mut v: u32 = 0;
    v += 5;
    v += 0x00038276u32;
    v += v;
    v &= 0x0F0F as u32;
    v |= 0xA0A0 as u32;
    v -= 0x00000276u32;
    v *= 3;
    v /= 2;
    v %= 11;
    let mut cu = conf();
    cu.datapath.mem[12] = 0x00038276u32.to_le_bytes()[0];
    cu.datapath.mem[13] = 0x00038276u32.to_le_bytes()[1];
    cu.datapath.mem[14] = 0x00038276u32.to_le_bytes()[2];
    cu.datapath.mem[15] = 0x00038276u32.to_le_bytes()[3];
    cu.datapath.mem[16] = 0x00000276u32.to_le_bytes()[0];
    cu.datapath.mem[17] = 0x00000276u32.to_le_bytes()[1];
    cu.datapath.mem[18] = 0x00000276u32.to_le_bytes()[2];
    cu.datapath.mem[19] = 0x00000276u32.to_le_bytes()[3];
    cu.mem[0] = 0x03800005; // add 0x0005
    cu.mem[1] = 0x0300000C; // add # 0x000C
    cu.mem[2] = 0x03F01234; // add acc
    cu.mem[3] = 0x01800F0F; // and 0x0F0F
    cu.mem[4] = 0x0280A0A0; // or 0xA0A0
    cu.mem[5] = 0x04000010; // sub # 0x0010
    cu.mem[6] = 0x05800003; // mul 0x0003
    cu.mem[7] = 0x06800002; // div 0x0002
    cu.mem[8] = 0x0780000B; // rem 0x000B
    cu.mem[9] = 0x11000000; // halt
    while !cu.tick() {}
    assert_eq!(cu.datapath.acc, v);
}

#[test]
fn jumps() {
    let mut cu = conf();
    cu.mem[0] = 0x09000009; // jifz +9
    cu.mem[9] = 0x03800005; // add 5
    cu.mem[10] = 0x09000005; // jifz +5
    cu.mem[11] = 0x03800004; // add 4
    cu.mem[12] = 0x08000004; // jump +4
    cu.mem[15] = 0x11000000; // halt
    cu.mem[16] = 0x0800FFFF; // jump -1
    while !cu.tick() {}
    assert_eq!(cu.datapath.acc, 9);
}

#[test]
fn call_ret() {
    let mut cu = conf();
    cu.mem[0] = 0x03800005; // add 5
    cu.mem[1] = 0x0E400000; // save ~ 0
    cu.mem[2] = 0x0A000020; // call 32
    cu.mem[3] = 0x0A000040; // call 64
    cu.mem[4] = 0x0D400000; // load ~ 0
    cu.mem[5] = 0x11000000; // halt

    cu.mem[32] = 0x0D400004; // load ~ 4
    cu.mem[33] = 0x03800006; // add 6
    cu.mem[34] = 0x0E400004; // save ~ 4
    cu.mem[35] = 0x0B000000; // ret

    cu.mem[64] = 0x0D400004; // load ~ 4
    cu.mem[65] = 0x03800007; // add 7
    cu.mem[66] = 0x0E400004; // save ~ 4
    cu.mem[67] = 0x0B000000; // ret

    while !cu.tick() {}
    assert_eq!(cu.datapath.acc, 18);
}

#[test]
fn rel() {
    let mut cu = conf();
    cu.datapath.mem[12] = 16;
    cu.datapath.mem[16] = 0x12345678u32.to_le_bytes()[0];
    cu.datapath.mem[17] = 0x12345678u32.to_le_bytes()[1];
    cu.datapath.mem[18] = 0x12345678u32.to_le_bytes()[2];
    cu.datapath.mem[19] = 0x12345678u32.to_le_bytes()[3];
    cu.mem[0] = 0x0F00000C; // ldrel 12
    cu.mem[1] = 0x038000AA; // sum 0xAA
    cu.mem[2] = 0x1000000C; // svrel 12
    cu.mem[3] = 0x11000000; // halt
    while !cu.tick() {}
    assert_eq!(
        u32::from_le_bytes([
            cu.datapath.mem[16],
            cu.datapath.mem[17],
            cu.datapath.mem[18],
            cu.datapath.mem[19]
        ]),
        0x12345678u32 + 0xAAu32
    );
}

#[test]
fn in_out() {
    let mut cu = conf();
    cu.datapath.input.append(&mut VecDeque::from_iter(
        "Hello".as_bytes().into_iter().map(|v| *v),
    ));
    cu.mem[0] = 0x0D000000; // load # 0
    cu.mem[1] = 0x0E000004; // save # 4
    cu.mem[2] = 0x0D000000; // load # 0
    cu.mem[3] = 0x0E000004; // save # 4
    cu.mem[4] = 0x0D000000; // load # 0
    cu.mem[5] = 0x0E000004; // save # 4
    cu.mem[6] = 0x0D000000; // load # 0
    cu.mem[7] = 0x0E000004; // save # 4
    cu.mem[8] = 0x0D000000; // load # 0
    cu.mem[9] = 0x0E000004; // save # 4
    cu.mem[10] = 0x11000000; // halt
    while !cu.tick() {}
    assert_eq!(std::str::from_utf8(&cu.datapath.output).unwrap(), "Hello");
}

#[test]
fn tick_counts_ticks_and_instructions() {
    let mut cu = conf();
    cu.mem[0] = 0x0A000020; // call 32: four ticks, one instruction
    cu.mem[32] = 0x11000000; // halt
    while !cu.tick() {}
    assert_eq!(cu.ticks_count, 5);
    assert_eq!(cu.instructions_count, 2);
    assert_eq!(cu.ip, 32);
}

#[test]
fn call_pushes_return_address_and_moves_sp() {
    let mut cu = conf();
    cu.mem[7] = 0x0A000040; // call 64 from ip 7
    cu.mem[64] = 0x11000000; // halt
    // walk to ip 7 first: seven single-tick no-ops (add 0)
    for i in 0..7 {
        cu.mem[i] = 0x03800000; // add 0
    }
    while !cu.tick() {}
    let sp0 = 0xFFFBu32 as usize;
    let slot = sp0 - 4;
    assert_eq!(cu.datapath.sp, 0xFFF7);
    assert_eq!(
        u32::from_le_bytes([
            cu.datapath.mem[slot],
            cu.datapath.mem[slot + 1],
            cu.datapath.mem[slot + 2],
            cu.datapath.mem[slot + 3]
        ]) as u16,
        8
    );
}

#[test]
fn memory_write_then_read_round_trip() {
    let mut dp = DataPath::new([0; 65536]);
    dp.acc = 0xDEADBEEF;
    // save # 0x1000
    dp.process(DataPathSignals {
        arg: 0x1000,
        addr_mode: [false, false],
        alu_op: AluOperation::Right,
        write: true,
        latch_acc: false,
        latch_stack: false,
        extend_arg: true,
        io: false,
    });
    // load # 0x1000 into acc
    dp.process(DataPathSignals {
        arg: 0x1000,
        addr_mode: [false, false],
        alu_op: AluOperation::Right,
        write: false,
        latch_acc: true,
        latch_stack: false,
        extend_arg: true,
        io: false,
    });
    assert_eq!(dp.acc, 0xDEADBEEF);
}

#[test]
fn fault_test_flags_bad_words_and_zero_divides() {
    let mut cu = conf();
    cu.mem[0] = 0x12000000; // no such opcode
    assert!(cu.tick_faults());
    cu.mem[0] = 0x0E800000; // save with an immediate operand
    assert!(cu.tick_faults());
    cu.mem[0] = 0x06800000; // div 0
    assert!(cu.tick_faults());
    cu.mem[0] = 0x06800002; // div 2
    assert!(!cu.tick_faults());
    cu.mem[0] = 0x06000000; // div # 0: the word at address 0 reads as zero
    assert!(cu.tick_faults());
}
