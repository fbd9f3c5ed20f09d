//! The control unit: fetches the instruction word at the instruction
//! pointer, decodes it into data-path control lines, and advances or
//! redirects the instruction pointer. A small micro-step counter lets one
//! opcode span several ticks (call, return, relative load/store).

use vstd::prelude::*;

use crate::datapath::{
    spec_operand, spec_process, spec_process_faults, AluOperation, DataPath, DataPathSignals,
    DataPathView,
};
use crate::{spec_addr_mode, spec_arg, spec_opcode};

verus! {

/// The control lines one decode produces: the data-path signals plus the
/// instruction-pointer controls.
pub struct InstructionDecoderResult {
    pub arg: u16,
    pub alu_op: AluOperation,
    pub addr_mode: [bool; 2],
    pub latch_acc: bool,
    pub latch_stack: bool,
    pub write: bool,
    pub extend_arg: bool,
    pub latch_ip: bool,
    pub if_zero: bool,
    pub jmp: bool,
    pub halt: bool,
    pub abs_jump: bool,
    pub io: bool,
}

/// The decode every opcode starts from: the word's own argument and
/// addressing mode, sign extension on, the instruction pointer advancing,
/// everything else off.
pub open spec fn spec_decode_base(word: u32) -> InstructionDecoderResult {
    InstructionDecoderResult {
        arg: word as u16,
        alu_op: AluOperation::Add,
        addr_mode: [(word >> 22u32) % 2 == 1, (word >> 23u32) % 2 == 1],
        latch_acc: false,
        latch_stack: false,
        write: false,
        extend_arg: true,
        latch_ip: true,
        if_zero: false,
        jmp: false,
        halt: false,
        abs_jump: false,
        io: false,
    }
}

/// Decoding faults on an opcode past `halt` and on a `save` whose addressing
/// mode selects an immediate or accumulator operand.
pub open spec fn spec_decode_faults(word: u32) -> bool {
    ||| spec_opcode(word) > 0x11
    ||| (spec_opcode(word) == 0x0E && (word >> 23u32) % 2 == 1)
}

/// One decode: the control lines for this tick and the next value of the
/// micro-step counter. `steps == 0` is the start of an opcode; a multi-tick
/// opcode counts down through its remaining micro-steps.
pub open spec fn spec_decode(word: u32, ip: u16, temp_reg: u32, steps: u8) -> (
    InstructionDecoderResult,
    u8,
) {
    let instr = spec_opcode(word);
    let base = spec_decode_base(word);
    if instr < 0x08 {
        let with_op = match instr {
            0x00u8 => InstructionDecoderResult { alu_op: AluOperation::Sign, ..base },
            0x01u8 => InstructionDecoderResult {
                alu_op: AluOperation::And,
                extend_arg: false,
                ..base
            },
            0x02u8 => InstructionDecoderResult {
                alu_op: AluOperation::Or,
                extend_arg: false,
                ..base
            },
            0x03u8 => InstructionDecoderResult { alu_op: AluOperation::Add, ..base },
            0x04u8 => InstructionDecoderResult { alu_op: AluOperation::Sub, ..base },
            0x05u8 => InstructionDecoderResult { alu_op: AluOperation::Mul, ..base },
            0x06u8 => InstructionDecoderResult { alu_op: AluOperation::Div, ..base },
            _ => InstructionDecoderResult { alu_op: AluOperation::Rem, ..base },
        };
        (InstructionDecoderResult { latch_acc: true, ..with_op }, steps)
    } else if instr < 0x0A {
        (InstructionDecoderResult { jmp: true, if_zero: instr == 0x09, ..base }, steps)
    } else if instr == 0x0A {
        let b = InstructionDecoderResult { latch_ip: false, alu_op: AluOperation::Right, ..base };
        if steps == 0 {
            (
                InstructionDecoderResult {
                    arg: (-4i16) as u16,
                    addr_mode: [false, true],
                    latch_stack: true,
                    ..b
                },
                3u8,
            )
        } else if steps == 3 {
            (
                InstructionDecoderResult {
                    arg: ip.wrapping_add(1),
                    addr_mode: [false, true],
                    latch_acc: true,
                    ..b
                },
                2u8,
            )
        } else if steps == 2 {
            (
                InstructionDecoderResult { arg: 0u16, addr_mode: [true, false], write: true, ..b },
                1u8,
            )
        } else {
            (
                InstructionDecoderResult {
                    addr_mode: [false, true],
                    latch_ip: true,
                    abs_jump: true,
                    ..b
                },
                0u8,
            )
        }
    } else if instr == 0x0B {
        let b = InstructionDecoderResult { alu_op: AluOperation::Right, ..base };
        if steps == 0 {
            (
                InstructionDecoderResult {
                    arg: 4u16,
                    addr_mode: [false, true],
                    latch_stack: true,
                    latch_ip: false,
                    ..b
                },
                1u8,
            )
        } else {
            (
                InstructionDecoderResult {
                    arg: (-4i16) as u16,
                    addr_mode: [true, false],
                    abs_jump: true,
                    ..b
                },
                0u8,
            )
        }
    } else if instr == 0x0C {
        (
            InstructionDecoderResult { latch_stack: true, alu_op: AluOperation::Right, ..base },
            steps,
        )
    } else if instr == 0x0D {
        (
            InstructionDecoderResult {
                alu_op: AluOperation::Right,
                latch_acc: true,
                io: base.arg == 0 && !base.addr_mode@[1],
                ..base
            },
            steps,
        )
    } else if instr == 0x0E {
        (InstructionDecoderResult { write: true, io: base.arg == 4, ..base }, steps)
    } else if instr == 0x0F {
        if steps == 0 {
            (
                InstructionDecoderResult {
                    alu_op: AluOperation::Right,
                    latch_ip: false,
                    ..base
                },
                1u8,
            )
        } else {
            (
                InstructionDecoderResult {
                    arg: temp_reg as u16,
                    io: temp_reg as u16 == 0,
                    addr_mode: [false, false],
                    alu_op: AluOperation::Right,
                    latch_acc: true,
                    ..base
                },
                0u8,
            )
        }
    } else if instr == 0x10 {
        if steps == 0 {
            (
                InstructionDecoderResult {
                    alu_op: AluOperation::Right,
                    latch_ip: false,
                    ..base
                },
                1u8,
            )
        } else {
            (
                InstructionDecoderResult {
                    arg: temp_reg as u16,
                    io: temp_reg as u16 == 4,
                    addr_mode: [false, false],
                    write: true,
                    ..base
                },
                0u8,
            )
        }
    } else {
        (InstructionDecoderResult { halt: true, ..base }, steps)
    }
}

/// The micro-step counter the decoder owns across ticks.
pub struct InstructionDecoder {
    pub steps: u8,
}

impl InstructionDecoder {
    /// Decode `word` at `ip` under the current micro-step, stepping the
    /// micro-step counter.
    pub fn process(&mut self, word: u32, ip: u16, temp_reg: u32) -> (res: InstructionDecoderResult)
        requires
            !spec_decode_faults(word),
        ensures
            res == spec_decode(word, ip, temp_reg, old(self).steps).0,
            final(self).steps == spec_decode(word, ip, temp_reg, old(self).steps).1,
    {
        let instr = (word >> 24u32) as u8;
        let mut res = InstructionDecoderResult {
            arg: word as u16,
            alu_op: AluOperation::Add,
            addr_mode: [(word >> 22u32) % 2 == 1, (word >> 23u32) % 2 == 1],
            latch_acc: false,
            latch_stack: false,
            write: false,
            extend_arg: true,
            latch_ip: true,
            if_zero: false,
            jmp: false,
            halt: false,
            abs_jump: false,
            io: false,
        };

        if instr < 0x08 {
            res.latch_acc = true;
            match instr {
                0x00u8 => {
                    res.alu_op = AluOperation::Sign;
                },
                0x01u8 => {
                    res.alu_op = AluOperation::And;
                    res.extend_arg = false;
                },
                0x02u8 => {
                    res.alu_op = AluOperation::Or;
                    res.extend_arg = false;
                },
                0x03u8 => {
                    res.alu_op = AluOperation::Add;
                },
                0x04u8 => {
                    res.alu_op = AluOperation::Sub;
                },
                0x05u8 => {
                    res.alu_op = AluOperation::Mul;
                },
                0x06u8 => {
                    res.alu_op = AluOperation::Div;
                },
                _ => {
                    res.alu_op = AluOperation::Rem;
                },
            }
        } else if instr < 0x0A {
            res.jmp = true;
            if instr == 0x09 {
                res.if_zero = true;
            }
        } else if instr == 0x0A {
            res.latch_ip = false;
            res.alu_op = AluOperation::Right;
            if self.steps == 0 {
                self.steps = 3;
                res.arg = (-4i16) as u16;
                res.addr_mode = [false, true];
                res.latch_stack = true;
            } else if self.steps == 3 {
                self.steps = 2;
                res.arg = ip.wrapping_add(1);
                res.addr_mode = [false, true];
                res.latch_acc = true;
            } else if self.steps == 2 {
                self.steps = 1;
                res.arg = 0;
                res.addr_mode = [true, false];
                res.write = true;
            } else {
                self.steps = 0;
                res.addr_mode = [false, true];
                res.latch_ip = true;
                res.abs_jump = true;
            }
        } else if instr == 0x0B {
            res.alu_op = AluOperation::Right;
            if self.steps == 0 {
                self.steps = 1;
                res.arg = 4;
                res.addr_mode = [false, true];
                res.latch_stack = true;
                res.latch_ip = false;
            } else {
                self.steps = 0;
                res.arg = (-4i16) as u16;
                res.addr_mode = [true, false];
                res.abs_jump = true;
            }
        } else if instr == 0x0C {
            res.latch_stack = true;
            res.alu_op = AluOperation::Right;
        } else if instr == 0x0D {
            res.alu_op = AluOperation::Right;
            res.latch_acc = true;
            res.io = res.arg == 0 && !res.addr_mode[1];
        } else if instr == 0x0E {
            res.write = true;
            res.io = res.arg == 4;
        } else if instr == 0x0F {
            if self.steps == 0 {
                self.steps = 1;
                res.alu_op = AluOperation::Right;
                res.latch_ip = false;
            } else {
                self.steps = 0;
                res.arg = temp_reg as u16;
                res.io = res.arg == 0;
                res.addr_mode = [false, false];
                res.alu_op = AluOperation::Right;
                res.latch_acc = true;
            }
        } else if instr == 0x10 {
            if self.steps == 0 {
                self.steps = 1;
                res.alu_op = AluOperation::Right;
                res.latch_ip = false;
            } else {
                self.steps = 0;
                res.arg = temp_reg as u16;
                res.io = res.arg == 4;
                res.addr_mode = [false, false];
                res.write = true;
            }
        } else {
            res.halt = true;
        }

        res
    }
}

/// Mathematical state of the whole machine.
pub ghost struct ControlUnitView {
    pub dp: DataPathView,
    pub imem: Seq<u32>,
    pub ip: u16,
    pub temp_reg: u32,
    pub steps: u8,
    pub instructions_count: usize,
    pub ticks_count: usize,
}

impl ControlUnitView {
    pub open spec fn wf(self) -> bool {
        &&& self.dp.wf()
        &&& self.imem.len() == 65536
    }

    /// The instruction word the next tick fetches.
    pub open spec fn cur_word(self) -> u32 {
        self.imem[self.ip as int]
    }
}

/// The data-path control lines a decode carries.
pub open spec fn spec_signals(res: InstructionDecoderResult) -> DataPathSignals {
    DataPathSignals {
        arg: res.arg,
        addr_mode: res.addr_mode,
        alu_op: res.alu_op,
        write: res.write,
        latch_acc: res.latch_acc,
        latch_stack: res.latch_stack,
        extend_arg: res.extend_arg,
        io: res.io,
    }
}

/// A tick faults when the fetched word does not decode, or when the decode
/// asks the ALU to divide by zero.
pub open spec fn spec_tick_faults(s: ControlUnitView) -> bool {
    ||| spec_decode_faults(s.cur_word())
    ||| {
        let res = spec_decode(s.cur_word(), s.ip, s.temp_reg, s.steps).0;
        !res.halt && spec_process_faults(s.dp, spec_signals(res))
    }
}

/// Whether the next tick halts the machine.
pub open spec fn spec_tick_halts(s: ControlUnitView) -> bool {
    spec_decode(s.cur_word(), s.ip, s.temp_reg, s.steps).0.halt
}

/// One tick of the machine. The tick counter always advances; the
/// instruction counter advances on ticks that commit an instruction pointer.
/// On halt nothing else moves. Otherwise the data path runs, the result is
/// latched into `temp_reg`, and the instruction pointer is left in place
/// (multi-step opcode in progress), stepped by one, stepped by the signed
/// argument (taken jump), or set to the computed absolute target.
pub open spec fn spec_tick(s: ControlUnitView) -> ControlUnitView {
    let word = s.cur_word();
    let dec = spec_decode(word, s.ip, s.temp_reg, s.steps);
    let res = dec.0;
    let instructions2 = if res.latch_ip {
        (s.instructions_count + 1) as usize
    } else {
        s.instructions_count
    };
    let ticked = ControlUnitView {
        ticks_count: (s.ticks_count + 1) as usize,
        instructions_count: instructions2,
        ..s
    };
    if res.halt {
        ticked
    } else {
        let p = spec_process(s.dp, spec_signals(res));
        let result = p.1;
        let zero = p.2;
        let sum_ip_arg = s.ip.wrapping_add(spec_arg(word));
        let mux_next_jmp = if (!res.if_zero || zero) && res.jmp {
            sum_ip_arg
        } else {
            s.ip.wrapping_add(1)
        };
        let mux_ip = if res.abs_jump {
            result as u16
        } else {
            mux_next_jmp
        };
        ControlUnitView {
            dp: p.0,
            temp_reg: result,
            steps: dec.1,
            ip: if res.latch_ip {
                mux_ip
            } else {
                s.ip
            },
            ..ticked
        }
    }
}

/// The machine: data path, instruction memory, instruction pointer, the
/// `temp_reg` latch that feeds multi-tick opcodes, the decoder's micro-step
/// counter, and the two counters of the trace.
pub struct ControlUnit {
    pub datapath: DataPath,
    pub mem: Vec<u32>,
    pub ip: u16,
    pub temp_reg: u32,
    pub instruction_decoder: InstructionDecoder,
    pub instructions_count: usize,
    pub ticks_count: usize,
}

impl View for ControlUnit {
    type V = ControlUnitView;

    open spec fn view(&self) -> ControlUnitView {
        ControlUnitView {
            dp: self.datapath@,
            imem: self.mem@,
            ip: self.ip,
            temp_reg: self.temp_reg,
            steps: self.instruction_decoder.steps,
            instructions_count: self.instructions_count,
            ticks_count: self.ticks_count,
        }
    }
}

impl ControlUnit {
    pub open spec fn wf(self) -> bool {
        self@.wf()
    }

    /// A fresh machine over the given memory images, ready at instruction
    /// pointer zero.
    pub fn new(data_mem: [u8; 65536], instr_mem: [u32; 65536]) -> (r: ControlUnit)
        ensures
            r.wf(),
            r@.dp.mem == data_mem@,
            r@.imem == instr_mem@,
            r@.ip == 0,
            r@.temp_reg == 0,
            r@.steps == 0,
            r@.instructions_count == 0,
            r@.ticks_count == 0,
            r@.dp.acc == 0,
            r@.dp.sp == 0xFFFBu16,
            r@.dp.input == Seq::<u8>::empty(),
            r@.dp.output == Seq::<u8>::empty(),
    {
        ControlUnit {
            datapath: DataPath::new(data_mem),
            mem: vstd::slice::slice_to_vec(instr_mem.as_slice()),
            ip: 0,
            temp_reg: 0,
            instruction_decoder: InstructionDecoder { steps: 0 },
            instructions_count: 0,
            ticks_count: 0,
        }
    }

    /// Whether the next tick would hit a fatal fault: an opcode past
    /// `halt`, a `save` with an immediate or accumulator operand, or a
    /// divide or remainder whose operand is zero. A caller that checks
    /// this first can always tick safely.
    pub fn tick_faults(&self) -> (r: bool)
        requires
            self.wf(),
        ensures
            r == spec_tick_faults(self@),
    {
        let word = self.mem[self.ip as usize];
        let instr = (word >> 24u32) as u8;
        if instr > 0x11 {
            return true;
        }
        if instr == 0x0E && (word >> 23u32) % 2 == 1 {
            return true;
        }
        let mut probe = InstructionDecoder { steps: self.instruction_decoder.steps };
        let res = probe.process(word, self.ip, self.temp_reg);
        if res.halt {
            return false;
        }
        let is_div = match res.alu_op {
            AluOperation::Div => true,
            AluOperation::Rem => true,
            _ => false,
        };
        if !is_div {
            return false;
        }
        proof {
            assert(!res.io);
        }
        let data_addr = if res.addr_mode[0] {
            self.datapath.sp.wrapping_add(res.arg)
        } else {
            res.arg
        };
        let data_read = if data_addr < 8 {
            0u32
        } else {
            let a = data_addr as usize;
            let b0 = self.datapath.mem[a];
            let b1 = if a + 1 < crate::datapath::MEM_BYTES {
                self.datapath.mem[a + 1]
            } else {
                0u8
            };
            let b2 = if a + 2 < crate::datapath::MEM_BYTES {
                self.datapath.mem[a + 2]
            } else {
                0u8
            };
            let b3 = if a + 3 < crate::datapath::MEM_BYTES {
                self.datapath.mem[a + 3]
            } else {
                0u8
            };
            (b0 as u32) | ((b1 as u32) << 8u32) | ((b2 as u32) << 16u32) | ((b3 as u32) << 24u32)
        };
        let arg_selected = if res.extend_arg {
            res.arg as i16 as i32 as u32
        } else {
            res.arg as u32
        };
        let mux_arg_acc = if res.addr_mode[0] {
            self.datapath.acc
        } else {
            arg_selected
        };
        let operand = if res.addr_mode[1] {
            mux_arg_acc
        } else {
            data_read
        };
        operand == 0
    }

    /// One tick; returns true when the machine has halted.
    pub fn tick(&mut self) -> (halted: bool)
        requires
            old(self).wf(),
            !spec_tick_faults(old(self)@),
            old(self)@.ticks_count < usize::MAX,
            old(self)@.instructions_count < usize::MAX,
        ensures
            final(self).wf(),
            halted == spec_tick_halts(old(self)@),
            final(self)@ == spec_tick(old(self)@),
    {
        let word = self.mem[self.ip as usize];
        let res = self.instruction_decoder.process(word, self.ip, self.temp_reg);

        self.ticks_count = self.ticks_count + 1;
        if res.latch_ip {
            self.instructions_count = self.instructions_count + 1;
        }
        if res.halt {
            return true;
        }

        let pr = self.datapath.process(
            DataPathSignals {
                arg: res.arg,
                addr_mode: res.addr_mode,
                alu_op: res.alu_op,
                write: res.write,
                latch_acc: res.latch_acc,
                latch_stack: res.latch_stack,
                extend_arg: res.extend_arg,
                io: res.io,
            },
        );
        let result = pr.0;
        let zero = pr.1;

        self.temp_reg = result;

        let sum_ip_arg = self.ip.wrapping_add(word as u16);

        let mux_next_jmp = if (!res.if_zero || zero) && res.jmp {
            sum_ip_arg
        } else {
            self.ip.wrapping_add(1)
        };

        let mux_ip = if res.abs_jump {
            result as u16
        } else {
            mux_next_jmp
        };

        if res.latch_ip {
            self.ip = mux_ip;
        }

        false
    }
}

/// A tick either leaves the instruction pointer unchanged (a multi-step
/// opcode still in progress, or a halt) or writes a new one: the next
/// instruction, the signed-offset jump target, or the absolute address the
/// data path computed.
pub proof fn lemma_ip_moves_one_way(s: ControlUnitView)
    requires
        s.wf(),
    ensures
        ({
            let s2 = spec_tick(s);
            ||| s2.ip == s.ip
            ||| s2.ip == s.ip.wrapping_add(1)
            ||| s2.ip == s.ip.wrapping_add(spec_arg(s.cur_word()))
            ||| s2.ip == spec_process(
                s.dp,
                spec_signals(spec_decode(s.cur_word(), s.ip, s.temp_reg, s.steps).0),
            ).1 as u16
        }),
{
}

/// The ALU operation an opcode in 0x00..0x08 selects.
pub open spec fn alu_op_of(instr: u8) -> AluOperation {
    match instr {
        0x00u8 => AluOperation::Sign,
        0x01u8 => AluOperation::And,
        0x02u8 => AluOperation::Or,
        0x03u8 => AluOperation::Add,
        0x04u8 => AluOperation::Sub,
        0x05u8 => AluOperation::Mul,
        0x06u8 => AluOperation::Div,
        _ => AluOperation::Rem,
    }
}

/// The operand an ALU opcode sees, spelled out per the addressing table:
/// accumulator, immediate (zero-extended for the bitwise operations, sign-
/// extended otherwise), or a memory read at the direct or stack-relative
/// address, with the two port windows reading as zero.
pub open spec fn alu_tick_operand(s: ControlUnitView) -> u32 {
    let word = s.cur_word();
    let arg = spec_arg(word);
    let rel = (word >> 22u32) % 2 == 1;
    let imm = (word >> 23u32) % 2 == 1;
    if imm && rel {
        s.dp.acc
    } else if imm {
        if spec_opcode(word) == 0x01 || spec_opcode(word) == 0x02 {
            arg as u32
        } else {
            arg as i16 as i32 as u32
        }
    } else {
        let addr = if rel {
            s.dp.sp.wrapping_add(arg)
        } else {
            arg
        };
        if addr < 8 {
            0u32
        } else {
            crate::datapath::read_word(s.dp.mem, addr)
        }
    }
}

/// After one completed tick of any opcode in 0x00..0x08, the accumulator
/// holds the opcode's ALU function applied to the previous accumulator and
/// the operand of the addressing table, the instruction pointer has advanced
/// by one, and nothing else of the machine has moved.
pub proof fn lemma_alu_tick(s: ControlUnitView)
    requires
        s.wf(),
        s.steps == 0,
        spec_opcode(s.cur_word()) < 0x08,
        !spec_tick_faults(s),
    ensures
        !spec_tick_halts(s),
        spec_tick(s).dp.acc == alu_op_of(spec_opcode(s.cur_word())).spec_op(
            s.dp.acc,
            alu_tick_operand(s),
        ),
        spec_tick(s).ip == s.ip.wrapping_add(1),
        spec_tick(s).steps == 0,
        spec_tick(s).dp.sp == s.dp.sp,
        spec_tick(s).dp.mem == s.dp.mem,
        spec_tick(s).dp.input == s.dp.input,
        spec_tick(s).dp.output == s.dp.output,
        spec_tick(s).imem == s.imem,
{
    let word = s.cur_word();
    let dec = spec_decode(word, s.ip, s.temp_reg, s.steps).0;
    assert(dec.alu_op == alu_op_of(spec_opcode(word)));
    assert(spec_operand(s.dp, spec_signals(dec)) == alu_tick_operand(s));
}

/// A `jifz` with accumulator zero steps the instruction pointer by the
/// argument, taken as a signed 16-bit offset; with accumulator nonzero it
/// steps it by one. Nothing else of the machine moves.
pub proof fn lemma_jifz_tick(s: ControlUnitView)
    requires
        s.wf(),
        spec_opcode(s.cur_word()) == 0x09,
    ensures
        !spec_tick_halts(s),
        s.dp.acc == 0 ==> spec_tick(s).ip == s.ip.wrapping_add(spec_arg(s.cur_word())),
        s.dp.acc != 0 ==> spec_tick(s).ip == s.ip.wrapping_add(1),
        spec_tick(s).dp.acc == s.dp.acc,
        spec_tick(s).dp.sp == s.dp.sp,
        spec_tick(s).dp.mem == s.dp.mem,
        spec_tick(s).dp.input == s.dp.input,
        spec_tick(s).dp.output == s.dp.output,
        spec_tick(s).steps == s.steps,
        spec_tick(s).imem == s.imem,
{
}

/// The value `call` pushes: the return address, sign-extended to 32 bits by
/// the immediate operand path.
pub open spec fn call_pushed_word(s: ControlUnitView) -> u32 {
    s.ip.wrapping_add(1) as i16 as i32 as u32
}

/// The four micro-steps of `call`: the stack pointer drops by four, the
/// return address is pushed into the new top-of-stack slot, the accumulator
/// is left holding it, and the instruction pointer lands on the absolute
/// target in the argument field.
pub proof fn lemma_call_sequence(s: ControlUnitView)
    requires
        s.wf(),
        s.steps == 0,
        spec_opcode(s.cur_word()) == 0x0A,
        12 <= s.dp.sp,
    ensures
        ({
            let s4 = spec_tick(spec_tick(spec_tick(spec_tick(s))));
            &&& s4.wf()
            &&& s4.steps == 0
            &&& s4.ip == spec_arg(s.cur_word())
            &&& s4.dp.sp == (s.dp.sp - 4) as u16
            &&& s4.dp.mem == crate::datapath::write_word(
                s.dp.mem,
                (s.dp.sp - 4) as u16,
                call_pushed_word(s),
            )
            &&& s4.dp.acc == call_pushed_word(s)
            &&& s4.dp.input == s.dp.input
            &&& s4.dp.output == s.dp.output
            &&& s4.imem == s.imem
        }),
{
    let word = s.cur_word();
    let sp0 = s.dp.sp;
    let s1 = spec_tick(s);
    assert(sp0.wrapping_add((0xFFFFFFFCu32 as i32 as i16 as u16)) == (sp0 - 4) as u16)
        by (bit_vector)
        requires
            12 <= sp0,
    ;
    assert((-4i16) as u16 as i16 as i32 as u32 == 0xFFFFFFFCu32) by (bit_vector);
    assert(s1.dp.sp == (sp0 - 4) as u16);
    assert(s1.ip == s.ip && s1.steps == 3 && s1.dp.mem == s.dp.mem && s1.dp.acc == s.dp.acc);
    let s2 = spec_tick(s1);
    assert(s2.dp.acc == call_pushed_word(s) && s2.ip == s.ip && s2.steps == 2 && s2.dp.mem
        == s.dp.mem && s2.dp.sp == s1.dp.sp);
    let s3 = spec_tick(s2);
    assert(s3.dp.sp == s2.dp.sp && s3.ip == s.ip && s3.steps == 1);
    assert(s2.dp.sp.wrapping_add(0) == s2.dp.sp);
    assert(s3.dp.mem == crate::datapath::write_word(
        s.dp.mem,
        (sp0 - 4) as u16,
        call_pushed_word(s),
    ));
    assert(s3.dp.acc == s2.dp.acc);
    let s4 = spec_tick(s3);
    assert(s4.steps == 0 && s4.dp.sp == s3.dp.sp && s4.dp.mem == s3.dp.mem);
    assert(spec_arg(word) as i16 as i32 as u32 as u16 == spec_arg(word)) by (bit_vector);
    assert(s4.ip == spec_arg(word));
}

/// The two micro-steps of `ret`: the instruction pointer becomes the low 16
/// bits of the word at the top of the stack, the stack pointer rises by
/// four, and memory, accumulator, and streams are untouched.
pub proof fn lemma_ret_sequence(t: ControlUnitView)
    requires
        t.wf(),
        t.steps == 0,
        spec_opcode(t.cur_word()) == 0x0B,
        8 <= t.dp.sp <= 0xFFFB,
    ensures
        ({
            let t2 = spec_tick(spec_tick(t));
            &&& t2.wf()
            &&& t2.steps == 0
            &&& t2.ip == crate::datapath::read_word(t.dp.mem, t.dp.sp) as u16
            &&& t2.dp.sp == (t.dp.sp + 4) as u16
            &&& t2.dp.mem == t.dp.mem
            &&& t2.dp.acc == t.dp.acc
            &&& t2.dp.input == t.dp.input
            &&& t2.dp.output == t.dp.output
            &&& t2.imem == t.imem
        }),
{
    let sp0 = t.dp.sp;
    let t1 = spec_tick(t);
    assert(4u16 as i16 as i32 as u32 == 4u32) by (bit_vector);
    assert(sp0.wrapping_add((4u32 as i32 as i16 as u16)) == (sp0 + 4) as u16) by (bit_vector)
        requires
            sp0 <= 0xFFFB,
    ;
    assert(t1.dp.sp == (sp0 + 4) as u16 && t1.ip == t.ip && t1.steps == 1 && t1.dp.mem == t.dp.mem
        && t1.dp.acc == t.dp.acc);
    let t2 = spec_tick(t1);
    let sp1 = (sp0 + 4) as u16;
    assert(sp1.wrapping_add((-4i16) as u16) == sp0) by (bit_vector)
        requires
            8 <= sp0 <= 0xFFFB,
            sp1 == (sp0 + 4) as u16,
    ;
    assert(t2.steps == 0 && t2.dp.sp == t1.dp.sp && t2.dp.mem == t1.dp.mem);
    assert(t2.ip == crate::datapath::read_word(t.dp.mem, sp0) as u16);
}

/// The two micro-steps of a direct-mode `ldrel`: the word at the argument
/// address is latched into `temp_reg`, survives into the second tick, and
/// the word it points at lands in the accumulator; the instruction pointer
/// advances by one and nothing else moves.
pub proof fn lemma_ldrel_sequence(s: ControlUnitView)
    requires
        s.wf(),
        s.steps == 0,
        spec_opcode(s.cur_word()) == 0x0F,
        spec_addr_mode(s.cur_word()) == 0,
        8 <= spec_arg(s.cur_word()),
        8 <= crate::datapath::read_word(s.dp.mem, spec_arg(s.cur_word())) as u16,
    ensures
        ({
            let pointer = crate::datapath::read_word(s.dp.mem, spec_arg(s.cur_word()));
            let s2 = spec_tick(spec_tick(s));
            &&& s2.wf()
            &&& s2.steps == 0
            &&& s2.ip == s.ip.wrapping_add(1)
            &&& s2.dp.acc == crate::datapath::read_word(s.dp.mem, pointer as u16)
            &&& s2.dp.sp == s.dp.sp
            &&& s2.dp.mem == s.dp.mem
            &&& s2.dp.input == s.dp.input
            &&& s2.dp.output == s.dp.output
            &&& s2.imem == s.imem
        }),
{
    let word = s.cur_word();
    assert((word >> 22u32) % 2 == 0 && (word >> 23u32) % 2 == 0) by (bit_vector)
        requires
            ((word >> 22u32) & 0x3) as u8 == 0,
    ;
    let s1 = spec_tick(s);
    assert(s1.temp_reg == crate::datapath::read_word(s.dp.mem, spec_arg(word)));
    assert(s1.ip == s.ip && s1.steps == 1 && s1.dp == s.dp);
}

/// The two micro-steps of a direct-mode `svrel`: the word at the argument
/// address is latched into `temp_reg`, and the accumulator is stored at
/// the address it holds; the instruction pointer advances by one.
pub proof fn lemma_svrel_sequence(s: ControlUnitView)
    requires
        s.wf(),
        s.steps == 0,
        spec_opcode(s.cur_word()) == 0x10,
        spec_addr_mode(s.cur_word()) == 0,
        8 <= spec_arg(s.cur_word()),
        8 <= crate::datapath::read_word(s.dp.mem, spec_arg(s.cur_word())) as u16,
    ensures
        ({
            let pointer = crate::datapath::read_word(s.dp.mem, spec_arg(s.cur_word()));
            let s2 = spec_tick(spec_tick(s));
            &&& s2.wf()
            &&& s2.steps == 0
            &&& s2.ip == s.ip.wrapping_add(1)
            &&& s2.dp.acc == s.dp.acc
            &&& s2.dp.sp == s.dp.sp
            &&& s2.dp.mem == crate::datapath::write_word(s.dp.mem, pointer as u16, s.dp.acc)
            &&& s2.dp.input == s.dp.input
            &&& s2.dp.output == s.dp.output
            &&& s2.imem == s.imem
        }),
{
    let word = s.cur_word();
    assert((word >> 22u32) % 2 == 0 && (word >> 23u32) % 2 == 0) by (bit_vector)
        requires
            ((word >> 22u32) & 0x3) as u8 == 0,
    ;
    let s1 = spec_tick(s);
    assert(s1.temp_reg == crate::datapath::read_word(s.dp.mem, spec_arg(word)));
    assert(s1.ip == s.ip && s1.steps == 1 && s1.dp == s.dp);
}

/// A `call` followed eventually by its matching `ret`, with the pushed slot
/// undisturbed in between, returns to the instruction after the `call` with
/// the stack pointer restored to its pre-call value.
pub proof fn lemma_call_ret(s: ControlUnitView, t: ControlUnitView)
    requires
        s.wf(),
        s.steps == 0,
        spec_opcode(s.cur_word()) == 0x0A,
        12 <= s.dp.sp,
        t.wf(),
        t.steps == 0,
        spec_opcode(t.cur_word()) == 0x0B,
        t.dp.sp == (s.dp.sp - 4) as u16,
        crate::datapath::read_word(t.dp.mem, t.dp.sp) == crate::datapath::read_word(
            spec_tick(spec_tick(spec_tick(spec_tick(s)))).dp.mem,
            t.dp.sp,
        ),
    ensures
        spec_tick(spec_tick(t)).ip == s.ip.wrapping_add(1),
        spec_tick(spec_tick(t)).dp.sp == s.dp.sp,
{
    lemma_call_sequence(s);
    lemma_ret_sequence(t);
    crate::datapath::lemma_write_read_word(s.dp.mem, (s.dp.sp - 4) as u16, call_pushed_word(s));
    let r = s.ip.wrapping_add(1);
    assert(r as i16 as i32 as u32 as u16 == r) by (bit_vector);
}

} // verus!
