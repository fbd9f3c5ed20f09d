//! The ALU and data path of the machine: a combinational operation over the
//! accumulator and a selected operand, with effects on the accumulator, the
//! stack pointer, the byte-addressable data memory, and the memory-mapped
//! input/output ports on the low addresses.

use vstd::prelude::*;

verus! {

/// Number of bytes of data memory.
pub const MEM_BYTES: usize = 65536;

/// The operation the ALU performs on `l` (always the accumulator) and the
/// selected operand `r`.
#[derive(Clone, Copy, Debug, PartialEq, Eq, Structural)]
pub enum AluOperation {
    Sign,
    And,
    Or,
    Add,
    Sub,
    Mul,
    Div,
    Rem,
    Right,
}

impl AluOperation {
    /// What the ALU computes: all operations are 32-bit and wrapping;
    /// divide and remainder act on unsigned values.
    pub open spec fn spec_op(self, l: u32, r: u32) -> u32 {
        match self {
            AluOperation::Sign => r >> 31u32,
            AluOperation::And => l & r,
            AluOperation::Or => l | r,
            AluOperation::Add => l.wrapping_add(r),
            AluOperation::Sub => l.wrapping_sub(r),
            AluOperation::Mul => l.wrapping_mul(r),
            AluOperation::Div => if r == 0 { 0 } else { l / r },
            AluOperation::Rem => if r == 0 { 0 } else { l % r },
            AluOperation::Right => r,
        }
    }

    /// Divide or remainder by zero is the fatal ALU fault.
    pub open spec fn div_faults(self, r: u32) -> bool {
        (self is Div || self is Rem) && r == 0
    }

    pub fn op(&self, l: u32, r: u32) -> (res: u32)
        requires
            !self.div_faults(r),
        ensures
            res == self.spec_op(l, r),
    {
        match self {
            AluOperation::Sign => r >> 31u32,
            AluOperation::And => l & r,
            AluOperation::Or => l | r,
            AluOperation::Add => l.wrapping_add(r),
            AluOperation::Sub => l.wrapping_sub(r),
            AluOperation::Mul => l.wrapping_mul(r),
            AluOperation::Div => l / r,
            AluOperation::Rem => l % r,
            AluOperation::Right => r,
        }
    }
}

/// The control lines the decoder hands to the data path for one tick.
pub struct DataPathSignals {
    pub arg: u16,
    pub addr_mode: [bool; 2],
    pub alu_op: AluOperation,
    pub write: bool,
    pub latch_acc: bool,
    pub latch_stack: bool,
    pub extend_arg: bool,
    pub io: bool,
}

/// Mathematical state of the data path: the memory and the input queue and
/// output stream as sequences of bytes.
pub ghost struct DataPathView {
    pub mem: Seq<u8>,
    pub acc: u32,
    pub sp: u16,
    pub input: Seq<u8>,
    pub output: Seq<u8>,
}

impl DataPathView {
    pub open spec fn wf(self) -> bool {
        self.mem.len() == MEM_BYTES
    }
}

/// Little-endian 32-bit read at `addr`; the bytes that would lie beyond the
/// top of memory read as zero.
pub open spec fn read_word(mem: Seq<u8>, addr: u16) -> u32 {
    let b0 = mem[addr as int];
    let b1 = if addr as int + 1 < MEM_BYTES { mem[addr as int + 1] } else { 0u8 };
    let b2 = if addr as int + 2 < MEM_BYTES { mem[addr as int + 2] } else { 0u8 };
    let b3 = if addr as int + 3 < MEM_BYTES { mem[addr as int + 3] } else { 0u8 };
    (b0 as u32) | ((b1 as u32) << 8u32) | ((b2 as u32) << 16u32) | ((b3 as u32) << 24u32)
}

/// Little-endian 32-bit store of `val` at `addr`; any byte that would land on
/// or beyond the last cell is dropped.
pub open spec fn write_word(mem: Seq<u8>, addr: u16, val: u32) -> Seq<u8> {
    let m0 = if addr as int + 0 < 0xFFFF { mem.update(addr as int + 0, (val & 0xFF) as u8) } else { mem };
    let m1 = if addr as int + 1 < 0xFFFF { m0.update(addr as int + 1, ((val >> 8u32) & 0xFF) as u8) } else { m0 };
    let m2 = if addr as int + 2 < 0xFFFF { m1.update(addr as int + 2, ((val >> 16u32) & 0xFF) as u8) } else { m1 };
    if addr as int + 3 < 0xFFFF { m2.update(addr as int + 3, ((val >> 24u32) & 0xFF) as u8) } else { m2 }
}

/// What a data read at `addr` returns, and what is left of the input queue.
/// Addresses 0..4 are the input port: with the `io` line up a read pops one
/// byte (zero when the queue is empty), without it the read returns zero.
/// Addresses 4..8 are the output port and read as zero.
pub open spec fn spec_load(mem: Seq<u8>, input: Seq<u8>, addr: u16, io: bool) -> (u32, Seq<u8>) {
    if addr < 4 {
        if io {
            if input.len() == 0 {
                (0u32, input)
            } else {
                (input[0] as u32, input.drop_first())
            }
        } else {
            (0u32, input)
        }
    } else if addr < 8 {
        (0u32, input)
    } else {
        (read_word(mem, addr), input)
    }
}

/// What a data write of `val` at `addr` does to memory and to the output
/// stream. A write into the output window with the `io` line up appends the
/// low byte; a write into the input window is dropped; anything else is a
/// little-endian store.
pub open spec fn spec_save(mem: Seq<u8>, output: Seq<u8>, addr: u16, val: u32, io: bool) -> (Seq<
    u8,
>, Seq<u8>) {
    if 4 <= addr && addr < 8 && io {
        (mem, output.push(val as u8))
    } else if addr < 4 {
        (mem, output)
    } else {
        (write_word(mem, addr, val), output)
    }
}

/// The effective data address of a tick: stack-relative or direct.
pub open spec fn spec_data_addr(sp: u16, s: DataPathSignals) -> u16 {
    if s.addr_mode@[0] {
        sp.wrapping_add(s.arg)
    } else {
        s.arg
    }
}

/// The operand the two-bit addressing mode selects: memory, immediate
/// (sign- or zero-extended), or the accumulator itself.
pub open spec fn spec_operand(dp: DataPathView, s: DataPathSignals) -> u32 {
    let data_read = spec_load(dp.mem, dp.input, spec_data_addr(dp.sp, s), s.io).0;
    let arg_selected = if s.extend_arg {
        s.arg as i16 as i32 as u32
    } else {
        s.arg as u32
    };
    let mux_arg_acc = if s.addr_mode@[0] {
        dp.acc
    } else {
        arg_selected
    };
    if s.addr_mode@[1] {
        mux_arg_acc
    } else {
        data_read
    }
}

/// A tick faults only when it asks the ALU to divide by zero.
pub open spec fn spec_process_faults(dp: DataPathView, s: DataPathSignals) -> bool {
    s.alu_op.div_faults(spec_operand(dp, s))
}

/// One tick of the data path: the new state, the ALU result, and the zero
/// flag of the accumulator after the tick.
pub open spec fn spec_process(dp: DataPathView, s: DataPathSignals) -> (DataPathView, u32, bool) {
    let data_addr = spec_data_addr(dp.sp, s);
    let input2 = spec_load(dp.mem, dp.input, data_addr, s.io).1;
    let res = s.alu_op.spec_op(dp.acc, spec_operand(dp, s));
    let acc2 = if s.latch_acc {
        res
    } else {
        dp.acc
    };
    let sp2 = if s.latch_stack {
        dp.sp.wrapping_add(res as i32 as i16 as u16)
    } else {
        dp.sp
    };
    let memout = if s.write {
        spec_save(dp.mem, dp.output, data_addr, acc2, s.io)
    } else {
        (dp.mem, dp.output)
    };
    (
        DataPathView { mem: memout.0, acc: acc2, sp: sp2, input: input2, output: memout.1 },
        res,
        acc2 == 0,
    )
}

/// A little-endian store into plain memory is read back intact: for any
/// address from 8 up to 0xFFFB, writing a word and reading at the same
/// address returns the value written.
pub proof fn lemma_write_read_word(mem: Seq<u8>, addr: u16, val: u32)
    requires
        mem.len() == MEM_BYTES,
        8 <= addr <= 0xFFFB,
    ensures
        read_word(write_word(mem, addr, val), addr) == val,
{
    let m = write_word(mem, addr, val);
    assert(m[addr as int] == (val & 0xFF) as u8);
    assert(m[addr as int + 1] == ((val >> 8u32) & 0xFF) as u8);
    assert(m[addr as int + 2] == ((val >> 16u32) & 0xFF) as u8);
    assert(m[addr as int + 3] == ((val >> 24u32) & 0xFF) as u8);
    assert(((val & 0xFF) as u8 as u32) | ((((val >> 8u32) & 0xFF) as u8 as u32) << 8u32) | ((((val
        >> 16u32) & 0xFF) as u8 as u32) << 16u32) | ((((val >> 24u32) & 0xFF) as u8 as u32)
        << 24u32) == val) by (bit_vector);
}

/// The same round trip through the data path's write and read steps: a
/// write of `val` at a general-data address followed by a read at that
/// address returns `val`, whatever the `io` lines of the two ticks.
pub proof fn lemma_save_load_round_trip(dp: DataPathView, addr: u16, val: u32, io1: bool, io2: bool)
    requires
        dp.wf(),
        12 <= addr <= 0xFFFB,
    ensures
        ({
            let saved = spec_save(dp.mem, dp.output, addr, val, io1);
            spec_load(saved.0, dp.input, addr, io2).0 == val
        }),
{
    lemma_write_read_word(dp.mem, addr, val);
}

/// Accumulator, stack pointer, 65,536 bytes of data memory, and the two
/// character streams. The stack grows toward lower addresses.
pub struct DataPath {
    pub mem: Vec<u8>,
    pub acc: u32,
    pub sp: u16,
    pub input: std::collections::VecDeque<u8>,
    pub output: Vec<u8>,
}

impl View for DataPath {
    type V = DataPathView;

    open spec fn view(&self) -> DataPathView {
        DataPathView {
            mem: self.mem@,
            acc: self.acc,
            sp: self.sp,
            input: self.input@,
            output: self.output@,
        }
    }
}

impl DataPath {
    pub open spec fn wf(self) -> bool {
        self@.wf()
    }

    /// A fresh data path over the given memory image: accumulator zero,
    /// stack pointer at its initial value `0xFFFB`, both streams empty.
    pub fn new(mem: [u8; 65536]) -> (r: DataPath)
        ensures
            r.wf(),
            r@.mem == mem@,
            r@.acc == 0,
            r@.sp == 0xFFFBu16,
            r@.input == Seq::<u8>::empty(),
            r@.output == Seq::<u8>::empty(),
    {
        let v = vstd::slice::slice_to_vec(mem.as_slice());
        DataPath {
            mem: v,
            acc: 0,
            sp: u16::MAX - 4,
            input: std::collections::VecDeque::new(),
            output: Vec::new(),
        }
    }

    /// One tick: select the address and operand, run the ALU, and latch the
    /// accumulator, the stack pointer, and memory as the control lines ask.
    /// Returns the ALU result and the zero flag.
    pub fn process(&mut self, signals: DataPathSignals) -> (r: (u32, bool))
        requires
            old(self).wf(),
            !spec_process_faults(old(self)@, signals),
        ensures
            final(self).wf(),
            final(self)@ == spec_process(old(self)@, signals).0,
            r.0 == spec_process(old(self)@, signals).1,
            r.1 == spec_process(old(self)@, signals).2,
    {
        let sum_sp_arg = self.sp.wrapping_add(signals.arg);

        let data_addr = if signals.addr_mode[0] {
            sum_sp_arg
        } else {
            signals.arg
        };

        let data_read = self.load(data_addr, signals.io);

        let arg_extended = signals.arg as i16 as i32 as u32;

        let arg_selected = if signals.extend_arg {
            arg_extended
        } else {
            signals.arg as u32
        };

        let mux_arg_acc = if signals.addr_mode[0] {
            self.acc
        } else {
            arg_selected
        };

        let operand = if signals.addr_mode[1] {
            mux_arg_acc
        } else {
            data_read
        };

        let res = signals.alu_op.op(self.acc, operand);

        if signals.latch_acc {
            self.acc = res;
        }
        if signals.latch_stack {
            self.sp = self.sp.wrapping_add(res as i32 as i16 as u16);
        }
        if signals.write {
            self.save(data_addr, self.acc, signals.io);
        }

        (res, self.acc == 0)
    }

    /// A data read with the memory-mapped ports on addresses 0..8.
    fn load(&mut self, addr: u16, io: bool) -> (r: u32)
        requires
            old(self).wf(),
        ensures
            final(self).wf(),
            r == spec_load(old(self)@.mem, old(self)@.input, addr, io).0,
            final(self)@.input == spec_load(old(self)@.mem, old(self)@.input, addr, io).1,
            final(self)@.mem == old(self)@.mem,
            final(self)@.acc == old(self)@.acc,
            final(self)@.sp == old(self)@.sp,
            final(self)@.output == old(self)@.output,
    {
        if addr < 4 {
            if io {
                match self.input.pop_front() {
                    Some(b) => b as u32,
                    None => 0,
                }
            } else {
                0
            }
        } else if addr < 8 {
            0
        } else {
            let a = addr as usize;
            let b0 = self.mem[a];
            let b1 = if a + 1 < MEM_BYTES { self.mem[a + 1] } else { 0u8 };
            let b2 = if a + 2 < MEM_BYTES { self.mem[a + 2] } else { 0u8 };
            let b3 = if a + 3 < MEM_BYTES { self.mem[a + 3] } else { 0u8 };
            (b0 as u32) | ((b1 as u32) << 8u32) | ((b2 as u32) << 16u32) | ((b3 as u32) << 24u32)
        }
    }

    /// A data write with the memory-mapped ports on addresses 0..8.
    fn save(&mut self, addr: u16, val: u32, io: bool)
        requires
            old(self).wf(),
        ensures
            final(self).wf(),
            final(self)@.mem == spec_save(old(self)@.mem, old(self)@.output, addr, val, io).0,
            final(self)@.output == spec_save(old(self)@.mem, old(self)@.output, addr, val, io).1,
            final(self)@.acc == old(self)@.acc,
            final(self)@.sp == old(self)@.sp,
            final(self)@.input == old(self)@.input,
    {
        if 4 <= addr && addr < 8 && io {
            self.output.push(val as u8);
        } else if addr >= 4 {
            let a = addr as usize;
            if a + 0 < 0xFFFF {
                self.mem[a + 0] = (val & 0xFF) as u8;
            }
            if a + 1 < 0xFFFF {
                self.mem[a + 1] = ((val >> 8u32) & 0xFF) as u8;
            }
            if a + 2 < 0xFFFF {
                self.mem[a + 2] = ((val >> 16u32) & 0xFF) as u8;
            }
            if a + 3 < 0xFFFF {
                self.mem[a + 3] = ((val >> 24u32) & 0xFF) as u8;
            }
        }
    }
}

} // verus!
