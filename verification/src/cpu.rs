//! The CPU core: registers, status flags, stack discipline and the
//! fetch-decode-execute loop.
//!
//! The whole machine — registers, flags, cycle counter, halt state, the 64 KiB
//! store and the diagnostic log — is modeled by the ghost state [`CpuState`],
//! and [`spec_step`] is the mathematical interpreter for one instruction.
//! [`CPU::step`] is proved to implement `spec_step` exactly.

use vstd::prelude::*;

use crate::isa;
use crate::isa::{AddrMode, Mnemonic};
use crate::memory::Memory;

verus! {

pub const FLAG_ZERO: u8 = 0x01;
pub const FLAG_NEGATIVE: u8 = 0x02;
pub const FLAG_CARRY: u8 = 0x04;
pub const FLAG_OVERFLOW: u8 = 0x08;

/// A diagnostic the core emits while running: the DBG instruction's line, or
/// the report of an unknown opcode. The host decides how to print them.
#[derive(Clone, Copy, Debug, PartialEq, Eq, Structural)]
pub enum CpuEvent {
    /// DBG fetched an absolute address and read `value` there.
    Debug { address: u16, value: u8 },
    /// An undecodable opcode byte was fetched at `address`; the CPU halted.
    UnknownOpcode { opcode: u8, address: u16 },
}

/// The ghost machine state: every observable part of the console.
pub struct CpuState {
    pub a: u8,
    pub x: u8,
    pub y: u8,
    pub pc: u16,
    pub sp: u8,
    pub z: bool,
    pub n: bool,
    pub c: bool,
    pub v: bool,
    pub mem: Seq<u8>,
    pub cycles: u64,
    pub halted: bool,
    pub events: Seq<CpuEvent>,
}

/// Reduction modulo 256 for the byte arithmetic the core needs; defined on
/// the range that one addition or subtraction can reach.
pub open spec fn wrap8(x: int) -> u8
    recommends
        -256 <= x < 512,
{
    if x < 0 {
        (x + 256) as u8
    } else if x > 255 {
        (x - 256) as u8
    } else {
        x as u8
    }
}

/// Reduction modulo 65 536, defined on the range one step can reach.
pub open spec fn wrap16(x: int) -> u16
    recommends
        -65536 <= x < 131072,
{
    if x < 0 {
        (x + 65536) as u16
    } else if x > 65535 {
        (x - 65536) as u16
    } else {
        x as u16
    }
}

/// The cycle counter advances modulo 2^64.
pub open spec fn wrap64(x: int) -> u64
    recommends
        0 <= x <= u64::MAX + 1,
{
    if x > u64::MAX {
        (x - 0x1_0000_0000_0000_0000) as u64
    } else {
        x as u64
    }
}

/// Bit 7 of a byte, the sign in two's complement.
pub open spec fn sign_bit(v: u8) -> bool {
    v >= 0x80
}

/// One operand byte fetched at PC; PC advances with 16-bit wrap.
pub open spec fn spec_fetch(s: CpuState) -> (u8, CpuState) {
    (s.mem[s.pc as int], CpuState { pc: wrap16(s.pc + 1), ..s })
}

/// Z and N updated from a freshly written value.
pub open spec fn with_zn(s: CpuState, value: u8) -> CpuState {
    CpuState { z: value == 0, n: sign_bit(value), ..s }
}

/// One byte stored at `addr`.
pub open spec fn with_mem(s: CpuState, addr: u16, value: u8) -> CpuState {
    CpuState { mem: s.mem.update(addr as int, value), ..s }
}

/// A push: store at 0x0100 + SP, then decrement SP with 8-bit wrap.
pub open spec fn spec_push(s: CpuState, value: u8) -> CpuState {
    CpuState {
        mem: s.mem.update(0x100 + s.sp as int, value),
        sp: wrap8(s.sp - 1),
        ..s
    }
}

/// A pop: increment SP with 8-bit wrap, then read at 0x0100 + SP.
pub open spec fn spec_pop(s: CpuState) -> (u8, CpuState) {
    let sp1 = wrap8(s.sp + 1);
    (s.mem[0x100 + sp1 as int], CpuState { sp: sp1, ..s })
}

/// The effective address of a memory-addressing mode, consuming the operand
/// bytes. Modes that carry no address leave the state unchanged.
pub open spec fn spec_operand_addr(s: CpuState, mode: AddrMode) -> (u16, CpuState) {
    match mode {
        AddrMode::ZeroPage => {
            let (za, s1) = spec_fetch(s);
            (za as u16, s1)
        },
        AddrMode::ZeroPageX => {
            let (za, s1) = spec_fetch(s);
            (wrap8(za + s.x) as u16, s1)
        },
        AddrMode::ZeroPageY => {
            let (za, s1) = spec_fetch(s);
            (wrap8(za + s.y) as u16, s1)
        },
        AddrMode::Absolute => {
            let (lo, s1) = spec_fetch(s);
            let (hi, s2) = spec_fetch(s1);
            ((hi as int * 256 + lo) as u16, s2)
        },
        AddrMode::AbsoluteX => {
            let (lo, s1) = spec_fetch(s);
            let (hi, s2) = spec_fetch(s1);
            (wrap16(hi as int * 256 + lo + s.x), s2)
        },
        AddrMode::AbsoluteY => {
            let (lo, s1) = spec_fetch(s);
            let (hi, s2) = spec_fetch(s1);
            (wrap16(hi as int * 256 + lo + s.y), s2)
        },
        AddrMode::IndirectX => {
            let (za, s1) = spec_fetch(s);
            let p = wrap8(za + s.x);
            let lo = s.mem[p as int];
            let hi = s.mem[wrap8(p + 1) as int];
            ((hi as int * 256 + lo) as u16, s1)
        },
        AddrMode::IndirectY => {
            let (za, s1) = spec_fetch(s);
            let lo = s.mem[za as int];
            let hi = s.mem[wrap8(za + 1) as int];
            (wrap16(hi as int * 256 + lo + s.y), s1)
        },
        _ => (0u16, s),
    }
}

/// The operand value an instruction works on: the immediate byte, or the byte
/// at the mode's effective address.
pub open spec fn spec_operand_value(s: CpuState, mode: AddrMode) -> (u8, CpuState) {
    match mode {
        AddrMode::Immediate => spec_fetch(s),
        _ => {
            let (addr, s1) = spec_operand_addr(s, mode);
            (s1.mem[addr as int], s1)
        },
    }
}

/// ADC: A + operand + carry-in. C is the carry out of bit 7; V is set when
/// both addends share a sign and the truncated sum's sign differs.
pub open spec fn spec_adc(s: CpuState, v: u8) -> CpuState {
    let cin: int = if s.c {
        1
    } else {
        0
    };
    let sum: int = s.a + v + cin;
    let r = wrap8(sum);
    with_zn(
        CpuState {
            a: r,
            c: sum > 0xFF,
            v: sign_bit(s.a) != sign_bit(r) && sign_bit(v) != sign_bit(r),
            ..s
        },
        r,
    )
}

/// SBC: A - operand - (1 - carry). C is set when no borrow out was needed; V
/// is set when the operands' signs differ and the result's sign left A's.
pub open spec fn spec_sbc(s: CpuState, v: u8) -> CpuState {
    let borrow: int = if s.c {
        0
    } else {
        1
    };
    let diff: int = s.a - v - borrow;
    let r = wrap8(diff);
    with_zn(
        CpuState {
            a: r,
            c: diff >= 0,
            v: sign_bit(s.a) != sign_bit(v) && sign_bit(s.a) != sign_bit(r),
            ..s
        },
        r,
    )
}

/// CMP/CPX/CPY: C is reg >= operand, Z and N come from (reg - operand) mod
/// 256, and nothing else changes.
pub open spec fn spec_compare(s: CpuState, reg: u8, v: u8) -> CpuState {
    with_zn(CpuState { c: reg >= v, ..s }, wrap8(reg - v))
}

/// The displacement of a relative branch: the operand byte, sign-extended.
pub open spec fn sign_extend(off: u8) -> int {
    if off < 0x80 {
        off as int
    } else {
        off - 256
    }
}

/// A taken-or-not branch on `taken`, consuming the displacement byte.
pub open spec fn spec_branch(s: CpuState, taken: bool) -> CpuState {
    let (off, s1) = spec_fetch(s);
    if taken {
        CpuState { pc: wrap16(s1.pc + sign_extend(off)), ..s1 }
    } else {
        s1
    }
}

/// Executes one decoded instruction. The program counter of `s` already
/// points past the opcode byte.
pub open spec fn spec_execute_decoded(s: CpuState, m: Mnemonic, mode: AddrMode) -> CpuState {
    match m {
        Mnemonic::LDA => {
            let (v, s1) = spec_operand_value(s, mode);
            with_zn(CpuState { a: v, ..s1 }, v)
        },
        Mnemonic::LDX => {
            let (v, s1) = spec_operand_value(s, mode);
            with_zn(CpuState { x: v, ..s1 }, v)
        },
        Mnemonic::LDY => {
            let (v, s1) = spec_operand_value(s, mode);
            with_zn(CpuState { y: v, ..s1 }, v)
        },
        Mnemonic::STA => {
            let (addr, s1) = spec_operand_addr(s, mode);
            with_mem(s1, addr, s1.a)
        },
        Mnemonic::STX => {
            let (addr, s1) = spec_operand_addr(s, mode);
            with_mem(s1, addr, s1.x)
        },
        Mnemonic::STY => {
            let (addr, s1) = spec_operand_addr(s, mode);
            with_mem(s1, addr, s1.y)
        },
        Mnemonic::ADC => {
            let (v, s1) = spec_operand_value(s, mode);
            spec_adc(s1, v)
        },
        Mnemonic::SBC => {
            let (v, s1) = spec_operand_value(s, mode);
            spec_sbc(s1, v)
        },
        Mnemonic::AND => {
            let (v, s1) = spec_operand_value(s, mode);
            with_zn(CpuState { a: s1.a & v, ..s1 }, s1.a & v)
        },
        Mnemonic::ORA => {
            let (v, s1) = spec_operand_value(s, mode);
            with_zn(CpuState { a: s1.a | v, ..s1 }, s1.a | v)
        },
        Mnemonic::EOR => {
            let (v, s1) = spec_operand_value(s, mode);
            with_zn(CpuState { a: s1.a ^ v, ..s1 }, s1.a ^ v)
        },
        Mnemonic::CMP => {
            let (v, s1) = spec_operand_value(s, mode);
            spec_compare(s1, s1.a, v)
        },
        Mnemonic::CPX => {
            let (v, s1) = spec_operand_value(s, mode);
            spec_compare(s1, s1.x, v)
        },
        Mnemonic::CPY => {
            let (v, s1) = spec_operand_value(s, mode);
            spec_compare(s1, s1.y, v)
        },
        Mnemonic::INC => {
            let (addr, s1) = spec_operand_addr(s, mode);
            let r = wrap8(s1.mem[addr as int] + 1);
            with_zn(with_mem(s1, addr, r), r)
        },
        Mnemonic::DEC => {
            let (addr, s1) = spec_operand_addr(s, mode);
            let r = wrap8(s1.mem[addr as int] - 1);
            with_zn(with_mem(s1, addr, r), r)
        },
        Mnemonic::TAX => with_zn(CpuState { x: s.a, ..s }, s.a),
        Mnemonic::TAY => with_zn(CpuState { y: s.a, ..s }, s.a),
        Mnemonic::TXA => with_zn(CpuState { a: s.x, ..s }, s.x),
        Mnemonic::TYA => with_zn(CpuState { a: s.y, ..s }, s.y),
        Mnemonic::INX => with_zn(CpuState { x: wrap8(s.x + 1), ..s }, wrap8(s.x + 1)),
        Mnemonic::INY => with_zn(CpuState { y: wrap8(s.y + 1), ..s }, wrap8(s.y + 1)),
        Mnemonic::DEX => with_zn(CpuState { x: wrap8(s.x - 1), ..s }, wrap8(s.x - 1)),
        Mnemonic::DEY => with_zn(CpuState { y: wrap8(s.y - 1), ..s }, wrap8(s.y - 1)),
        Mnemonic::JMP => {
            let (addr, s1) = spec_operand_addr(s, mode);
            CpuState { pc: addr, ..s1 }
        },
        Mnemonic::JSR => {
            let (addr, s1) = spec_operand_addr(s, mode);
            let ret = wrap16(s1.pc - 1);
            let s2 = spec_push(s1, (ret / 256) as u8);
            let s3 = spec_push(s2, (ret % 256) as u8);
            CpuState { pc: addr, ..s3 }
        },
        Mnemonic::RTS => {
            let (lo, s1) = spec_pop(s);
            let (hi, s2) = spec_pop(s1);
            CpuState { pc: wrap16(hi as int * 256 + lo + 1), ..s2 }
        },
        Mnemonic::BEQ => spec_branch(s, s.z),
        Mnemonic::BNE => spec_branch(s, !s.z),
        Mnemonic::BCS => spec_branch(s, s.c),
        Mnemonic::BCC => spec_branch(s, !s.c),
        Mnemonic::BMI => spec_branch(s, s.n),
        Mnemonic::BPL => spec_branch(s, !s.n),
        Mnemonic::NOP => s,
        Mnemonic::BRK => {
            let (_pad, s1) = spec_fetch(s);
            s1
        },
        Mnemonic::HLT => CpuState { halted: true, ..s },
        Mnemonic::DBG => {
            let (addr, s1) = spec_operand_addr(s, mode);
            let value = s1.mem[addr as int];
            CpuState {
                events: s1.events.push(CpuEvent::Debug { address: addr, value }),
                ..s1
            }
        },
        Mnemonic::SND => {
            let (payload, s1) = spec_fetch(s);
            with_mem(s1, (0xFC00 + payload as int) as u16, payload)
        },
    }
}

/// Executes one opcode byte. The program counter of `s` already points past
/// the opcode; an unknown opcode logs its own address and halts.
pub open spec fn spec_execute(s: CpuState, opcode: u8) -> CpuState {
    match isa::decode_op(opcode) {
        Some(d) => spec_execute_decoded(s, d.0, d.1),
        None => CpuState {
            halted: true,
            events: s.events.push(
                CpuEvent::UnknownOpcode { opcode, address: wrap16(s.pc - 1) },
            ),
            ..s
        },
    }
}

/// One full step: a halted machine does nothing; otherwise fetch one opcode,
/// execute it, and charge one cycle.
pub open spec fn spec_step(s: CpuState) -> CpuState {
    if s.halted {
        s
    } else {
        let (opcode, s1) = spec_fetch(s);
        let t = spec_execute(s1, opcode);
        CpuState { cycles: wrap64(t.cycles + 1), ..t }
    }
}

/// The console's processor. The status flags live as four booleans; the
/// mask constants select one for [`CPU::set_flag`] and [`CPU::get_flag`].
pub struct CPU {
    pub a: u8,
    pub x: u8,
    pub y: u8,
    pub pc: u16,
    pub sp: u8,
    pub z: bool,
    pub n: bool,
    pub c: bool,
    pub v: bool,
    pub memory: Memory,
    pub cycles: u64,
    pub halted: bool,
    pub events: Vec<CpuEvent>,
}

impl View for CPU {
    type V = CpuState;

    open spec fn view(&self) -> CpuState {
        CpuState {
            a: self.a,
            x: self.x,
            y: self.y,
            pc: self.pc,
            sp: self.sp,
            z: self.z,
            n: self.n,
            c: self.c,
            v: self.v,
            mem: self.memory@,
            cycles: self.cycles,
            halted: self.halted,
            events: self.events@,
        }
    }
}

impl CPU {
    pub open spec fn wf(&self) -> bool {
        &&& self.memory.wf()
        &&& self.memory@.len() == 0x10000
    }

    /// A freshly powered-on CPU: registers and flags zero, SP at the top of
    /// the stack, PC at 0, not halted, no diagnostics yet.
    pub fn new(memory: Memory) -> (cpu: CPU)
        requires
            memory.wf(),
            memory@.len() == 0x10000,
        ensures
            cpu.wf(),
            cpu@.a == 0 && cpu@.x == 0 && cpu@.y == 0,
            cpu@.pc == 0 && cpu@.sp == 0xFF,
            !cpu@.z && !cpu@.n && !cpu@.c && !cpu@.v,
            cpu@.cycles == 0 && !cpu@.halted,
            cpu@.mem == memory@,
            cpu@.events == Seq::<CpuEvent>::empty(),
    {
        let cpu = CPU {
            a: 0,
            x: 0,
            y: 0,
            pc: 0,
            sp: 0xFF,
            z: false,
            n: false,
            c: false,
            v: false,
            memory,
            cycles: 0,
            halted: false,
            events: Vec::new(),
        };
        proof {
            assert(cpu@.events =~= Seq::<CpuEvent>::empty());
        }
        cpu
    }

    /// Zeros registers and flags, sets SP = 0xFF and PC = 0, clears the cycle
    /// counter and the halt state. Memory and the diagnostic log are kept.
    pub fn reset(&mut self)
        requires
            old(self).wf(),
        ensures
            final(self).wf(),
            final(self)@.a == 0 && final(self)@.x == 0 && final(self)@.y == 0,
            final(self)@.pc == 0 && final(self)@.sp == 0xFF,
            !final(self)@.z && !final(self)@.n && !final(self)@.c && !final(self)@.v,
            final(self)@.cycles == 0 && !final(self)@.halted,
            final(self)@.mem == old(self)@.mem,
            final(self)@.events == old(self)@.events,
    {
        self.a = 0;
        self.x = 0;
        self.y = 0;
        self.pc = 0;
        self.sp = 0xFF;
        self.z = false;
        self.n = false;
        self.c = false;
        self.v = false;
        self.cycles = 0;
        self.halted = false;
    }

    /// Fetches the byte at PC and advances PC with 16-bit wrap.
    pub fn fetch(&mut self) -> (opcode: u8)
        requires
            old(self).wf(),
        ensures
            final(self).wf(),
            (opcode, final(self)@) == spec_fetch(old(self)@),
    {
        let opcode = self.memory.read(self.pc);
        self.pc = self.pc.wrapping_add(1);
        opcode
    }

    /// Reads one byte of memory; every address is valid.
    pub fn read(&self, address: u16) -> (b: u8)
        requires
            self.wf(),
        ensures
            b == self@.mem[address as int],
    {
        self.memory.read(address)
    }

    /// Writes one byte of memory; every address is valid.
    pub fn write(&mut self, address: u16, value: u8)
        requires
            old(self).wf(),
        ensures
            final(self).wf(),
            final(self)@ == with_mem(old(self)@, address, value),
    {
        self.memory.write(address, value);
    }

    /// Pushes a byte: stores at 0x0100 + SP, then decrements SP with wrap.
    pub fn push(&mut self, value: u8)
        requires
            old(self).wf(),
        ensures
            final(self).wf(),
            final(self)@ == spec_push(old(self)@, value),
    {
        let address = 0x0100u16 + self.sp as u16;
        self.write(address, value);
        self.sp = self.sp.wrapping_sub(1);
    }

    /// Pops a byte: increments SP with wrap, then reads at 0x0100 + SP.
    pub fn pop(&mut self) -> (value: u8)
        requires
            old(self).wf(),
        ensures
            final(self).wf(),
            (value, final(self)@) == spec_pop(old(self)@),
    {
        self.sp = self.sp.wrapping_add(1);
        let address = 0x0100u16 + self.sp as u16;
        self.read(address)
    }

    /// Which flag a mask constant selects, as the caller will read it back.
    pub open spec fn spec_flag(s: CpuState, flag: u8) -> bool {
        if flag == FLAG_ZERO {
            s.z
        } else if flag == FLAG_NEGATIVE {
            s.n
        } else if flag == FLAG_CARRY {
            s.c
        } else if flag == FLAG_OVERFLOW {
            s.v
        } else {
            false
        }
    }

    /// Sets the flag a mask constant selects; other masks select nothing.
    pub fn set_flag(&mut self, flag: u8, value: bool)
        requires
            old(self).wf(),
        ensures
            final(self).wf(),
            flag == FLAG_ZERO || flag == FLAG_NEGATIVE || flag == FLAG_CARRY || flag
                == FLAG_OVERFLOW ==> CPU::spec_flag(final(self)@, flag) == value,
            final(self)@.z == if flag == FLAG_ZERO { value } else { old(self)@.z },
            final(self)@.n == if flag == FLAG_NEGATIVE { value } else { old(self)@.n },
            final(self)@.c == if flag == FLAG_CARRY { value } else { old(self)@.c },
            final(self)@.v == if flag == FLAG_OVERFLOW { value } else { old(self)@.v },
            final(self)@.a == old(self)@.a && final(self)@.x == old(self)@.x && final(self)@.y
                == old(self)@.y,
            final(self)@.pc == old(self)@.pc && final(self)@.sp == old(self)@.sp,
            final(self)@.mem == old(self)@.mem,
            final(self)@.cycles == old(self)@.cycles,
            final(self)@.halted == old(self)@.halted,
            final(self)@.events == old(self)@.events,
    {
        if flag == FLAG_ZERO {
            self.z = value;
        } else if flag == FLAG_NEGATIVE {
            self.n = value;
        } else if flag == FLAG_CARRY {
            self.c = value;
        } else if flag == FLAG_OVERFLOW {
            self.v = value;
        }
    }

    /// Reads the flag a mask constant selects; other masks read false.
    pub fn get_flag(&self, flag: u8) -> (value: bool)
        ensures
            value == CPU::spec_flag(self@, flag),
    {
        if flag == FLAG_ZERO {
            self.z
        } else if flag == FLAG_NEGATIVE {
            self.n
        } else if flag == FLAG_CARRY {
            self.c
        } else if flag == FLAG_OVERFLOW {
            self.v
        } else {
            false
        }
    }

    /// Z becomes (value == 0) and N becomes bit 7 of value.
    pub fn update_zero_and_negative_flags(&mut self, value: u8)
        requires
            old(self).wf(),
        ensures
            final(self).wf(),
            final(self)@ == with_zn(old(self)@, value),
    {
        self.z = value == 0;
        self.n = value >= 0x80;
    }

    /// Halts the CPU; every later step is a no-op.
    pub fn halt(&mut self)
        requires
            old(self).wf(),
        ensures
            final(self).wf(),
            final(self)@ == (CpuState { halted: true, ..old(self)@ }),
    {
        self.halted = true;
    }

    /// The effective address of a memory-addressing mode, consuming operand
    /// bytes exactly as [`spec_operand_addr`] describes.
    pub fn operand_addr(&mut self, mode: AddrMode) -> (addr: u16)
        requires
            old(self).wf(),
        ensures
            final(self).wf(),
            (addr, final(self)@) == spec_operand_addr(old(self)@, mode),
    {
        match mode {
            AddrMode::ZeroPage => {
                let za = self.fetch();
                za as u16
            },
            AddrMode::ZeroPageX => {
                let x = self.x;
                let za = self.fetch();
                za.wrapping_add(x) as u16
            },
            AddrMode::ZeroPageY => {
                let y = self.y;
                let za = self.fetch();
                za.wrapping_add(y) as u16
            },
            AddrMode::Absolute => {
                let lo = self.fetch();
                let hi = self.fetch();
                (hi as u16) * 256 + lo as u16
            },
            AddrMode::AbsoluteX => {
                let x = self.x;
                let lo = self.fetch();
                let hi = self.fetch();
                ((hi as u16) * 256 + lo as u16).wrapping_add(x as u16)
            },
            AddrMode::AbsoluteY => {
                let y = self.y;
                let lo = self.fetch();
                let hi = self.fetch();
                ((hi as u16) * 256 + lo as u16).wrapping_add(y as u16)
            },
            AddrMode::IndirectX => {
                let x = self.x;
                let za = self.fetch();
                let p = za.wrapping_add(x);
                let lo = self.read(p as u16);
                let hi = self.read(p.wrapping_add(1) as u16);
                (hi as u16) * 256 + lo as u16
            },
            AddrMode::IndirectY => {
                let y = self.y;
                let za = self.fetch();
                let lo = self.read(za as u16);
                let hi = self.read(za.wrapping_add(1) as u16);
                ((hi as u16) * 256 + lo as u16).wrapping_add(y as u16)
            },
            _ => 0u16,
        }
    }

    /// The operand value for a value-consuming instruction, exactly as
    /// [`spec_operand_value`] describes.
    pub fn operand_value(&mut self, mode: AddrMode) -> (v: u8)
        requires
            old(self).wf(),
        ensures
            final(self).wf(),
            (v, final(self)@) == spec_operand_value(old(self)@, mode),
    {
        match mode {
            AddrMode::Immediate => self.fetch(),
            _ => {
                let addr = self.operand_addr(mode);
                self.read(addr)
            },
        }
    }

    /// One step of the fetch-decode-execute loop. Does nothing on a halted
    /// machine; otherwise executes exactly one instruction and charges one
    /// cycle. Returns true while the machine is still running.
    pub fn step(&mut self) -> (running: bool)
        requires
            old(self).wf(),
        ensures
            final(self).wf(),
            final(self)@ == spec_step(old(self)@),
            running == !final(self)@.halted,
    {
        if self.halted {
            return false;
        }
        let opcode = self.fetch();
        isa::execute(self, opcode);
        self.cycles = self.cycles.wrapping_add(1);
        !self.halted
    }
}

/// The instructions that write a register (loads, transfers, register
/// increments and decrements, accumulator arithmetic and logic).
pub open spec fn writes_register(m: Mnemonic) -> bool {
    ||| m == Mnemonic::LDA
    ||| m == Mnemonic::LDX
    ||| m == Mnemonic::LDY
    ||| m == Mnemonic::TAX
    ||| m == Mnemonic::TAY
    ||| m == Mnemonic::TXA
    ||| m == Mnemonic::TYA
    ||| m == Mnemonic::INX
    ||| m == Mnemonic::INY
    ||| m == Mnemonic::DEX
    ||| m == Mnemonic::DEY
    ||| m == Mnemonic::ADC
    ||| m == Mnemonic::SBC
    ||| m == Mnemonic::AND
    ||| m == Mnemonic::ORA
    ||| m == Mnemonic::EOR
}

/// The register such an instruction writes.
pub open spec fn dest_register(s: CpuState, m: Mnemonic) -> u8 {
    match m {
        Mnemonic::LDX | Mnemonic::TAX | Mnemonic::INX | Mnemonic::DEX => s.x,
        Mnemonic::LDY | Mnemonic::TAY | Mnemonic::INY | Mnemonic::DEY => s.y,
        _ => s.a,
    }
}

/// The register a store instruction reads.
pub open spec fn stored_register(s: CpuState, m: Mnemonic) -> u8 {
    match m {
        Mnemonic::STX => s.x,
        Mnemonic::STY => s.y,
        _ => s.a,
    }
}

/// Law: after any instruction that writes a register, Z reflects whether the
/// written value is zero and N reflects its bit 7, in every addressing mode.
pub proof fn lemma_zn_track_register_writes(s: CpuState, m: Mnemonic, mode: AddrMode)
    requires
        writes_register(m),
    ensures
        ({
            let t = spec_execute_decoded(s, m, mode);
            &&& t.z == (dest_register(t, m) == 0)
            &&& t.n == sign_bit(dest_register(t, m))
        }),
{
}

/// Law: after INC or DEC, Z and N reflect the byte now held at the
/// instruction's effective address.
pub proof fn lemma_zn_track_memory_writes(s: CpuState, m: Mnemonic, mode: AddrMode)
    requires
        m == Mnemonic::INC || m == Mnemonic::DEC,
        s.mem.len() == 0x10000,
    ensures
        ({
            let addr = spec_operand_addr(s, mode).0;
            let t = spec_execute_decoded(s, m, mode);
            &&& t.z == (t.mem[addr as int] == 0)
            &&& t.n == sign_bit(t.mem[addr as int])
        }),
{
}

/// A store leaves the stored register's value at its effective address.
pub proof fn lemma_store_writes_byte(s: CpuState, m: Mnemonic, mode: AddrMode)
    requires
        m == Mnemonic::STA || m == Mnemonic::STX || m == Mnemonic::STY,
        s.mem.len() == 0x10000,
    ensures
        ({
            let addr = spec_operand_addr(s, mode).0;
            let t = spec_execute_decoded(s, m, mode);
            &&& t.mem.len() == s.mem.len()
            &&& t.mem[addr as int] == stored_register(s, m)
        }),
{
}

/// A load from memory puts the byte at its effective address into the
/// destination register.
pub proof fn lemma_load_reads_byte(s: CpuState, m: Mnemonic, mode: AddrMode)
    requires
        m == Mnemonic::LDA || m == Mnemonic::LDX || m == Mnemonic::LDY,
        mode != AddrMode::Immediate,
    ensures
        ({
            let addr = spec_operand_addr(s, mode).0;
            let t = spec_execute_decoded(s, m, mode);
            dest_register(t, m) == s.mem[addr as int]
        }),
{
}

/// Law: a byte written by STA/STX/STY is returned by any later LDA/LDX/LDY of
/// the same effective address, provided memory was not changed in between.
pub proof fn lemma_store_then_load(
    s: CpuState,
    sm: Mnemonic,
    smode: AddrMode,
    u: CpuState,
    lm: Mnemonic,
    lmode: AddrMode,
)
    requires
        sm == Mnemonic::STA || sm == Mnemonic::STX || sm == Mnemonic::STY,
        lm == Mnemonic::LDA || lm == Mnemonic::LDX || lm == Mnemonic::LDY,
        lmode != AddrMode::Immediate,
        s.mem.len() == 0x10000,
        u.mem == spec_execute_decoded(s, sm, smode).mem,
        spec_operand_addr(u, lmode).0 == spec_operand_addr(s, smode).0,
    ensures
        dest_register(spec_execute_decoded(u, lm, lmode), lm) == stored_register(s, sm),
{
    lemma_store_writes_byte(s, sm, smode);
    lemma_load_reads_byte(u, lm, lmode);
}

/// Law: a JSR followed by a matching RTS restores SP, and sets PC to the
/// pre-JSR PC plus three — the instruction after the JSR. `s` is the state
/// just after the JSR opcode was fetched (so `s.pc - 1` is the JSR's own
/// address); `u` is any later state that has kept the stack pointer and the
/// two pushed bytes, about to execute the RTS.
pub proof fn lemma_jsr_then_rts(s: CpuState, u: CpuState)
    requires
        s.mem.len() == 0x10000,
        ({
            let t = spec_execute_decoded(s, Mnemonic::JSR, AddrMode::Absolute);
            &&& u.sp == t.sp
            &&& u.mem.len() == 0x10000
            &&& u.mem[0x100 + s.sp as int] == t.mem[0x100 + s.sp as int]
            &&& u.mem[0x100 + wrap8(s.sp - 1) as int] == t.mem[0x100 + wrap8(s.sp - 1) as int]
        }),
    ensures
        ({
            let r = spec_execute_decoded(u, Mnemonic::RTS, AddrMode::Implied);
            &&& r.sp == s.sp
            &&& r.pc == wrap16((s.pc - 1) + 3)
        }),
{
    let t = spec_execute_decoded(s, Mnemonic::JSR, AddrMode::Absolute);
    let ret = wrap16(s.pc + 1);
    assert(t.sp == wrap8(wrap8(s.sp - 1) - 1));
    assert(t.mem[0x100 + s.sp as int] == (ret / 256) as u8);
    assert(t.mem[0x100 + wrap8(s.sp - 1) as int] == (ret % 256) as u8);
    let r = spec_execute_decoded(u, Mnemonic::RTS, AddrMode::Implied);
    assert(wrap8(u.sp + 1) == wrap8(s.sp - 1));
    assert(wrap8(wrap8(u.sp + 1) + 1) == s.sp);
    assert(r.sp == s.sp);
    vstd::arithmetic::div_mod::lemma_fundamental_div_mod(ret as int, 256);
    assert((ret / 256) as u8 as int * 256 + (ret % 256) as u8 == ret);
    assert(r.pc == wrap16(ret + 1));
    assert(wrap16(ret + 1) == wrap16((s.pc - 1) + 3));
}

} // verus!
