//! The frozen opcode table of the console, shared by the CPU core and the
//! assembler.
//!
//! Both the decoder ([`decode`]) and the encoder ([`opcode_lookup`]) are
//! derived from one table, and [`lemma_encode_then_decode`] /
//! [`lemma_decode_then_encode`] prove the two directions mutually inverse, so
//! the CPU and the assembler cannot drift apart.
//!
//! One slot is shared on a real 6502 but not here: the debug instruction DBG
//! owns opcode 0xDE, so DEC absolute,X is not encodable on this console.

use vstd::prelude::*;

use crate::cpu::{self, CpuEvent, CPU, FLAG_CARRY, FLAG_NEGATIVE, FLAG_ZERO, FLAG_OVERFLOW};

verus! {

/// Every mnemonic of the console's instruction set: the 6502 subset plus the
/// two console-specific instructions DBG (diagnostic) and SND (sound).
#[derive(Clone, Copy, Debug, PartialEq, Eq, Structural)]
pub enum Mnemonic {
    LDA,
    LDX,
    LDY,
    STA,
    STX,
    STY,
    ADC,
    SBC,
    AND,
    ORA,
    EOR,
    CMP,
    CPX,
    CPY,
    INC,
    DEC,
    TAX,
    TAY,
    TXA,
    TYA,
    INX,
    INY,
    DEX,
    DEY,
    JMP,
    JSR,
    RTS,
    BEQ,
    BNE,
    BCS,
    BCC,
    BMI,
    BPL,
    NOP,
    BRK,
    HLT,
    DBG,
    SND,
}

/// The addressing modes. `Packed` is the one-byte channel/note payload of the
/// SND instruction.
#[derive(Clone, Copy, Debug, PartialEq, Eq, Structural)]
pub enum AddrMode {
    Implied,
    Immediate,
    ZeroPage,
    ZeroPageX,
    ZeroPageY,
    Absolute,
    AbsoluteX,
    AbsoluteY,
    IndirectX,
    IndirectY,
    Relative,
    Packed,
}

/// The table in the encoding direction: the opcode assigned to a mnemonic in
/// a given addressing mode, or `None` where the combination is not encodable.
pub open spec fn opcode_for(m: Mnemonic, mode: AddrMode) -> Option<u8> {
    match (m, mode) {
        (Mnemonic::LDA, AddrMode::Immediate) => Some(0xA9u8),
        (Mnemonic::LDA, AddrMode::ZeroPage) => Some(0xA5u8),
        (Mnemonic::LDA, AddrMode::ZeroPageX) => Some(0xB5u8),
        (Mnemonic::LDA, AddrMode::Absolute) => Some(0xADu8),
        (Mnemonic::LDA, AddrMode::AbsoluteX) => Some(0xBDu8),
        (Mnemonic::LDA, AddrMode::AbsoluteY) => Some(0xB9u8),
        (Mnemonic::LDA, AddrMode::IndirectX) => Some(0xA1u8),
        (Mnemonic::LDA, AddrMode::IndirectY) => Some(0xB1u8),
        (Mnemonic::LDX, AddrMode::Immediate) => Some(0xA2u8),
        (Mnemonic::LDX, AddrMode::ZeroPage) => Some(0xA6u8),
        (Mnemonic::LDX, AddrMode::ZeroPageY) => Some(0xB6u8),
        (Mnemonic::LDX, AddrMode::Absolute) => Some(0xAEu8),
        (Mnemonic::LDX, AddrMode::AbsoluteY) => Some(0xBEu8),
        (Mnemonic::LDY, AddrMode::Immediate) => Some(0xA0u8),
        (Mnemonic::LDY, AddrMode::ZeroPage) => Some(0xA4u8),
        (Mnemonic::LDY, AddrMode::ZeroPageX) => Some(0xB4u8),
        (Mnemonic::LDY, AddrMode::Absolute) => Some(0xACu8),
        (Mnemonic::LDY, AddrMode::AbsoluteX) => Some(0xBCu8),
        (Mnemonic::STA, AddrMode::ZeroPage) => Some(0x85u8),
        (Mnemonic::STA, AddrMode::ZeroPageX) => Some(0x95u8),
        (Mnemonic::STA, AddrMode::Absolute) => Some(0x8Du8),
        (Mnemonic::STA, AddrMode::AbsoluteX) => Some(0x9Du8),
        (Mnemonic::STA, AddrMode::AbsoluteY) => Some(0x99u8),
        (Mnemonic::STA, AddrMode::IndirectX) => Some(0x81u8),
        (Mnemonic::STA, AddrMode::IndirectY) => Some(0x91u8),
        (Mnemonic::STX, AddrMode::ZeroPage) => Some(0x86u8),
        (Mnemonic::STX, AddrMode::ZeroPageY) => Some(0x96u8),
        (Mnemonic::STX, AddrMode::Absolute) => Some(0x8Eu8),
        (Mnemonic::STY, AddrMode::ZeroPage) => Some(0x84u8),
        (Mnemonic::STY, AddrMode::ZeroPageX) => Some(0x94u8),
        (Mnemonic::STY, AddrMode::Absolute) => Some(0x8Cu8),
        (Mnemonic::ADC, AddrMode::Immediate) => Some(0x69u8),
        (Mnemonic::ADC, AddrMode::ZeroPage) => Some(0x65u8),
        (Mnemonic::ADC, AddrMode::ZeroPageX) => Some(0x75u8),
        (Mnemonic::ADC, AddrMode::Absolute) => Some(0x6Du8),
        (Mnemonic::ADC, AddrMode::AbsoluteX) => Some(0x7Du8),
        (Mnemonic::ADC, AddrMode::AbsoluteY) => Some(0x79u8),
        (Mnemonic::ADC, AddrMode::IndirectX) => Some(0x61u8),
        (Mnemonic::ADC, AddrMode::IndirectY) => Some(0x71u8),
        (Mnemonic::SBC, AddrMode::Immediate) => Some(0xE9u8),
        (Mnemonic::SBC, AddrMode::ZeroPage) => Some(0xE5u8),
        (Mnemonic::SBC, AddrMode::ZeroPageX) => Some(0xF5u8),
        (Mnemonic::SBC, AddrMode::Absolute) => Some(0xEDu8),
        (Mnemonic::SBC, AddrMode::AbsoluteX) => Some(0xFDu8),
        (Mnemonic::SBC, AddrMode::AbsoluteY) => Some(0xF9u8),
        (Mnemonic::SBC, AddrMode::IndirectX) => Some(0xE1u8),
        (Mnemonic::SBC, AddrMode::IndirectY) => Some(0xF1u8),
        (Mnemonic::AND, AddrMode::Immediate) => Some(0x29u8),
        (Mnemonic::AND, AddrMode::ZeroPage) => Some(0x25u8),
        (Mnemonic::AND, AddrMode::ZeroPageX) => Some(0x35u8),
        (Mnemonic::AND, AddrMode::Absolute) => Some(0x2Du8),
        (Mnemonic::AND, AddrMode::AbsoluteX) => Some(0x3Du8),
        (Mnemonic::AND, AddrMode::AbsoluteY) => Some(0x39u8),
        (Mnemonic::AND, AddrMode::IndirectX) => Some(0x21u8),
        (Mnemonic::AND, AddrMode::IndirectY) => Some(0x31u8),
        (Mnemonic::ORA, AddrMode::Immediate) => Some(0x09u8),
        (Mnemonic::ORA, AddrMode::ZeroPage) => Some(0x05u8),
        (Mnemonic::ORA, AddrMode::ZeroPageX) => Some(0x15u8),
        (Mnemonic::ORA, AddrMode::Absolute) => Some(0x0Du8),
        (Mnemonic::ORA, AddrMode::AbsoluteX) => Some(0x1Du8),
        (Mnemonic::ORA, AddrMode::AbsoluteY) => Some(0x19u8),
        (Mnemonic::ORA, AddrMode::IndirectX) => Some(0x01u8),
        (Mnemonic::ORA, AddrMode::IndirectY) => Some(0x11u8),
        (Mnemonic::EOR, AddrMode::Immediate) => Some(0x49u8),
        (Mnemonic::EOR, AddrMode::ZeroPage) => Some(0x45u8),
        (Mnemonic::EOR, AddrMode::ZeroPageX) => Some(0x55u8),
        (Mnemonic::EOR, AddrMode::Absolute) => Some(0x4Du8),
        (Mnemonic::EOR, AddrMode::AbsoluteX) => Some(0x5Du8),
        (Mnemonic::EOR, AddrMode::AbsoluteY) => Some(0x59u8),
        (Mnemonic::EOR, AddrMode::IndirectX) => Some(0x41u8),
        (Mnemonic::EOR, AddrMode::IndirectY) => Some(0x51u8),
        (Mnemonic::CMP, AddrMode::Immediate) => Some(0xC9u8),
        (Mnemonic::CMP, AddrMode::ZeroPage) => Some(0xC5u8),
        (Mnemonic::CMP, AddrMode::ZeroPageX) => Some(0xD5u8),
        (Mnemonic::CMP, AddrMode::Absolute) => Some(0xCDu8),
        (Mnemonic::CMP, AddrMode::AbsoluteX) => Some(0xDDu8),
        (Mnemonic::CMP, AddrMode::AbsoluteY) => Some(0xD9u8),
        (Mnemonic::CMP, AddrMode::IndirectX) => Some(0xC1u8),
        (Mnemonic::CMP, AddrMode::IndirectY) => Some(0xD1u8),
        (Mnemonic::CPX, AddrMode::Immediate) => Some(0xE0u8),
        (Mnemonic::CPX, AddrMode::ZeroPage) => Some(0xE4u8),
        (Mnemonic::CPX, AddrMode::Absolute) => Some(0xECu8),
        (Mnemonic::CPY, AddrMode::Immediate) => Some(0xC0u8),
        (Mnemonic::CPY, AddrMode::ZeroPage) => Some(0xC4u8),
        (Mnemonic::CPY, AddrMode::Absolute) => Some(0xCCu8),
        (Mnemonic::INC, AddrMode::ZeroPage) => Some(0xE6u8),
        (Mnemonic::INC, AddrMode::ZeroPageX) => Some(0xF6u8),
        (Mnemonic::INC, AddrMode::Absolute) => Some(0xEEu8),
        (Mnemonic::INC, AddrMode::AbsoluteX) => Some(0xFEu8),
        (Mnemonic::DEC, AddrMode::ZeroPage) => Some(0xC6u8),
        (Mnemonic::DEC, AddrMode::ZeroPageX) => Some(0xD6u8),
        (Mnemonic::DEC, AddrMode::Absolute) => Some(0xCEu8),
        (Mnemonic::TAX, AddrMode::Implied) => Some(0xAAu8),
        (Mnemonic::TAY, AddrMode::Implied) => Some(0xA8u8),
        (Mnemonic::TXA, AddrMode::Implied) => Some(0x8Au8),
        (Mnemonic::TYA, AddrMode::Implied) => Some(0x98u8),
        (Mnemonic::INX, AddrMode::Implied) => Some(0xE8u8),
        (Mnemonic::INY, AddrMode::Implied) => Some(0xC8u8),
        (Mnemonic::DEX, AddrMode::Implied) => Some(0xCAu8),
        (Mnemonic::DEY, AddrMode::Implied) => Some(0x88u8),
        (Mnemonic::JMP, AddrMode::Absolute) => Some(0x4Cu8),
        (Mnemonic::JSR, AddrMode::Absolute) => Some(0x20u8),
        (Mnemonic::RTS, AddrMode::Implied) => Some(0x60u8),
        (Mnemonic::BEQ, AddrMode::Relative) => Some(0xF0u8),
        (Mnemonic::BNE, AddrMode::Relative) => Some(0xD0u8),
        (Mnemonic::BCS, AddrMode::Relative) => Some(0xB0u8),
        (Mnemonic::BCC, AddrMode::Relative) => Some(0x90u8),
        (Mnemonic::BMI, AddrMode::Relative) => Some(0x30u8),
        (Mnemonic::BPL, AddrMode::Relative) => Some(0x10u8),
        (Mnemonic::NOP, AddrMode::Implied) => Some(0xEAu8),
        (Mnemonic::BRK, AddrMode::Implied) => Some(0x00u8),
        (Mnemonic::HLT, AddrMode::Implied) => Some(0xFFu8),
        (Mnemonic::DBG, AddrMode::Absolute) => Some(0xDEu8),
        (Mnemonic::SND, AddrMode::Packed) => Some(0x42u8),
        _ => None,
    }
}

/// The table in the decoding direction: the mnemonic and addressing mode an
/// opcode byte stands for, or `None` for an unknown opcode.
pub open spec fn decode_op(op: u8) -> Option<(Mnemonic, AddrMode)> {
    match op {
        0xA9u8 => Some((Mnemonic::LDA, AddrMode::Immediate)),
        0xA5u8 => Some((Mnemonic::LDA, AddrMode::ZeroPage)),
        0xB5u8 => Some((Mnemonic::LDA, AddrMode::ZeroPageX)),
        0xADu8 => Some((Mnemonic::LDA, AddrMode::Absolute)),
        0xBDu8 => Some((Mnemonic::LDA, AddrMode::AbsoluteX)),
        0xB9u8 => Some((Mnemonic::LDA, AddrMode::AbsoluteY)),
        0xA1u8 => Some((Mnemonic::LDA, AddrMode::IndirectX)),
        0xB1u8 => Some((Mnemonic::LDA, AddrMode::IndirectY)),
        0xA2u8 => Some((Mnemonic::LDX, AddrMode::Immediate)),
        0xA6u8 => Some((Mnemonic::LDX, AddrMode::ZeroPage)),
        0xB6u8 => Some((Mnemonic::LDX, AddrMode::ZeroPageY)),
        0xAEu8 => Some((Mnemonic::LDX, AddrMode::Absolute)),
        0xBEu8 => Some((Mnemonic::LDX, AddrMode::AbsoluteY)),
        0xA0u8 => Some((Mnemonic::LDY, AddrMode::Immediate)),
        0xA4u8 => Some((Mnemonic::LDY, AddrMode::ZeroPage)),
        0xB4u8 => Some((Mnemonic::LDY, AddrMode::ZeroPageX)),
        0xACu8 => Some((Mnemonic::LDY, AddrMode::Absolute)),
        0xBCu8 => Some((Mnemonic::LDY, AddrMode::AbsoluteX)),
        0x85u8 => Some((Mnemonic::STA, AddrMode::ZeroPage)),
        0x95u8 => Some((Mnemonic::STA, AddrMode::ZeroPageX)),
        0x8Du8 => Some((Mnemonic::STA, AddrMode::Absolute)),
        0x9Du8 => Some((Mnemonic::STA, AddrMode::AbsoluteX)),
        0x99u8 => Some((Mnemonic::STA, AddrMode::AbsoluteY)),
        0x81u8 => Some((Mnemonic::STA, AddrMode::IndirectX)),
        0x91u8 => Some((Mnemonic::STA, AddrMode::IndirectY)),
        0x86u8 => Some((Mnemonic::STX, AddrMode::ZeroPage)),
        0x96u8 => Some((Mnemonic::STX, AddrMode::ZeroPageY)),
        0x8Eu8 => Some((Mnemonic::STX, AddrMode::Absolute)),
        0x84u8 => Some((Mnemonic::STY, AddrMode::ZeroPage)),
        0x94u8 => Some((Mnemonic::STY, AddrMode::ZeroPageX)),
        0x8Cu8 => Some((Mnemonic::STY, AddrMode::Absolute)),
        0x69u8 => Some((Mnemonic::ADC, AddrMode::Immediate)),
        0x65u8 => Some((Mnemonic::ADC, AddrMode::ZeroPage)),
        0x75u8 => Some((Mnemonic::ADC, AddrMode::ZeroPageX)),
        0x6Du8 => Some((Mnemonic::ADC, AddrMode::Absolute)),
        0x7Du8 => Some((Mnemonic::ADC, AddrMode::AbsoluteX)),
        0x79u8 => Some((Mnemonic::ADC, AddrMode::AbsoluteY)),
        0x61u8 => Some((Mnemonic::ADC, AddrMode::IndirectX)),
        0x71u8 => Some((Mnemonic::ADC, AddrMode::IndirectY)),
        0xE9u8 => Some((Mnemonic::SBC, AddrMode::Immediate)),
        0xE5u8 => Some((Mnemonic::SBC, AddrMode::ZeroPage)),
        0xF5u8 => Some((Mnemonic::SBC, AddrMode::ZeroPageX)),
        0xEDu8 => Some((Mnemonic::SBC, AddrMode::Absolute)),
        0xFDu8 => Some((Mnemonic::SBC, AddrMode::AbsoluteX)),
        0xF9u8 => Some((Mnemonic::SBC, AddrMode::AbsoluteY)),
        0xE1u8 => Some((Mnemonic::SBC, AddrMode::IndirectX)),
        0xF1u8 => Some((Mnemonic::SBC, AddrMode::IndirectY)),
        0x29u8 => Some((Mnemonic::AND, AddrMode::Immediate)),
        0x25u8 => Some((Mnemonic::AND, AddrMode::ZeroPage)),
        0x35u8 => Some((Mnemonic::AND, AddrMode::ZeroPageX)),
        0x2Du8 => Some((Mnemonic::AND, AddrMode::Absolute)),
        0x3Du8 => Some((Mnemonic::AND, AddrMode::AbsoluteX)),
        0x39u8 => Some((Mnemonic::AND, AddrMode::AbsoluteY)),
        0x21u8 => Some((Mnemonic::AND, AddrMode::IndirectX)),
        0x31u8 => Some((Mnemonic::AND, AddrMode::IndirectY)),
        0x09u8 => Some((Mnemonic::ORA, AddrMode::Immediate)),
        0x05u8 => Some((Mnemonic::ORA, AddrMode::ZeroPage)),
        0x15u8 => Some((Mnemonic::ORA, AddrMode::ZeroPageX)),
        0x0Du8 => Some((Mnemonic::ORA, AddrMode::Absolute)),
        0x1Du8 => Some((Mnemonic::ORA, AddrMode::AbsoluteX)),
        0x19u8 => Some((Mnemonic::ORA, AddrMode::AbsoluteY)),
        0x01u8 => Some((Mnemonic::ORA, AddrMode::IndirectX)),
        0x11u8 => Some((Mnemonic::ORA, AddrMode::IndirectY)),
        0x49u8 => Some((Mnemonic::EOR, AddrMode::Immediate)),
        0x45u8 => Some((Mnemonic::EOR, AddrMode::ZeroPage)),
        0x55u8 => Some((Mnemonic::EOR, AddrMode::ZeroPageX)),
        0x4Du8 => Some((Mnemonic::EOR, AddrMode::Absolute)),
        0x5Du8 => Some((Mnemonic::EOR, AddrMode::AbsoluteX)),
        0x59u8 => Some((Mnemonic::EOR, AddrMode::AbsoluteY)),
        0x41u8 => Some((Mnemonic::EOR, AddrMode::IndirectX)),
        0x51u8 => Some((Mnemonic::EOR, AddrMode::IndirectY)),
        0xC9u8 => Some((Mnemonic::CMP, AddrMode::Immediate)),
        0xC5u8 => Some((Mnemonic::CMP, AddrMode::ZeroPage)),
        0xD5u8 => Some((Mnemonic::CMP, AddrMode::ZeroPageX)),
        0xCDu8 => Some((Mnemonic::CMP, AddrMode::Absolute)),
        0xDDu8 => Some((Mnemonic::CMP, AddrMode::AbsoluteX)),
        0xD9u8 => Some((Mnemonic::CMP, AddrMode::AbsoluteY)),
        0xC1u8 => Some((Mnemonic::CMP, AddrMode::IndirectX)),
        0xD1u8 => Some((Mnemonic::CMP, AddrMode::IndirectY)),
        0xE0u8 => Some((Mnemonic::CPX, AddrMode::Immediate)),
        0xE4u8 => Some((Mnemonic::CPX, AddrMode::ZeroPage)),
        0xECu8 => Some((Mnemonic::CPX, AddrMode::Absolute)),
        0xC0u8 => Some((Mnemonic::CPY, AddrMode::Immediate)),
        0xC4u8 => Some((Mnemonic::CPY, AddrMode::ZeroPage)),
        0xCCu8 => Some((Mnemonic::CPY, AddrMode::Absolute)),
        0xE6u8 => Some((Mnemonic::INC, AddrMode::ZeroPage)),
        0xF6u8 => Some((Mnemonic::INC, AddrMode::ZeroPageX)),
        0xEEu8 => Some((Mnemonic::INC, AddrMode::Absolute)),
        0xFEu8 => Some((Mnemonic::INC, AddrMode::AbsoluteX)),
        0xC6u8 => Some((Mnemonic::DEC, AddrMode::ZeroPage)),
        0xD6u8 => Some((Mnemonic::DEC, AddrMode::ZeroPageX)),
        0xCEu8 => Some((Mnemonic::DEC, AddrMode::Absolute)),
        0xAAu8 => Some((Mnemonic::TAX, AddrMode::Implied)),
        0xA8u8 => Some((Mnemonic::TAY, AddrMode::Implied)),
        0x8Au8 => Some((Mnemonic::TXA, AddrMode::Implied)),
        0x98u8 => Some((Mnemonic::TYA, AddrMode::Implied)),
        0xE8u8 => Some((Mnemonic::INX, AddrMode::Implied)),
        0xC8u8 => Some((Mnemonic::INY, AddrMode::Implied)),
        0xCAu8 => Some((Mnemonic::DEX, AddrMode::Implied)),
        0x88u8 => Some((Mnemonic::DEY, AddrMode::Implied)),
        0x4Cu8 => Some((Mnemonic::JMP, AddrMode::Absolute)),
        0x20u8 => Some((Mnemonic::JSR, AddrMode::Absolute)),
        0x60u8 => Some((Mnemonic::RTS, AddrMode::Implied)),
        0xF0u8 => Some((Mnemonic::BEQ, AddrMode::Relative)),
        0xD0u8 => Some((Mnemonic::BNE, AddrMode::Relative)),
        0xB0u8 => Some((Mnemonic::BCS, AddrMode::Relative)),
        0x90u8 => Some((Mnemonic::BCC, AddrMode::Relative)),
        0x30u8 => Some((Mnemonic::BMI, AddrMode::Relative)),
        0x10u8 => Some((Mnemonic::BPL, AddrMode::Relative)),
        0xEAu8 => Some((Mnemonic::NOP, AddrMode::Implied)),
        0x00u8 => Some((Mnemonic::BRK, AddrMode::Implied)),
        0xFFu8 => Some((Mnemonic::HLT, AddrMode::Implied)),
        0xDEu8 => Some((Mnemonic::DBG, AddrMode::Absolute)),
        0x42u8 => Some((Mnemonic::SND, AddrMode::Packed)),
        _ => None,
    }
}

/// Encoded instruction length by addressing mode, opcode byte included.
pub open spec fn spec_instr_len(mode: AddrMode) -> u16 {
    match mode {
        AddrMode::Implied => 1,
        AddrMode::Absolute => 3,
        AddrMode::AbsoluteX => 3,
        AddrMode::AbsoluteY => 3,
        _ => 2,
    }
}

/// Executable encoder lookup, proved equal to the table.
pub fn opcode_lookup(m: Mnemonic, mode: AddrMode) -> (r: Option<u8>)
    ensures
        r == opcode_for(m, mode),
{
    match (m, mode) {
        (Mnemonic::LDA, AddrMode::Immediate) => Some(0xA9u8),
        (Mnemonic::LDA, AddrMode::ZeroPage) => Some(0xA5u8),
        (Mnemonic::LDA, AddrMode::ZeroPageX) => Some(0xB5u8),
        (Mnemonic::LDA, AddrMode::Absolute) => Some(0xADu8),
        (Mnemonic::LDA, AddrMode::AbsoluteX) => Some(0xBDu8),
        (Mnemonic::LDA, AddrMode::AbsoluteY) => Some(0xB9u8),
        (Mnemonic::LDA, AddrMode::IndirectX) => Some(0xA1u8),
        (Mnemonic::LDA, AddrMode::IndirectY) => Some(0xB1u8),
        (Mnemonic::LDX, AddrMode::Immediate) => Some(0xA2u8),
        (Mnemonic::LDX, AddrMode::ZeroPage) => Some(0xA6u8),
        (Mnemonic::LDX, AddrMode::ZeroPageY) => Some(0xB6u8),
        (Mnemonic::LDX, AddrMode::Absolute) => Some(0xAEu8),
        (Mnemonic::LDX, AddrMode::AbsoluteY) => Some(0xBEu8),
        (Mnemonic::LDY, AddrMode::Immediate) => Some(0xA0u8),
        (Mnemonic::LDY, AddrMode::ZeroPage) => Some(0xA4u8),
        (Mnemonic::LDY, AddrMode::ZeroPageX) => Some(0xB4u8),
        (Mnemonic::LDY, AddrMode::Absolute) => Some(0xACu8),
        (Mnemonic::LDY, AddrMode::AbsoluteX) => Some(0xBCu8),
        (Mnemonic::STA, AddrMode::ZeroPage) => Some(0x85u8),
        (Mnemonic::STA, AddrMode::ZeroPageX) => Some(0x95u8),
        (Mnemonic::STA, AddrMode::Absolute) => Some(0x8Du8),
        (Mnemonic::STA, AddrMode::AbsoluteX) => Some(0x9Du8),
        (Mnemonic::STA, AddrMode::AbsoluteY) => Some(0x99u8),
        (Mnemonic::STA, AddrMode::IndirectX) => Some(0x81u8),
        (Mnemonic::STA, AddrMode::IndirectY) => Some(0x91u8),
        (Mnemonic::STX, AddrMode::ZeroPage) => Some(0x86u8),
        (Mnemonic::STX, AddrMode::ZeroPageY) => Some(0x96u8),
        (Mnemonic::STX, AddrMode::Absolute) => Some(0x8Eu8),
        (Mnemonic::STY, AddrMode::ZeroPage) => Some(0x84u8),
        (Mnemonic::STY, AddrMode::ZeroPageX) => Some(0x94u8),
        (Mnemonic::STY, AddrMode::Absolute) => Some(0x8Cu8),
        (Mnemonic::ADC, AddrMode::Immediate) => Some(0x69u8),
        (Mnemonic::ADC, AddrMode::ZeroPage) => Some(0x65u8),
        (Mnemonic::ADC, AddrMode::ZeroPageX) => Some(0x75u8),
        (Mnemonic::ADC, AddrMode::Absolute) => Some(0x6Du8),
        (Mnemonic::ADC, AddrMode::AbsoluteX) => Some(0x7Du8),
        (Mnemonic::ADC, AddrMode::AbsoluteY) => Some(0x79u8),
        (Mnemonic::ADC, AddrMode::IndirectX) => Some(0x61u8),
        (Mnemonic::ADC, AddrMode::IndirectY) => Some(0x71u8),
        (Mnemonic::SBC, AddrMode::Immediate) => Some(0xE9u8),
        (Mnemonic::SBC, AddrMode::ZeroPage) => Some(0xE5u8),
        (Mnemonic::SBC, AddrMode::ZeroPageX) => Some(0xF5u8),
        (Mnemonic::SBC, AddrMode::Absolute) => Some(0xEDu8),
        (Mnemonic::SBC, AddrMode::AbsoluteX) => Some(0xFDu8),
        (Mnemonic::SBC, AddrMode::AbsoluteY) => Some(0xF9u8),
        (Mnemonic::SBC, AddrMode::IndirectX) => Some(0xE1u8),
        (Mnemonic::SBC, AddrMode::IndirectY) => Some(0xF1u8),
        (Mnemonic::AND, AddrMode::Immediate) => Some(0x29u8),
        (Mnemonic::AND, AddrMode::ZeroPage) => Some(0x25u8),
        (Mnemonic::AND, AddrMode::ZeroPageX) => Some(0x35u8),
        (Mnemonic::AND, AddrMode::Absolute) => Some(0x2Du8),
        (Mnemonic::AND, AddrMode::AbsoluteX) => Some(0x3Du8),
        (Mnemonic::AND, AddrMode::AbsoluteY) => Some(0x39u8),
        (Mnemonic::AND, AddrMode::IndirectX) => Some(0x21u8),
        (Mnemonic::AND, AddrMode::IndirectY) => Some(0x31u8),
        (Mnemonic::ORA, AddrMode::Immediate) => Some(0x09u8),
        (Mnemonic::ORA, AddrMode::ZeroPage) => Some(0x05u8),
        (Mnemonic::ORA, AddrMode::ZeroPageX) => Some(0x15u8),
        (Mnemonic::ORA, AddrMode::Absolute) => Some(0x0Du8),
        (Mnemonic::ORA, AddrMode::AbsoluteX) => Some(0x1Du8),
        (Mnemonic::ORA, AddrMode::AbsoluteY) => Some(0x19u8),
        (Mnemonic::ORA, AddrMode::IndirectX) => Some(0x01u8),
        (Mnemonic::ORA, AddrMode::IndirectY) => Some(0x11u8),
        (Mnemonic::EOR, AddrMode::Immediate) => Some(0x49u8),
        (Mnemonic::EOR, AddrMode::ZeroPage) => Some(0x45u8),
        (Mnemonic::EOR, AddrMode::ZeroPageX) => Some(0x55u8),
        (Mnemonic::EOR, AddrMode::Absolute) => Some(0x4Du8),
        (Mnemonic::EOR, AddrMode::AbsoluteX) => Some(0x5Du8),
        (Mnemonic::EOR, AddrMode::AbsoluteY) => Some(0x59u8),
        (Mnemonic::EOR, AddrMode::IndirectX) => Some(0x41u8),
        (Mnemonic::EOR, AddrMode::IndirectY) => Some(0x51u8),
        (Mnemonic::CMP, AddrMode::Immediate) => Some(0xC9u8),
        (Mnemonic::CMP, AddrMode::ZeroPage) => Some(0xC5u8),
        (Mnemonic::CMP, AddrMode::ZeroPageX) => Some(0xD5u8),
        (Mnemonic::CMP, AddrMode::Absolute) => Some(0xCDu8),
        (Mnemonic::CMP, AddrMode::AbsoluteX) => Some(0xDDu8),
        (Mnemonic::CMP, AddrMode::AbsoluteY) => Some(0xD9u8),
        (Mnemonic::CMP, AddrMode::IndirectX) => Some(0xC1u8),
        (Mnemonic::CMP, AddrMode::IndirectY) => Some(0xD1u8),
        (Mnemonic::CPX, AddrMode::Immediate) => Some(0xE0u8),
        (Mnemonic::CPX, AddrMode::ZeroPage) => Some(0xE4u8),
        (Mnemonic::CPX, AddrMode::Absolute) => Some(0xECu8),
        (Mnemonic::CPY, AddrMode::Immediate) => Some(0xC0u8),
        (Mnemonic::CPY, AddrMode::ZeroPage) => Some(0xC4u8),
        (Mnemonic::CPY, AddrMode::Absolute) => Some(0xCCu8),
        (Mnemonic::INC, AddrMode::ZeroPage) => Some(0xE6u8),
        (Mnemonic::INC, AddrMode::ZeroPageX) => Some(0xF6u8),
        (Mnemonic::INC, AddrMode::Absolute) => Some(0xEEu8),
        (Mnemonic::INC, AddrMode::AbsoluteX) => Some(0xFEu8),
        (Mnemonic::DEC, AddrMode::ZeroPage) => Some(0xC6u8),
        (Mnemonic::DEC, AddrMode::ZeroPageX) => Some(0xD6u8),
        (Mnemonic::DEC, AddrMode::Absolute) => Some(0xCEu8),
        (Mnemonic::TAX, AddrMode::Implied) => Some(0xAAu8),
        (Mnemonic::TAY, AddrMode::Implied) => Some(0xA8u8),
        (Mnemonic::TXA, AddrMode::Implied) => Some(0x8Au8),
        (Mnemonic::TYA, AddrMode::Implied) => Some(0x98u8),
        (Mnemonic::INX, AddrMode::Implied) => Some(0xE8u8),
        (Mnemonic::INY, AddrMode::Implied) => Some(0xC8u8),
        (Mnemonic::DEX, AddrMode::Implied) => Some(0xCAu8),
        (Mnemonic::DEY, AddrMode::Implied) => Some(0x88u8),
        (Mnemonic::JMP, AddrMode::Absolute) => Some(0x4Cu8),
        (Mnemonic::JSR, AddrMode::Absolute) => Some(0x20u8),
        (Mnemonic::RTS, AddrMode::Implied) => Some(0x60u8),
        (Mnemonic::BEQ, AddrMode::Relative) => Some(0xF0u8),
        (Mnemonic::BNE, AddrMode::Relative) => Some(0xD0u8),
        (Mnemonic::BCS, AddrMode::Relative) => Some(0xB0u8),
        (Mnemonic::BCC, AddrMode::Relative) => Some(0x90u8),
        (Mnemonic::BMI, AddrMode::Relative) => Some(0x30u8),
        (Mnemonic::BPL, AddrMode::Relative) => Some(0x10u8),
        (Mnemonic::NOP, AddrMode::Implied) => Some(0xEAu8),
        (Mnemonic::BRK, AddrMode::Implied) => Some(0x00u8),
        (Mnemonic::HLT, AddrMode::Implied) => Some(0xFFu8),
        (Mnemonic::DBG, AddrMode::Absolute) => Some(0xDEu8),
        (Mnemonic::SND, AddrMode::Packed) => Some(0x42u8),
        _ => None,
    }
}

/// Executable decoder lookup, proved equal to the table.
pub fn decode(op: u8) -> (r: Option<(Mnemonic, AddrMode)>)
    ensures
        r == decode_op(op),
{
    match op {
        0xA9u8 => Some((Mnemonic::LDA, AddrMode::Immediate)),
        0xA5u8 => Some((Mnemonic::LDA, AddrMode::ZeroPage)),
        0xB5u8 => Some((Mnemonic::LDA, AddrMode::ZeroPageX)),
        0xADu8 => Some((Mnemonic::LDA, AddrMode::Absolute)),
        0xBDu8 => Some((Mnemonic::LDA, AddrMode::AbsoluteX)),
        0xB9u8 => Some((Mnemonic::LDA, AddrMode::AbsoluteY)),
        0xA1u8 => Some((Mnemonic::LDA, AddrMode::IndirectX)),
        0xB1u8 => Some((Mnemonic::LDA, AddrMode::IndirectY)),
        0xA2u8 => Some((Mnemonic::LDX, AddrMode::Immediate)),
        0xA6u8 => Some((Mnemonic::LDX, AddrMode::ZeroPage)),
        0xB6u8 => Some((Mnemonic::LDX, AddrMode::ZeroPageY)),
        0xAEu8 => Some((Mnemonic::LDX, AddrMode::Absolute)),
        0xBEu8 => Some((Mnemonic::LDX, AddrMode::AbsoluteY)),
        0xA0u8 => Some((Mnemonic::LDY, AddrMode::Immediate)),
        0xA4u8 => Some((Mnemonic::LDY, AddrMode::ZeroPage)),
        0xB4u8 => Some((Mnemonic::LDY, AddrMode::ZeroPageX)),
        0xACu8 => Some((Mnemonic::LDY, AddrMode::Absolute)),
        0xBCu8 => Some((Mnemonic::LDY, AddrMode::AbsoluteX)),
        0x85u8 => Some((Mnemonic::STA, AddrMode::ZeroPage)),
        0x95u8 => Some((Mnemonic::STA, AddrMode::ZeroPageX)),
        0x8Du8 => Some((Mnemonic::STA, AddrMode::Absolute)),
        0x9Du8 => Some((Mnemonic::STA, AddrMode::AbsoluteX)),
        0x99u8 => Some((Mnemonic::STA, AddrMode::AbsoluteY)),
        0x81u8 => Some((Mnemonic::STA, AddrMode::IndirectX)),
        0x91u8 => Some((Mnemonic::STA, AddrMode::IndirectY)),
        0x86u8 => Some((Mnemonic::STX, AddrMode::ZeroPage)),
        0x96u8 => Some((Mnemonic::STX, AddrMode::ZeroPageY)),
        0x8Eu8 => Some((Mnemonic::STX, AddrMode::Absolute)),
        0x84u8 => Some((Mnemonic::STY, AddrMode::ZeroPage)),
        0x94u8 => Some((Mnemonic::STY, AddrMode::ZeroPageX)),
        0x8Cu8 => Some((Mnemonic::STY, AddrMode::Absolute)),
        0x69u8 => Some((Mnemonic::ADC, AddrMode::Immediate)),
        0x65u8 => Some((Mnemonic::ADC, AddrMode::ZeroPage)),
        0x75u8 => Some((Mnemonic::ADC, AddrMode::ZeroPageX)),
        0x6Du8 => Some((Mnemonic::ADC, AddrMode::Absolute)),
        0x7Du8 => Some((Mnemonic::ADC, AddrMode::AbsoluteX)),
        0x79u8 => Some((Mnemonic::ADC, AddrMode::AbsoluteY)),
        0x61u8 => Some((Mnemonic::ADC, AddrMode::IndirectX)),
        0x71u8 => Some((Mnemonic::ADC, AddrMode::IndirectY)),
        0xE9u8 => Some((Mnemonic::SBC, AddrMode::Immediate)),
        0xE5u8 => Some((Mnemonic::SBC, AddrMode::ZeroPage)),
        0xF5u8 => Some((Mnemonic::SBC, AddrMode::ZeroPageX)),
        0xEDu8 => Some((Mnemonic::SBC, AddrMode::Absolute)),
        0xFDu8 => Some((Mnemonic::SBC, AddrMode::AbsoluteX)),
        0xF9u8 => Some((Mnemonic::SBC, AddrMode::AbsoluteY)),
        0xE1u8 => Some((Mnemonic::SBC, AddrMode::IndirectX)),
        0xF1u8 => Some((Mnemonic::SBC, AddrMode::IndirectY)),
        0x29u8 => Some((Mnemonic::AND, AddrMode::Immediate)),
        0x25u8 => Some((Mnemonic::AND, AddrMode::ZeroPage)),
        0x35u8 => Some((Mnemonic::AND, AddrMode::ZeroPageX)),
        0x2Du8 => Some((Mnemonic::AND, AddrMode::Absolute)),
        0x3Du8 => Some((Mnemonic::AND, AddrMode::AbsoluteX)),
        0x39u8 => Some((Mnemonic::AND, AddrMode::AbsoluteY)),
        0x21u8 => Some((Mnemonic::AND, AddrMode::IndirectX)),
        0x31u8 => Some((Mnemonic::AND, AddrMode::IndirectY)),
        0x09u8 => Some((Mnemonic::ORA, AddrMode::Immediate)),
        0x05u8 => Some((Mnemonic::ORA, AddrMode::ZeroPage)),
        0x15u8 => Some((Mnemonic::ORA, AddrMode::ZeroPageX)),
        0x0Du8 => Some((Mnemonic::ORA, AddrMode::Absolute)),
        0x1Du8 => Some((Mnemonic::ORA, AddrMode::AbsoluteX)),
        0x19u8 => Some((Mnemonic::ORA, AddrMode::AbsoluteY)),
        0x01u8 => Some((Mnemonic::ORA, AddrMode::IndirectX)),
        0x11u8 => Some((Mnemonic::ORA, AddrMode::IndirectY)),
        0x49u8 => Some((Mnemonic::EOR, AddrMode::Immediate)),
        0x45u8 => Some((Mnemonic::EOR, AddrMode::ZeroPage)),
        0x55u8 => Some((Mnemonic::EOR, AddrMode::ZeroPageX)),
        0x4Du8 => Some((Mnemonic::EOR, AddrMode::Absolute)),
        0x5Du8 => Some((Mnemonic::EOR, AddrMode::AbsoluteX)),
        0x59u8 => Some((Mnemonic::EOR, AddrMode::AbsoluteY)),
        0x41u8 => Some((Mnemonic::EOR, AddrMode::IndirectX)),
        0x51u8 => Some((Mnemonic::EOR, AddrMode::IndirectY)),
        0xC9u8 => Some((Mnemonic::CMP, AddrMode::Immediate)),
        0xC5u8 => Some((Mnemonic::CMP, AddrMode::ZeroPage)),
        0xD5u8 => Some((Mnemonic::CMP, AddrMode::ZeroPageX)),
        0xCDu8 => Some((Mnemonic::CMP, AddrMode::Absolute)),
        0xDDu8 => Some((Mnemonic::CMP, AddrMode::AbsoluteX)),
        0xD9u8 => Some((Mnemonic::CMP, AddrMode::AbsoluteY)),
        0xC1u8 => Some((Mnemonic::CMP, AddrMode::IndirectX)),
        0xD1u8 => Some((Mnemonic::CMP, AddrMode::IndirectY)),
        0xE0u8 => Some((Mnemonic::CPX, AddrMode::Immediate)),
        0xE4u8 => Some((Mnemonic::CPX, AddrMode::ZeroPage)),
        0xECu8 => Some((Mnemonic::CPX, AddrMode::Absolute)),
        0xC0u8 => Some((Mnemonic::CPY, AddrMode::Immediate)),
        0xC4u8 => Some((Mnemonic::CPY, AddrMode::ZeroPage)),
        0xCCu8 => Some((Mnemonic::CPY, AddrMode::Absolute)),
        0xE6u8 => Some((Mnemonic::INC, AddrMode::ZeroPage)),
        0xF6u8 => Some((Mnemonic::INC, AddrMode::ZeroPageX)),
        0xEEu8 => Some((Mnemonic::INC, AddrMode::Absolute)),
        0xFEu8 => Some((Mnemonic::INC, AddrMode::AbsoluteX)),
        0xC6u8 => Some((Mnemonic::DEC, AddrMode::ZeroPage)),
        0xD6u8 => Some((Mnemonic::DEC, AddrMode::ZeroPageX)),
        0xCEu8 => Some((Mnemonic::DEC, AddrMode::Absolute)),
        0xAAu8 => Some((Mnemonic::TAX, AddrMode::Implied)),
        0xA8u8 => Some((Mnemonic::TAY, AddrMode::Implied)),
        0x8Au8 => Some((Mnemonic::TXA, AddrMode::Implied)),
        0x98u8 => Some((Mnemonic::TYA, AddrMode::Implied)),
        0xE8u8 => Some((Mnemonic::INX, AddrMode::Implied)),
        0xC8u8 => Some((Mnemonic::INY, AddrMode::Implied)),
        0xCAu8 => Some((Mnemonic::DEX, AddrMode::Implied)),
        0x88u8 => Some((Mnemonic::DEY, AddrMode::Implied)),
        0x4Cu8 => Some((Mnemonic::JMP, AddrMode::Absolute)),
        0x20u8 => Some((Mnemonic::JSR, AddrMode::Absolute)),
        0x60u8 => Some((Mnemonic::RTS, AddrMode::Implied)),
        0xF0u8 => Some((Mnemonic::BEQ, AddrMode::Relative)),
        0xD0u8 => Some((Mnemonic::BNE, AddrMode::Relative)),
        0xB0u8 => Some((Mnemonic::BCS, AddrMode::Relative)),
        0x90u8 => Some((Mnemonic::BCC, AddrMode::Relative)),
        0x30u8 => Some((Mnemonic::BMI, AddrMode::Relative)),
        0x10u8 => Some((Mnemonic::BPL, AddrMode::Relative)),
        0xEAu8 => Some((Mnemonic::NOP, AddrMode::Implied)),
        0x00u8 => Some((Mnemonic::BRK, AddrMode::Implied)),
        0xFFu8 => Some((Mnemonic::HLT, AddrMode::Implied)),
        0xDEu8 => Some((Mnemonic::DBG, AddrMode::Absolute)),
        0x42u8 => Some((Mnemonic::SND, AddrMode::Packed)),
        _ => None,
    }
}

/// Encoded instruction length, opcode byte included.
pub fn instr_len(mode: AddrMode) -> (r: u16)
    ensures
        r == spec_instr_len(mode),
{
    match mode {
        AddrMode::Implied => 1,
        AddrMode::Absolute => 3,
        AddrMode::AbsoluteX => 3,
        AddrMode::AbsoluteY => 3,
        _ => 2,
    }
}

/// Law: every opcode the table assigns decodes back to the same mnemonic and
/// addressing mode. Together with [`lemma_decode_then_encode`], the encoder
/// and decoder are mutually inverse on the encodable set.
pub proof fn lemma_encode_then_decode(m: Mnemonic, mode: AddrMode)
    ensures
        opcode_for(m, mode) matches Some(op) ==> decode_op(op) == Some((m, mode)),
{
}

/// Law: every opcode the decoder knows is encoded back to the same byte.
pub proof fn lemma_decode_then_encode(op: u8)
    ensures
        decode_op(op) matches Some(d) ==> opcode_for(d.0, d.1) == Some(op),
{
}

/// One instruction as the disassembler reports it: mnemonic, addressing
/// mode, and the raw encoded operand (an absolute address, a one-byte value,
/// or a branch displacement byte; zero for implied instructions).
#[derive(Clone, Copy, Debug, PartialEq, Eq, Structural)]
pub struct Instruction {
    pub m: Mnemonic,
    pub mode: AddrMode,
    pub operand: u16,
}

/// An instruction the table can encode: the combination has an opcode, a
/// two-byte encoding carries a one-byte operand, and an implied instruction
/// carries none.
pub open spec fn wf_instruction(i: Instruction) -> bool {
    &&& opcode_for(i.m, i.mode) is Some
    &&& spec_instr_len(i.mode) == 1 ==> i.operand == 0
    &&& spec_instr_len(i.mode) == 2 ==> i.operand <= 255
}

/// The bytes of one instruction: the opcode, then the operand in
/// little-endian order for three-byte encodings.
pub open spec fn spec_encode_instruction(i: Instruction) -> Seq<u8>
    recommends
        wf_instruction(i),
{
    let opc = match opcode_for(i.m, i.mode) {
        Some(o) => o,
        None => 0,
    };
    if spec_instr_len(i.mode) == 1 {
        seq![opc]
    } else if spec_instr_len(i.mode) == 2 {
        seq![opc, (i.operand % 256) as u8]
    } else {
        seq![opc, (i.operand % 256) as u8, (i.operand / 256) as u8]
    }
}

/// The bytes of a whole instruction sequence, from position `k` on.
pub open spec fn spec_encode_program(instrs: Seq<Instruction>, k: int) -> Seq<u8>
    decreases instrs.len() - k,
{
    if k < 0 || k >= instrs.len() {
        Seq::empty()
    } else {
        spec_encode_instruction(instrs[k]) + spec_encode_program(instrs, k + 1)
    }
}

/// The instruction stream read back from bytes, starting at `i`: `None` on
/// an unknown opcode or a truncated operand.
pub open spec fn spec_disassemble_from(bytes: Seq<u8>, i: int) -> Option<Seq<Instruction>>
    decreases bytes.len() - i,
{
    if i == bytes.len() {
        Some(Seq::empty())
    } else if i < 0 || i > bytes.len() {
        None
    } else {
        match decode_op(bytes[i]) {
            None => None,
            Some(d) => {
                let l = spec_instr_len(d.1) as int;
                if i + l > bytes.len() {
                    None
                } else {
                    let operand: u16 = if l == 1 {
                        0u16
                    } else if l == 2 {
                        bytes[i + 1] as u16
                    } else {
                        (bytes[i + 1] + 256 * bytes[i + 2]) as u16
                    };
                    match spec_disassemble_from(bytes, i + l) {
                        None => None,
                        Some(rest) => Some(
                            seq![Instruction { m: d.0, mode: d.1, operand }] + rest,
                        ),
                    }
                }
            },
        }
    }
}

/// Encodes one instruction, or `None` where the table has no opcode for it
/// or the operand does not fit its width.
pub fn encode_instruction(i: &Instruction) -> (r: Option<Vec<u8>>)
    ensures
        r matches Some(v) ==> wf_instruction(*i) && v@ == spec_encode_instruction(*i),
        r is None ==> !wf_instruction(*i),
{
    let opc = match opcode_lookup(i.m, i.mode) {
        None => {
            return None;
        },
        Some(o) => o,
    };
    let l = instr_len(i.mode);
    let mut v: Vec<u8> = Vec::new();
    v.push(opc);
    if l == 1 {
        if i.operand != 0 {
            return None;
        }
        proof {
            assert(v@ =~= spec_encode_instruction(*i));
        }
        Some(v)
    } else if l == 2 {
        if i.operand > 255 {
            return None;
        }
        v.push((i.operand % 256) as u8);
        proof {
            assert(v@ =~= spec_encode_instruction(*i));
        }
        Some(v)
    } else {
        v.push((i.operand % 256) as u8);
        v.push((i.operand / 256) as u8);
        proof {
            assert(v@ =~= spec_encode_instruction(*i));
        }
        Some(v)
    }
}

/// Reads an instruction stream back from bytes, exactly as
/// [`spec_disassemble_from`] describes.
pub fn disassemble(bytes: &Vec<u8>) -> (r: Option<Vec<Instruction>>)
    ensures
        match (r, spec_disassemble_from(bytes@, 0)) {
            (Some(v), Some(g)) => v@ == g,
            (None, None) => true,
            _ => false,
        },
{
    let mut out: Vec<Instruction> = Vec::new();
    let mut i: usize = 0;
    while i < bytes.len()
        invariant
            i <= bytes@.len(),
            match spec_disassemble_from(bytes@, i as int) {
                Some(rest) => spec_disassemble_from(bytes@, 0) == Some(out@ + rest),
                None => spec_disassemble_from(bytes@, 0) is None,
            },
        decreases bytes@.len() - i,
    {
        let opc = bytes[i];
        match decode(opc) {
            None => {
                return None;
            },
            Some((m, mode)) => {
                let l = instr_len(mode) as usize;
                if bytes.len() - i < l {
                    return None;
                }
                let operand: u16 = if l == 1 {
                    0
                } else if l == 2 {
                    bytes[i + 1] as u16
                } else {
                    bytes[i + 1] as u16 + 256 * bytes[i + 2] as u16
                };
                let ins = Instruction { m, mode, operand };
                proof {
                    let rest = spec_disassemble_from(bytes@, i + l);
                    if rest is Some {
                        assert(out@ + (seq![ins] + rest->Some_0) =~= (out@.push(ins))
                            + rest->Some_0);
                    }
                }
                out.push(ins);
                i = i + l;
            },
        }
    }
    proof {
        assert(out@ + Seq::<Instruction>::empty() =~= out@);
    }
    Some(out)
}

proof fn lemma_round_trip_from(instrs: Seq<Instruction>, k: int, pre: Seq<u8>)
    requires
        0 <= k <= instrs.len(),
        forall|j: int| 0 <= j < instrs.len() ==> wf_instruction(#[trigger] instrs[j]),
    ensures
        spec_disassemble_from(pre + spec_encode_program(instrs, k), pre.len() as int) == Some(
            instrs.subrange(k, instrs.len() as int),
        ),
    decreases instrs.len() - k,
{
    let bytes = pre + spec_encode_program(instrs, k);
    if k == instrs.len() {
        assert(bytes =~= pre);
        assert(instrs.subrange(k, instrs.len() as int) =~= Seq::<Instruction>::empty());
    } else {
        let ins = instrs[k];
        let e = spec_encode_instruction(ins);
        let restb = spec_encode_program(instrs, k + 1);
        assert(bytes =~= (pre + e) + restb);
        lemma_round_trip_from(instrs, k + 1, pre + e);
        lemma_encode_then_decode(ins.m, ins.mode);
        let l = spec_instr_len(ins.mode) as int;
        assert(e.len() == l);
        assert(bytes[pre.len() as int] == e[0]);
        if l >= 2 {
            assert(bytes[pre.len() as int + 1] == e[1]);
        }
        if l == 3 {
            assert(bytes[pre.len() as int + 2] == e[2]);
            vstd::arithmetic::div_mod::lemma_fundamental_div_mod(ins.operand as int, 256);
            assert((ins.operand % 256) as u8 + 256 * ((ins.operand / 256) as u8) == ins.operand);
        }
        assert(seq![ins] + instrs.subrange(k + 1, instrs.len() as int) =~= instrs.subrange(
            k,
            instrs.len() as int,
        ));
    }
}

/// Law: every well-formed instruction sequence, encoded through the table
/// and read back by the disassembler, returns exactly itself. Together with
/// the proof that the assembler emits through this same table, assembly
/// round-trips through disassembly.
pub proof fn lemma_program_round_trip(instrs: Seq<Instruction>)
    requires
        forall|j: int| 0 <= j < instrs.len() ==> wf_instruction(#[trigger] instrs[j]),
    ensures
        spec_disassemble_from(spec_encode_program(instrs, 0), 0) == Some(instrs),
{
    lemma_round_trip_from(instrs, 0, Seq::empty());
    assert(Seq::<u8>::empty() + spec_encode_program(instrs, 0) =~= spec_encode_program(
        instrs,
        0,
    ));
    assert(instrs.subrange(0, instrs.len() as int) =~= instrs);
}

/// Executes the instruction whose opcode byte was just fetched (so the
/// program counter already points past it), exactly as
/// [`cpu::spec_execute`] describes. An unknown opcode logs a diagnostic and
/// halts the machine.
pub fn execute(cpu: &mut CPU, opcode: u8)
    requires
        old(cpu).wf(),
    ensures
        final(cpu).wf(),
        final(cpu)@ == cpu::spec_execute(old(cpu)@, opcode),
{
    match decode(opcode) {
        None => {
            let address = cpu.pc.wrapping_sub(1);
            cpu.events.push(CpuEvent::UnknownOpcode { opcode, address });
            cpu.halt();
        },
        Some((m, mode)) => match m {
            Mnemonic::LDA | Mnemonic::LDX | Mnemonic::LDY => exec_load(cpu, m, mode),
            Mnemonic::STA | Mnemonic::STX | Mnemonic::STY => exec_store(cpu, m, mode),
            Mnemonic::ADC | Mnemonic::SBC | Mnemonic::AND | Mnemonic::ORA | Mnemonic::EOR => {
                exec_arith(cpu, m, mode)
            },
            Mnemonic::CMP | Mnemonic::CPX | Mnemonic::CPY => exec_compare(cpu, m, mode),
            Mnemonic::INC | Mnemonic::DEC => exec_inc_dec(cpu, m, mode),
            Mnemonic::TAX
            | Mnemonic::TAY
            | Mnemonic::TXA
            | Mnemonic::TYA
            | Mnemonic::INX
            | Mnemonic::INY
            | Mnemonic::DEX
            | Mnemonic::DEY => exec_register(cpu, m),
            Mnemonic::JMP | Mnemonic::JSR | Mnemonic::RTS => exec_flow(cpu, m, mode),
            Mnemonic::BEQ
            | Mnemonic::BNE
            | Mnemonic::BCS
            | Mnemonic::BCC
            | Mnemonic::BMI
            | Mnemonic::BPL => exec_branch(cpu, m),
            Mnemonic::NOP | Mnemonic::BRK | Mnemonic::HLT | Mnemonic::DBG | Mnemonic::SND => {
                exec_system(cpu, m, mode)
            },
        },
    }
}

/// The load instructions: the operand value goes to a register; Z and N track
/// the value.
fn exec_load(cpu: &mut CPU, m: Mnemonic, mode: AddrMode)
    requires
        old(cpu).wf(),
        m == Mnemonic::LDA || m == Mnemonic::LDX || m == Mnemonic::LDY,
    ensures
        final(cpu).wf(),
        final(cpu)@ == cpu::spec_execute_decoded(old(cpu)@, m, mode),
{
    let v = cpu.operand_value(mode);
    match m {
        Mnemonic::LDA => {
            cpu.a = v;
        },
        Mnemonic::LDX => {
            cpu.x = v;
        },
        _ => {
            cpu.y = v;
        },
    }
    cpu.update_zero_and_negative_flags(v);
}

/// The store instructions: a register goes to the effective address; no flag
/// changes.
fn exec_store(cpu: &mut CPU, m: Mnemonic, mode: AddrMode)
    requires
        old(cpu).wf(),
        m == Mnemonic::STA || m == Mnemonic::STX || m == Mnemonic::STY,
    ensures
        final(cpu).wf(),
        final(cpu)@ == cpu::spec_execute_decoded(old(cpu)@, m, mode),
{
    let addr = cpu.operand_addr(mode);
    let v = match m {
        Mnemonic::STA => cpu.a,
        Mnemonic::STX => cpu.x,
        _ => cpu.y,
    };
    cpu.write(addr, v);
}

/// The accumulator arithmetic and logic instructions.
fn exec_arith(cpu: &mut CPU, m: Mnemonic, mode: AddrMode)
    requires
        old(cpu).wf(),
        m == Mnemonic::ADC || m == Mnemonic::SBC || m == Mnemonic::AND || m == Mnemonic::ORA || m
            == Mnemonic::EOR,
    ensures
        final(cpu).wf(),
        final(cpu)@ == cpu::spec_execute_decoded(old(cpu)@, m, mode),
{
    let v = cpu.operand_value(mode);
    match m {
        Mnemonic::ADC => {
            let cin: u16 = if cpu.get_flag(FLAG_CARRY) {
                1
            } else {
                0
            };
            let sum: u16 = cpu.a as u16 + v as u16 + cin;
            let r: u8 = if sum > 0xFF {
                (sum - 0x100) as u8
            } else {
                sum as u8
            };
            let sa = cpu.a >= 0x80;
            let sv = v >= 0x80;
            let sr = r >= 0x80;
            cpu.set_flag(FLAG_CARRY, sum > 0xFF);
            cpu.set_flag(FLAG_OVERFLOW, sa != sr && sv != sr);
            cpu.a = r;
            cpu.update_zero_and_negative_flags(r);
        },
        Mnemonic::SBC => {
            let borrow: i32 = if cpu.get_flag(FLAG_CARRY) {
                0
            } else {
                1
            };
            let diff: i32 = cpu.a as i32 - v as i32 - borrow;
            let r: u8 = if diff < 0 {
                (diff + 0x100) as u8
            } else {
                diff as u8
            };
            let sa = cpu.a >= 0x80;
            let sv = v >= 0x80;
            let sr = r >= 0x80;
            cpu.set_flag(FLAG_CARRY, diff >= 0);
            cpu.set_flag(FLAG_OVERFLOW, sa != sv && sa != sr);
            cpu.a = r;
            cpu.update_zero_and_negative_flags(r);
        },
        Mnemonic::AND => {
            let r = cpu.a & v;
            cpu.a = r;
            cpu.update_zero_and_negative_flags(r);
        },
        Mnemonic::ORA => {
            let r = cpu.a | v;
            cpu.a = r;
            cpu.update_zero_and_negative_flags(r);
        },
        _ => {
            let r = cpu.a ^ v;
            cpu.a = r;
            cpu.update_zero_and_negative_flags(r);
        },
    }
}

/// The compare instructions: carry, zero and negative from reg - operand.
fn exec_compare(cpu: &mut CPU, m: Mnemonic, mode: AddrMode)
    requires
        old(cpu).wf(),
        m == Mnemonic::CMP || m == Mnemonic::CPX || m == Mnemonic::CPY,
    ensures
        final(cpu).wf(),
        final(cpu)@ == cpu::spec_execute_decoded(old(cpu)@, m, mode),
{
    let v = cpu.operand_value(mode);
    let reg = match m {
        Mnemonic::CMP => cpu.a,
        Mnemonic::CPX => cpu.x,
        _ => cpu.y,
    };
    let r = reg.wrapping_sub(v);
    cpu.set_flag(FLAG_CARRY, reg >= v);
    cpu.update_zero_and_negative_flags(r);
}

/// Increment or decrement a memory byte, with Z and N from the new value.
fn exec_inc_dec(cpu: &mut CPU, m: Mnemonic, mode: AddrMode)
    requires
        old(cpu).wf(),
        m == Mnemonic::INC || m == Mnemonic::DEC,
    ensures
        final(cpu).wf(),
        final(cpu)@ == cpu::spec_execute_decoded(old(cpu)@, m, mode),
{
    let addr = cpu.operand_addr(mode);
    let v = cpu.read(addr);
    let r = match m {
        Mnemonic::INC => v.wrapping_add(1),
        _ => v.wrapping_sub(1),
    };
    cpu.write(addr, r);
    cpu.update_zero_and_negative_flags(r);
}

/// The implied register instructions: transfers and register increments and
/// decrements, with Z and N from the written value.
fn exec_register(cpu: &mut CPU, m: Mnemonic)
    requires
        old(cpu).wf(),
        m == Mnemonic::TAX || m == Mnemonic::TAY || m == Mnemonic::TXA || m == Mnemonic::TYA || m
            == Mnemonic::INX || m == Mnemonic::INY || m == Mnemonic::DEX || m == Mnemonic::DEY,
    ensures
        final(cpu).wf(),
        forall|mode: AddrMode|
            final(cpu)@ == #[trigger] cpu::spec_execute_decoded(old(cpu)@, m, mode),
{
    match m {
        Mnemonic::TAX => {
            let v = cpu.a;
            cpu.x = v;
            cpu.update_zero_and_negative_flags(v);
        },
        Mnemonic::TAY => {
            let v = cpu.a;
            cpu.y = v;
            cpu.update_zero_and_negative_flags(v);
        },
        Mnemonic::TXA => {
            let v = cpu.x;
            cpu.a = v;
            cpu.update_zero_and_negative_flags(v);
        },
        Mnemonic::TYA => {
            let v = cpu.y;
            cpu.a = v;
            cpu.update_zero_and_negative_flags(v);
        },
        Mnemonic::INX => {
            let r = cpu.x.wrapping_add(1);
            cpu.x = r;
            cpu.update_zero_and_negative_flags(r);
        },
        Mnemonic::INY => {
            let r = cpu.y.wrapping_add(1);
            cpu.y = r;
            cpu.update_zero_and_negative_flags(r);
        },
        Mnemonic::DEX => {
            let r = cpu.x.wrapping_sub(1);
            cpu.x = r;
            cpu.update_zero_and_negative_flags(r);
        },
        _ => {
            let r = cpu.y.wrapping_sub(1);
            cpu.y = r;
            cpu.update_zero_and_negative_flags(r);
        },
    }
}

/// JMP, JSR and RTS. JSR pushes the address of its own last byte, high byte
/// first; RTS pops and adds one, landing after the JSR.
fn exec_flow(cpu: &mut CPU, m: Mnemonic, mode: AddrMode)
    requires
        old(cpu).wf(),
        m == Mnemonic::JMP || m == Mnemonic::JSR || m == Mnemonic::RTS,
    ensures
        final(cpu).wf(),
        final(cpu)@ == cpu::spec_execute_decoded(old(cpu)@, m, mode),
{
    match m {
        Mnemonic::JMP => {
            let addr = cpu.operand_addr(mode);
            cpu.pc = addr;
        },
        Mnemonic::JSR => {
            let addr = cpu.operand_addr(mode);
            let ret = cpu.pc.wrapping_sub(1);
            cpu.push((ret / 256) as u8);
            cpu.push((ret % 256) as u8);
            cpu.pc = addr;
        },
        _ => {
            let lo = cpu.pop();
            let hi = cpu.pop();
            cpu.pc = ((hi as u16) * 256 + lo as u16).wrapping_add(1);
        },
    }
}

/// The conditional branches: each tests one flag and moves PC by the signed
/// displacement when it matches.
fn exec_branch(cpu: &mut CPU, m: Mnemonic)
    requires
        old(cpu).wf(),
        m == Mnemonic::BEQ || m == Mnemonic::BNE || m == Mnemonic::BCS || m == Mnemonic::BCC || m
            == Mnemonic::BMI || m == Mnemonic::BPL,
    ensures
        final(cpu).wf(),
        forall|mode: AddrMode|
            final(cpu)@ == #[trigger] cpu::spec_execute_decoded(old(cpu)@, m, mode),
{
    let taken = match m {
        Mnemonic::BEQ => cpu.get_flag(FLAG_ZERO),
        Mnemonic::BNE => !cpu.get_flag(FLAG_ZERO),
        Mnemonic::BCS => cpu.get_flag(FLAG_CARRY),
        Mnemonic::BCC => !cpu.get_flag(FLAG_CARRY),
        Mnemonic::BMI => cpu.get_flag(FLAG_NEGATIVE),
        _ => !cpu.get_flag(FLAG_NEGATIVE),
    };
    branch(cpu, taken);
}

/// NOP, BRK (consumes one padding byte), HLT, DBG and SND.
fn exec_system(cpu: &mut CPU, m: Mnemonic, mode: AddrMode)
    requires
        old(cpu).wf(),
        m == Mnemonic::NOP || m == Mnemonic::BRK || m == Mnemonic::HLT || m == Mnemonic::DBG || m
            == Mnemonic::SND,
    ensures
        final(cpu).wf(),
        final(cpu)@ == cpu::spec_execute_decoded(old(cpu)@, m, mode),
{
    match m {
        Mnemonic::NOP => {},
        Mnemonic::BRK => {
            cpu.fetch();
        },
        Mnemonic::HLT => {
            cpu.halt();
        },
        Mnemonic::DBG => {
            let addr = cpu.operand_addr(mode);
            let value = cpu.read(addr);
            cpu.events.push(CpuEvent::Debug { address: addr, value });
        },
        _ => {
            let payload = cpu.fetch();
            let addr = 0xFC00u16 + payload as u16;
            cpu.write(addr, payload);
        },
    }
}

/// Consumes the displacement byte and, when `taken`, moves PC by it as a
/// signed offset with 16-bit wrap.
fn branch(cpu: &mut CPU, taken: bool)
    requires
        old(cpu).wf(),
    ensures
        final(cpu).wf(),
        final(cpu)@ == cpu::spec_branch(old(cpu)@, taken),
{
    let off = cpu.fetch();
    if taken {
        let delta: u16 = if off < 0x80 {
            off as u16
        } else {
            off as u16 + 0xFF00
        };
        cpu.pc = cpu.pc.wrapping_add(delta);
    }
}

} // verus!
