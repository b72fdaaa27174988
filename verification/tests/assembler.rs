use helios::compiler::{
    compile, get_instruction_size, parse_and_push_value, parse_value, AsmErrorKind,
};
use helios::isa::{disassemble, encode_instruction, AddrMode, Instruction, Mnemonic};

fn ok(source: &str) -> Vec<u8> {
    match compile(source) {
        Ok(b) => b,
        Err(e) => panic!("assembly failed at line {}: {:?}", e.line, e.kind),
    }
}

fn err(source: &str) -> helios::compiler::AsmError {
    match compile(source) {
        Ok(b) => panic!("assembly unexpectedly succeeded: {:?}", b),
        Err(e) => e,
    }
}

#[test]
fn store_program_bytes() {
    assert_eq!(ok("LDA #$42\nSTA $80\nHLT\n"), vec![0xA9, 0x42, 0x85, 0x80, 0xFF]);
}

#[test]
fn countdown_loop_bytes() {
    assert_eq!(
        ok("LDX #$03\nloop: DEX\nBNE loop\nHLT\n"),
        vec![0xA2, 0x03, 0xCA, 0xD0, 0xFD, 0xFF]
    );
}

#[test]
fn subroutine_bytes() {
    assert_eq!(
        ok("JSR sub\nHLT\nsub: LDA #$01\nRTS\n"),
        vec![0x20, 0x04, 0x00, 0xFF, 0xA9, 0x01, 0x60]
    );
}

#[test]
fn forward_reference_bytes() {
    assert_eq!(ok("BEQ end\nNOP\nend: HLT\n"), vec![0xF0, 0x01, 0xEA, 0xFF]);
}

#[test]
fn snd_missing_operand_is_line_two() {
    let e = err("LDA #$C3\nSND\nHLT\n");
    assert_eq!(e.line, 2);
    assert_eq!(e.kind, AsmErrorKind::MissingOperand);
}

#[test]
fn snd_immediate_is_rejected() {
    let e = err("SND #$C3\n");
    assert_eq!(e.line, 1);
    assert_eq!(e.kind, AsmErrorKind::IllegalAddressing);
}

#[test]
fn snd_valid_form() {
    assert_eq!(ok("SND $C3\n"), vec![0x42, 0xC3]);
}

#[test]
fn branch_plus_127_encodes() {
    // the branch sits at address 0, so $81 is a displacement of +127
    assert_eq!(ok("BEQ $81\nHLT\n"), vec![0xF0, 0x7F, 0xFF]);
}

#[test]
fn branch_plus_128_is_rejected() {
    let e = err("BEQ $82\nHLT\n");
    assert_eq!(e.line, 1);
    assert_eq!(e.kind, AsmErrorKind::BranchOutOfRange);
}

#[test]
fn branch_minus_128_encodes() {
    // 126 one-byte instructions, then a branch back to address 0: -128
    let mut src = String::new();
    for _ in 0..126 {
        src.push_str("NOP\n");
    }
    src.push_str("BNE $00\n");
    let b = ok(&src);
    assert_eq!(b.len(), 128);
    assert_eq!(&b[126..], &[0xD0, 0x80]);
}

#[test]
fn branch_minus_129_is_rejected() {
    let mut src = String::new();
    for _ in 0..127 {
        src.push_str("NOP\n");
    }
    src.push_str("BNE $00\n");
    let e = err(&src);
    assert_eq!(e.line, 128);
    assert_eq!(e.kind, AsmErrorKind::BranchOutOfRange);
}

#[test]
fn forward_branch_out_of_range_is_rejected() {
    // the label table is complete before pass two, so even a forward
    // target's displacement is range-checked
    let mut src = String::from("BEQ far\n");
    for _ in 0..130 {
        src.push_str("NOP\n");
    }
    src.push_str("far: HLT\n");
    let e = err(&src);
    assert_eq!(e.kind, AsmErrorKind::BranchOutOfRange);
}

#[test]
fn zero_page_is_decided_by_textual_width() {
    // $FF and $00FF name the same number but keep distinct encodings
    assert_eq!(ok("LDA $FF\n"), vec![0xA5, 0xFF]);
    assert_eq!(ok("LDA $00FF\n"), vec![0xAD, 0xFF, 0x00]);
    assert_eq!(ok("LDA 255\n"), vec![0xA5, 0xFF]);
    assert_eq!(ok("LDA 256\n"), vec![0xAD, 0x00, 0x01]);
    assert_eq!(ok("LDA %11111111\n"), vec![0xA5, 0xFF]);
}

#[test]
fn indexed_modes_encode() {
    assert_eq!(ok("LDA $10,X\n"), vec![0xB5, 0x10]);
    assert_eq!(ok("LDA $1234,X\n"), vec![0xBD, 0x34, 0x12]);
    assert_eq!(ok("LDA $10,Y\n"), vec![0xB9, 0x10, 0x00]);
    assert_eq!(ok("LDX $10,Y\n"), vec![0xB6, 0x10]);
    assert_eq!(ok("STY $12,X\n"), vec![0x94, 0x12]);
    assert_eq!(ok("STA $1234,Y\n"), vec![0x99, 0x34, 0x12]);
}

#[test]
fn indirect_modes_encode() {
    assert_eq!(ok("LDA ($10,X)\n"), vec![0xA1, 0x10]);
    assert_eq!(ok("STA ($20),Y\n"), vec![0x91, 0x20]);
    assert_eq!(ok("ADC ($30),Y\n"), vec![0x71, 0x30]);
}

#[test]
fn illegal_addressing_is_rejected() {
    assert_eq!(err("STA #$10\n").kind, AsmErrorKind::IllegalAddressing);
    assert_eq!(err("INC #$10\n").kind, AsmErrorKind::IllegalAddressing);
    assert_eq!(err("STX $1234,Y\n").kind, AsmErrorKind::IllegalAddressing);
    assert_eq!(err("STY $1234,X\n").kind, AsmErrorKind::IllegalAddressing);
    assert_eq!(err("LDX $10,X\n").kind, AsmErrorKind::IllegalAddressing);
    assert_eq!(err("LDY $10,Y\n").kind, AsmErrorKind::IllegalAddressing);
    // the debug opcode owns the slot DEC absolute,X would have used
    assert_eq!(err("DEC $1234,X\n").kind, AsmErrorKind::IllegalAddressing);
}

#[test]
fn unknown_mnemonic_is_rejected() {
    let e = err("NOP\nFOO $10\n");
    assert_eq!(e.line, 2);
    assert_eq!(e.kind, AsmErrorKind::UnknownMnemonic);
}

#[test]
fn missing_operand_is_rejected() {
    let e = err("LDA\n");
    assert_eq!(e.line, 1);
    assert_eq!(e.kind, AsmErrorKind::MissingOperand);
}

#[test]
fn malformed_literals_are_rejected() {
    assert_eq!(err("LDA #$GG\n").kind, AsmErrorKind::MalformedOperand);
    assert_eq!(err("LDA $12345\n").kind, AsmErrorKind::MalformedOperand);
    assert_eq!(err("LDA %12\n").kind, AsmErrorKind::MalformedOperand);
    assert_eq!(err("LDA 12a\n").kind, AsmErrorKind::MalformedOperand);
}

#[test]
fn immediate_out_of_range_is_rejected() {
    let e = err("LDA #$1FF\n");
    assert_eq!(e.kind, AsmErrorKind::ValueOutOfRange);
}

#[test]
fn undefined_label_is_named() {
    let e = err("JMP nowhere\nHLT\n");
    assert_eq!(e.kind, AsmErrorKind::UndefinedLabel);
    assert_eq!(e.label, b"nowhere".to_vec());
    assert_eq!(e.line, 1);
}

#[test]
fn comments_directives_and_case() {
    assert_eq!(ok("; a comment\n.org 0\nlda #$01\nHLT ; trailing\n"), vec![0xA9, 0x01, 0xFF]);
}

#[test]
fn labels_are_case_sensitive() {
    let e = err("JMP Loop\nloop: HLT\n");
    assert_eq!(e.kind, AsmErrorKind::UndefinedLabel);
    assert_eq!(e.label, b"Loop".to_vec());
}

#[test]
fn dbg_always_takes_two_operand_bytes() {
    assert_eq!(ok("DBG $1234\n"), vec![0xDE, 0x34, 0x12]);
    assert_eq!(ok("DBG $10\n"), vec![0xDE, 0x10, 0x00]);
}

#[test]
fn jmp_and_jsr_are_always_absolute() {
    assert_eq!(ok("JMP $10\n"), vec![0x4C, 0x10, 0x00]);
    assert_eq!(ok("JSR $FCAB\n"), vec![0x20, 0xAB, 0xFC]);
}

#[test]
fn later_label_definition_wins() {
    let b = ok("JMP dst\ndst: NOP\ndst: HLT\n");
    assert_eq!(b, vec![0x4C, 0x04, 0x00, 0xEA, 0xFF]);
}

#[test]
fn parse_value_bases() {
    assert_eq!(parse_value("$FF", 1), Ok(255));
    assert_eq!(parse_value("%1010", 1), Ok(10));
    assert_eq!(parse_value("123", 1), Ok(123));
    assert_eq!(parse_value("$ffff", 1), Ok(0xFFFF));
    let e = parse_value("$GG", 7).unwrap_err();
    assert_eq!(e.line, 7);
    assert_eq!(e.kind, AsmErrorKind::MalformedOperand);
}

#[test]
fn parse_and_push_value_widths() {
    let mut b = Vec::new();
    parse_and_push_value(&mut b, "$12", 1, 1).unwrap();
    parse_and_push_value(&mut b, "$1234", 2, 1).unwrap();
    assert_eq!(b, vec![0x12, 0x34, 0x12]);
    let e = parse_and_push_value(&mut b, "$100", 1, 3).unwrap_err();
    assert_eq!(e.kind, AsmErrorKind::ValueOutOfRange);
    assert_eq!(b, vec![0x12, 0x34, 0x12]);
}

#[test]
fn instruction_sizes() {
    assert_eq!(get_instruction_size("LDA", "#$10"), Ok(2));
    assert_eq!(get_instruction_size("LDA", "$1234"), Ok(3));
    assert_eq!(get_instruction_size("lda", "$10,Y"), Ok(3));
    assert_eq!(get_instruction_size("NOP", ""), Ok(1));
    assert_eq!(get_instruction_size("DBG", "$10"), Ok(3));
    assert_eq!(get_instruction_size("SND", "$C3"), Ok(2));
    assert_eq!(get_instruction_size("FOO", "$10"), Err(AsmErrorKind::UnknownMnemonic));
}

#[test]
fn assembled_output_disassembles_canonically() {
    let b = ok("LDA #$42\nSTA $80\nHLT\n");
    let instrs = disassemble(&b).expect("decodable");
    assert_eq!(
        instrs,
        vec![
            Instruction { m: Mnemonic::LDA, mode: AddrMode::Immediate, operand: 0x42 },
            Instruction { m: Mnemonic::STA, mode: AddrMode::ZeroPage, operand: 0x80 },
            Instruction { m: Mnemonic::HLT, mode: AddrMode::Implied, operand: 0 },
        ]
    );
    // encoding those instructions again gives back the same bytes
    let mut again = Vec::new();
    for i in &instrs {
        again.extend(encode_instruction(i).expect("encodable"));
    }
    assert_eq!(again, b);
}

#[test]
fn truncated_stream_does_not_disassemble() {
    assert_eq!(disassemble(&vec![0xA9]), None);
    assert_eq!(disassemble(&vec![0x02]), None);
}

#[test]
fn canonical_source_round_trips() {
    // assemble, disassemble to canonical text, and assemble again:
    // the bytes are reproduced exactly
    let sources = [
        "LDA #$42\nSTA $80\nHLT\n",
        "LDX #$03\nloop: DEX\nBNE loop\nHLT\n",
        "JSR sub\nHLT\nsub: LDA #$01\nRTS\n",
        "BEQ end\nNOP\nend: HLT\n",
        "SND $C3\nDBG $1234\nLDA ($10,X)\nSTA ($20),Y\nINC $0040,X\nHLT\n",
    ];
    for src in sources {
        let bytes = ok(src);
        let text = helios::compiler::disassemble_source(&bytes).expect("decodable");
        let text = String::from_utf8(text).expect("ascii");
        let again = ok(&text);
        assert_eq!(again, bytes, "canonical text {:?} of {:?}", text, src);
    }
}

#[test]
fn canonical_text_of_a_simple_program() {
    let bytes = ok("LDA #$42\nSTA $80\nHLT\n");
    let text = helios::compiler::disassemble_source(&bytes).expect("decodable");
    assert_eq!(String::from_utf8(text).unwrap(), "LDA #$42\nSTA $80\nHLT\n");
}

#[test]
fn no_placeholder_bytes_when_labels_are_defined() {
    // a forward jump resolves straight from the pass-one table: the operand
    // holds the real address, not placeholder zeros
    let b = ok("JMP end\nNOP\nend: HLT\n");
    assert_eq!(b, vec![0x4C, 0x04, 0x00, 0xEA, 0xFF]);
}
