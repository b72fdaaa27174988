use helios::compiler::compile;
use helios::cpu::{CpuEvent, CPU, FLAG_CARRY, FLAG_NEGATIVE, FLAG_OVERFLOW, FLAG_ZERO};
use helios::memory::Memory;

fn cpu_with(bytes: &[u8]) -> CPU {
    let mut memory = Memory::new();
    memory.load_program(bytes);
    CPU::new(memory)
}

fn run(cpu: &mut CPU) {
    let mut fuel: i32 = 10_000;
    while cpu.step() {
        fuel -= 1;
        if fuel == 0 {
            panic!("program did not halt");
        }
    }
}

fn assemble_and_run(source: &str) -> CPU {
    let bytes = compile(source).expect("assembly failed");
    let mut cpu = cpu_with(&bytes);
    run(&mut cpu);
    cpu
}

#[test]
fn lda_ff_sets_negative() {
    let cpu = assemble_and_run("LDA #$FF\nHLT\n");
    assert_eq!(cpu.a, 0xFF);
    assert!(cpu.n);
    assert!(!cpu.z);
}

#[test]
fn lda_00_sets_zero() {
    let cpu = assemble_and_run("LDA #$00\nHLT\n");
    assert_eq!(cpu.a, 0x00);
    assert!(cpu.z);
    assert!(!cpu.n);
}

#[test]
fn adc_signed_overflow() {
    // 0x7F + 0x01 with carry clear overflows into the sign bit
    let cpu = assemble_and_run("LDA #$7F\nADC #$01\nHLT\n");
    assert_eq!(cpu.a, 0x80);
    assert!(cpu.v);
    assert!(cpu.n);
    assert!(!cpu.c);
}

#[test]
fn adc_carry_out() {
    let cpu = assemble_and_run("LDA #$FF\nADC #$01\nHLT\n");
    assert_eq!(cpu.a, 0x00);
    assert!(cpu.c);
    assert!(cpu.z);
}

#[test]
fn sbc_borrow() {
    // with carry clear, SBC takes an extra borrow: 5 - 3 - 1 = 1, no borrow out
    let cpu = assemble_and_run("LDA #$05\nSBC #$03\nHLT\n");
    assert_eq!(cpu.a, 0x01);
    assert!(cpu.c);
}

#[test]
fn stack_pointer_wraps_both_ways() {
    let mut cpu = cpu_with(&[0xFF]);
    cpu.sp = 0;
    cpu.push(0xAB);
    assert_eq!(cpu.sp, 0xFF);
    cpu.sp = 0xFF;
    let _ = cpu.pop();
    assert_eq!(cpu.sp, 0x00);
}

#[test]
fn store_program_end_state() {
    let mut cpu = assemble_and_run("LDA #$42\nSTA $80\nHLT\n");
    assert_eq!(cpu.read(0x0080), 0x42);
    assert_eq!(cpu.a, 0x42);
    assert!(cpu.halted);
}

#[test]
fn countdown_loop_end_state() {
    let cpu = assemble_and_run("LDX #$03\nloop: DEX\nBNE loop\nHLT\n");
    assert_eq!(cpu.x, 0x00);
    assert!(cpu.z);
    assert!(cpu.halted);
}

#[test]
fn subroutine_end_state() {
    let cpu = assemble_and_run("JSR sub\nHLT\nsub: LDA #$01\nRTS\n");
    assert_eq!(cpu.a, 0x01);
    assert_eq!(cpu.sp, 0xFF);
    assert!(cpu.halted);
    // the HLT at 0x0003 was the last opcode fetched
    assert_eq!(cpu.pc, 0x0004);
}

#[test]
fn forward_branch_end_state() {
    let cpu = assemble_and_run("BEQ end\nNOP\nend: HLT\n");
    assert!(cpu.halted);
    assert_eq!(cpu.pc, 0x0004);
}

#[test]
fn snd_writes_audio_register() {
    let mut cpu = assemble_and_run("SND $C3\nHLT\n");
    assert_eq!(cpu.read(0xFCC3), 0xC3);
    let audio = cpu.memory.get_audio_buffer();
    assert_eq!(audio[0xC3], 0xC3);
}

#[test]
fn dbg_records_a_diagnostic() {
    let mut cpu = assemble_and_run("LDA #$42\nSTA $80\nDBG $80\nHLT\n");
    assert_eq!(cpu.events, vec![CpuEvent::Debug { address: 0x0080, value: 0x42 }]);
    assert_eq!(cpu.read(0x0080), 0x42);
}

#[test]
fn unknown_opcode_halts_with_a_diagnostic() {
    let mut cpu = cpu_with(&[0x02]);
    assert!(!cpu.step());
    assert!(cpu.halted);
    assert_eq!(cpu.events, vec![CpuEvent::UnknownOpcode { opcode: 0x02, address: 0x0000 }]);
    // a halted machine does nothing
    let pc: u16 = cpu.pc;
    assert!(!cpu.step());
    assert_eq!(cpu.pc, pc);
    assert_eq!(cpu.cycles, 1);
}

#[test]
fn brk_skips_its_padding_byte() {
    let mut cpu = cpu_with(&[0x00, 0x00, 0xFF]);
    run(&mut cpu);
    assert!(cpu.halted);
    assert_eq!(cpu.cycles, 2);
    assert_eq!(cpu.pc, 0x0003);
}

#[test]
fn transfers_update_flags() {
    let cpu = assemble_and_run("LDA #$80\nTAX\nHLT\n");
    assert_eq!(cpu.x, 0x80);
    assert!(cpu.n);
    assert!(!cpu.z);
}

#[test]
fn register_increment_wraps() {
    let cpu = assemble_and_run("LDX #$FF\nINX\nHLT\n");
    assert_eq!(cpu.x, 0x00);
    assert!(cpu.z);
}

#[test]
fn compare_sets_carry_and_flags() {
    let cpu = assemble_and_run("LDA #$05\nCMP #$03\nHLT\n");
    assert!(cpu.c);
    assert!(!cpu.z);
    assert!(!cpu.n);
    assert_eq!(cpu.a, 0x05);
}

#[test]
fn memory_increment_and_flags() {
    let mut cpu = assemble_and_run("INC $10\nDEC $20\nHLT\n");
    assert_eq!(cpu.read(0x0010), 0x01);
    assert_eq!(cpu.read(0x0020), 0xFF);
    assert!(cpu.n);
}

#[test]
fn indexed_and_indirect_loads() {
    // set a pointer at $10/$11 to $0080, store a value there, read it back
    // through ($0E,X) with X = 2
    let src = "LDA #$80\nSTA $10\nLDA #$00\nSTA $11\nLDA #$77\nSTA $80\nLDX #$02\nLDA ($0E,X)\nHLT\n";
    let cpu = assemble_and_run(src);
    assert_eq!(cpu.a, 0x77);
}

#[test]
fn flag_mask_accessors() {
    let mut cpu = cpu_with(&[0xFF]);
    cpu.set_flag(FLAG_ZERO, true);
    cpu.set_flag(FLAG_CARRY, true);
    assert!(cpu.get_flag(FLAG_ZERO));
    assert!(cpu.get_flag(FLAG_CARRY));
    assert!(!cpu.get_flag(FLAG_NEGATIVE));
    assert!(!cpu.get_flag(FLAG_OVERFLOW));
    cpu.set_flag(FLAG_ZERO, false);
    assert!(!cpu.get_flag(FLAG_ZERO));
}

#[test]
fn reset_restores_power_on_state() {
    let mut cpu = assemble_and_run("LDA #$42\nSTA $80\nHLT\n");
    cpu.reset();
    assert_eq!(cpu.a, 0);
    assert_eq!(cpu.pc, 0);
    assert_eq!(cpu.sp, 0xFF);
    assert_eq!(cpu.cycles, 0);
    assert!(!cpu.halted);
    // memory is kept across a reset
    assert_eq!(cpu.read(0x0080), 0x42);
}

#[test]
fn cycle_counter_charges_one_per_instruction() {
    let cpu = assemble_and_run("NOP\nNOP\nNOP\nHLT\n");
    assert_eq!(cpu.cycles, 4);
}
