use helios::memory::{Memory, AUDIO_START, DISPLAY_SIZE, DISPLAY_START, MEMORY_SIZE, ROM_SIZE};

#[test]
fn fresh_memory_is_zero() {
    let m = Memory::new();
    assert_eq!(m.read(0x0000), 0);
    assert_eq!(m.read(0x8000), 0);
    assert_eq!(m.read(0xFFFF), 0);
}

#[test]
fn write_then_read_round_trips() {
    let mut m = Memory::new();
    m.write(0x1234, 0xAB);
    m.write(0xFFFF, 0x01);
    assert_eq!(m.read(0x1234), 0xAB);
    assert_eq!(m.read(0xFFFF), 0x01);
    assert_eq!(m.read(0x1235), 0x00);
}

#[test]
fn load_program_truncates_at_rom_size() {
    let mut m = Memory::new();
    let program = vec![0xAB; ROM_SIZE + 128];
    m.load_program(&program);
    assert_eq!(m.read(0), 0xAB);
    assert_eq!(m.read((ROM_SIZE - 1) as u16), 0xAB);
    // bytes past the ROM boundary are discarded silently
    assert_eq!(m.read(ROM_SIZE as u16), 0x00);
}

#[test]
fn display_snapshot_sees_writes() {
    let mut m = Memory::new();
    m.write(DISPLAY_START as u16, 0x05);
    m.write((DISPLAY_START + DISPLAY_SIZE - 1) as u16, 0x07);
    let d = m.get_display_buffer();
    assert_eq!(d.len(), DISPLAY_SIZE);
    assert_eq!(d[0], 0x05);
    assert_eq!(d[DISPLAY_SIZE - 1], 0x07);
}

#[test]
fn swap_keeps_reads_on_the_primary_store() {
    let mut m = Memory::new();
    m.write(DISPLAY_START as u16, 0x03);
    m.swap_display_buffer();
    assert_eq!(m.read(DISPLAY_START as u16), 0x03);
    assert_eq!(m.get_display_buffer()[0], 0x03);
}

#[test]
fn audio_snapshot_sees_writes() {
    let mut m = Memory::new();
    m.write((AUDIO_START + 0xC3) as u16, 0xC3);
    let a = m.get_audio_buffer();
    assert_eq!(a.len(), 0x100);
    assert_eq!(a[0xC3], 0xC3);
}

#[test]
fn the_whole_address_space_is_writable() {
    let mut m = Memory::new();
    m.write((MEMORY_SIZE - 1) as u16, 0x55);
    assert_eq!(m.read(0xFFFF), 0x55);
}
