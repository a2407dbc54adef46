use tango::mgba::machine::nul_terminated;
use tango::mgba::arm_core::ARMCore;
use tango::mgba::machine::{Core, Memory};
use tango::mgba::trapper::Trapper;

#[test]
fn memory_reads_zero_where_nothing_was_written() {
    let m = Memory::new();
    assert_eq!(m.read_8(0x0200_0000), 0);
    assert_eq!(m.read_16(0x0200_0000), 0);
    assert_eq!(m.read_32(0x0200_0000), 0);
}

#[test]
fn halfword_and_word_are_little_endian() {
    let mut m = Memory::new();
    m.write_16(0x100, 0xbeef);
    assert_eq!(m.read_8(0x100), 0xef);
    assert_eq!(m.read_8(0x101), 0xbe);
    assert_eq!(m.read_16(0x100), 0xbeef);
    m.write_32(0x200, 0x1234_5678);
    assert_eq!(m.read_8(0x200), 0x78);
    assert_eq!(m.read_8(0x203), 0x12);
    assert_eq!(m.read_32(0x200), 0x1234_5678);
    assert_eq!(m.read_16(0x202), 0x1234);
}

#[test]
fn halfword_wraps_at_top_of_address_space() {
    let mut m = Memory::new();
    m.write_16(0xffff_ffff, 0xabcd);
    assert_eq!(m.read_8(0xffff_ffff), 0xcd);
    assert_eq!(m.read_8(0), 0xab);
    assert_eq!(m.read_16(0xffff_ffff), 0xabcd);
}

#[test]
fn write_range_reads_back() {
    let mut core = Core::new_gba();
    let buf: Vec<u8> = (0..=255u8).collect();
    core.raw_write_range(0x0203_0000, -1, &buf);
    assert_eq!(core.raw_read_range(0x0203_0000, -1, 256), buf);
    assert_eq!(core.raw_read_8(0x0203_0000 + 256, -1), 0);
    assert_eq!(core.raw_read_16(0x0203_0010, -1), 0x1110);
    assert_eq!(core.raw_read_32(0x0203_0020, -1), 0x2322_2120);
}

#[test]
fn keys_are_kept() {
    let mut core = Core::new_gba();
    assert_eq!(core.keys(), 0);
    core.set_keys(0x3ff);
    assert_eq!(core.keys(), 0x3ff);
}

#[test]
fn set_pc_refills_thumb_pipeline() {
    let mut m = Memory::new();
    m.write_16(0x0800_1000, 0x1111);
    m.write_16(0x0800_1002, 0x2222);
    let mut cpu = ARMCore::new();
    cpu.set_pc(&m, 0x0800_1001);
    assert_eq!(cpu.gpr(15), 0x0800_1002);
    cpu.set_gpr(3, -7);
    assert_eq!(cpu.gpr(3), -7);
}

#[test]
fn thumb_write_pc_aligns_down() {
    let mut m = Memory::new();
    m.write_16(0x0800_0100, 0xaaaa);
    m.write_16(0x0800_0102, 0xbbbb);
    let mut cpu = ARMCore::new();
    cpu.set_gpr(15, 0x0800_0101);
    cpu.thumb_write_pc(&m);
    assert_eq!(cpu.gpr(15), 0x0800_0102);
}

#[test]
fn trap_replaces_instruction_and_fires() {
    let mut core = Core::new_gba();
    core.raw_write_16(0x0800_0200, -1, 0x4770);
    let mut trapper: Trapper<u32> = Trapper::new();
    trapper.add(&mut core, 0x0800_0200, 7);
    assert_eq!(core.raw_read_16(0x0800_0200, -1), 0xbeef);
    let t = trapper.trap_for(0xef, 0x0800_0204).expect("trap");
    assert_eq!(t.original, 0x4770);
    assert_eq!(t.handler, 7);
    assert!(trapper.trap_for(0xee, 0x0800_0204).is_none());
    assert!(trapper.trap_for(0xef, 0x0800_0208).is_none());
}

#[test]
fn title_stops_at_nul() {
    assert_eq!(nul_terminated(b"MEGAMAN6_FXX\0\0\0\0"), b"MEGAMAN6_FXX".to_vec());
    assert_eq!(nul_terminated(b"ABCD"), b"ABCD".to_vec());
    assert_eq!(nul_terminated(b"\0AB"), Vec::<u8>::new());
    assert_eq!(nul_terminated(b""), Vec::<u8>::new());
}
