//! Tests of the memory devices, the bus routing, and loads and stores made
//! through the CPU's address translation.

use mips_sim::bus::{Bus, Device, PHY_BOOT_ROM_BASE};
use mips_sim::cpu::Cpu;
use mips_sim::memory::{Dram, Memory, Rom, BOOT_ROM_SIZE, MEMORY_SIZE};

#[test]
fn dram_roundtrip_all_widths() {
    let mut d = Dram::new(vec![], 64);
    d.store32(0, 0xaabb_ccdd);
    assert_eq!(d.load32(0), 0xaabb_ccdd);
    d.store16(8, 0x0001_beef);
    assert_eq!(d.load16(8), 0xbeef);
    d.store8(12, 0x1_23);
    assert_eq!(d.load8(12), 0x23);
}

#[test]
fn dram_is_little_endian() {
    let mut d = Dram::new(vec![], 16);
    d.store32(0, 0xaabb_ccdd);
    assert_eq!(d.load8(0), 0xdd);
    assert_eq!(d.load8(1), 0xcc);
    assert_eq!(d.load8(2), 0xbb);
    assert_eq!(d.load8(3), 0xaa);
    assert_eq!(d.load16(0), 0xccdd);
    assert_eq!(d.load16(2), 0xaabb);
}

#[test]
fn dram_new_pads_image_with_zeros() {
    let d = Dram::new(vec![1, 2, 3], 8);
    assert_eq!(d.load8(0), 1);
    assert_eq!(d.load8(1), 2);
    assert_eq!(d.load8(2), 3);
    assert_eq!(d.load8(3), 0);
    assert_eq!(d.load8(7), 0);
}

#[test]
fn rom_discards_stores() {
    let mut r = Rom::new(vec![0x11, 0x22, 0x33, 0x44], 8);
    r.store8(0, 0x99);
    r.store16(0, 0x9999);
    r.store32(0, 0x9999_9999);
    assert_eq!(r.load32(0), 0x4433_2211);
    assert_eq!(r.load16(0), 0x2211);
    assert_eq!(r.load8(0), 0x11);
}

#[test]
fn device_rejects_unsupported_width() {
    let mut d = Dram::new(vec![], 16);
    assert_eq!(d.load(0, 7), Err(()));
    assert_eq!(d.store(0, 24, 1), Err(()));
    assert_eq!(d.load(0, 8), Ok(0));
}

#[test]
fn bus_routes_rom_window_and_dram() {
    let mut bus = Bus::new(vec![0xef, 0xbe, 0xad, 0xde]);
    // The ROM window reads the boot image.
    assert_eq!(bus.load(PHY_BOOT_ROM_BASE, 32), Ok(0xdead_beef));
    // A ROM store is accepted and discarded.
    assert_eq!(bus.store(PHY_BOOT_ROM_BASE, 32, 0x1234_5678), Ok(()));
    assert_eq!(bus.load(PHY_BOOT_ROM_BASE, 32), Ok(0xdead_beef));
    // DRAM starts zeroed and stores stick.
    assert_eq!(bus.load(0x1000, 32), Ok(0));
    assert_eq!(bus.store(0x1000, 32, 0x0102_0304), Ok(()));
    assert_eq!(bus.load(0x1000, 32), Ok(0x0102_0304));
}

#[test]
fn bus_rejects_out_of_range_and_bad_width() {
    let mut bus = Bus::new(vec![]);
    // Between the end of DRAM and the ROM window nothing is mapped.
    assert_eq!(bus.load(MEMORY_SIZE, 8), Err(()));
    assert_eq!(bus.store(0x1000_0000, 32, 1), Err(()));
    // Above the ROM window nothing is mapped either.
    assert_eq!(bus.load(PHY_BOOT_ROM_BASE + BOOT_ROM_SIZE, 8), Err(()));
    // An access must lie whole inside its device.
    assert_eq!(bus.load(MEMORY_SIZE - 2, 32), Err(()));
    assert_eq!(bus.load(PHY_BOOT_ROM_BASE + BOOT_ROM_SIZE - 2, 32), Err(()));
    // An unsupported width is an error wherever it lands.
    assert_eq!(bus.load(0, 12), Err(()));
    assert_eq!(bus.store(0, 0, 5), Err(()));
    // The very last DRAM word is reachable.
    assert_eq!(bus.store(MEMORY_SIZE - 4, 32, 0xff00_ff00), Ok(()));
    assert_eq!(bus.load(MEMORY_SIZE - 4, 32), Ok(0xff00_ff00));
}

#[test]
fn cpu_translates_kseg0_and_kseg1() {
    let mut cpu = Cpu::new(vec![0x78, 0x56, 0x34, 0x12]);
    // KSEG1 mirror of the boot ROM.
    assert_eq!(cpu.load(0xbfc0_0000, 32), Ok(0x1234_5678));
    // KSEG0 mirror of the same physical address.
    assert_eq!(cpu.load(0x9fc0_0000, 32), Ok(0x1234_5678));
    assert_eq!(cpu.mmu(0x8000_1000), 0x1000);
    assert_eq!(cpu.mmu(0xa000_1000), 0x1000);
    // KUSEG and KSEG2 have no paging model and translate to physical 0.
    assert_eq!(cpu.mmu(0x0000_1000), 0);
    assert_eq!(cpu.mmu(0xc000_1000), 0);
}

#[test]
fn cpu_store_then_load_through_kseg0() {
    let mut cpu = Cpu::new(vec![]);
    assert_eq!(cpu.store(0x8000_2000, 32, 0xaabb_ccdd), Ok(()));
    assert_eq!(cpu.load(0x8000_2000, 32), Ok(0xaabb_ccdd));
    // lb semantics live in execute; the raw 8-bit load is zero-extended.
    assert_eq!(cpu.load(0x8000_2000, 8), Ok(0xdd));
    assert_eq!(cpu.load(0x8000_2003, 8), Ok(0xaa));
    // A 16-bit store writes only the low half.
    assert_eq!(cpu.store(0x8000_2004, 16, 0x1234_5678), Ok(()));
    assert_eq!(cpu.load(0x8000_2004, 32), Ok(0x0000_5678));
}

#[test]
fn sw_lw_lb_through_a_program() {
    // Store 0xaabbccdd at KSEG0 0x80001000, read it back as a word and as
    // sign-extended bytes.
    let words: [u32; 12] = [
        (0x0f << 26) | (8 << 16) | 0xaabb,  // lui $t0, 0xaabb
        (0x0d << 26) | (8 << 21) | (8 << 16) | 0xccdd,  // ori $t0, $t0, 0xccdd
        (0x0f << 26) | (9 << 16) | 0x8000,  // lui $t1, 0x8000
        (0x0d << 26) | (9 << 21) | (9 << 16) | 0x1000,  // ori $t1, $t1, 0x1000
        (0x2b << 26) | (9 << 21) | (8 << 16),  // sw $t0, 0($t1)
        (0x23 << 26) | (9 << 21) | (10 << 16),  // lw $t2, 0($t1)
        (0x20 << 26) | (9 << 21) | (11 << 16),  // lb $t3, 0($t1)
        (0x20 << 26) | (9 << 21) | (12 << 16) | 1,  // lb $t4, 1($t1)
        (0x20 << 26) | (9 << 21) | (13 << 16) | 2,  // lb $t5, 2($t1)
        (0x20 << 26) | (9 << 21) | (14 << 16) | 3,  // lb $t6, 3($t1)
        (0x28 << 26) | (9 << 21) | (8 << 16) | 8,  // sb $t0, 8($t1)
        0xffff_ffff,
    ];
    let mut bytes = Vec::new();
    for w in words.iter() {
        bytes.extend_from_slice(&w.to_le_bytes());
    }
    let mut cpu = Cpu::new(bytes);
    for _ in 0..16 {
        let inst = match cpu.fetch() {
            Ok(inst) => inst,
            Err(_) => break,
        };
        cpu.pc = cpu.pc.wrapping_add(4);
        if cpu.execute(inst).is_err() {
            break;
        }
    }
    assert_eq!(cpu.regs[10], 0xaabb_ccdd);
    // lb sign-extends each byte.
    assert_eq!(cpu.regs[11], 0xffff_ffdd);
    assert_eq!(cpu.regs[12], 0xffff_ffcc);
    assert_eq!(cpu.regs[13], 0xffff_ffbb);
    assert_eq!(cpu.regs[14], 0xffff_ffaa);
    // sb stored only the low byte.
    assert_eq!(cpu.load(0x8000_1008, 32), Ok(0x0000_00dd));
}

#[test]
fn sw_to_rom_is_a_noop_through_a_program() {
    // Write over the ROM's first word, then read it back: the pre-existing
    // instruction bytes are still there.
    let words: [u32; 6] = [
        (0x0f << 26) | (9 << 16) | 0xbfc0,  // lui $t1, 0xbfc0 (ROM via KSEG1)
        (0x0d << 26) | (8 << 21) | (8 << 16) | 0x1234,  // ori $t0, $t0, 0x1234
        (0x2b << 26) | (9 << 21) | (8 << 16),  // sw $t0, 0($t1)
        (0x23 << 26) | (9 << 21) | (10 << 16),  // lw $t2, 0($t1)
        0xffff_ffff,
        0,
    ];
    let mut bytes = Vec::new();
    for w in words.iter() {
        bytes.extend_from_slice(&w.to_le_bytes());
    }
    let mut cpu = Cpu::new(bytes);
    for _ in 0..8 {
        let inst = match cpu.fetch() {
            Ok(inst) => inst,
            Err(_) => break,
        };
        cpu.pc = cpu.pc.wrapping_add(4);
        if cpu.execute(inst).is_err() {
            break;
        }
    }
    // The lw returned the ROM's first instruction word, not the stored value.
    assert_eq!(cpu.regs[10], (0x0f << 26) | (9 << 16) | 0xbfc0);
}

#[test]
fn fetch_fails_outside_mapped_memory() {
    let mut cpu = Cpu::new(vec![]);
    // KSEG0 address translating past DRAM and outside the ROM window.
    cpu.pc = 0x9000_0000;
    assert_eq!(cpu.fetch(), Err(()));
}
