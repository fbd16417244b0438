//! The system bus.
//!
//! The bus owns the DRAM and the boot ROM and routes each physical address
//! to the device whose range contains it: the boot ROM window starts at
//! `PHY_BOOT_ROM_BASE`, everything below `MEMORY_SIZE` is DRAM, and any
//! other address is an error. The routing functions `bus_load` and
//! `bus_store` state the whole behavior over a `BusView`.

use vstd::prelude::*;

verus! {

use crate::memory::{
    access_bytes,
    padded_image,
    sized_load,
    sized_store,
    valid_size,
    Dram,
    Rom,
    BOOT_ROM_SIZE,
    MEMORY_SIZE,
};

/// Physical base address of the boot ROM window.
pub const PHY_BOOT_ROM_BASE: u32 = 0x1fc0_0000;

/// A device the bus can route an access to: sized loads and stores that
/// reject any width other than 8, 16 or 32 bits.
pub trait Device: Sized {
    /// The bytes the device holds.
    spec fn dev_contents(&self) -> Seq<u8>;

    /// Whether stores change the contents.
    spec fn dev_writes_stick() -> bool;

    /// Read `size / 8` bytes at `addr`, assembled little-endian.
    fn load(&self, addr: u32, size: u32) -> (r: Result<u32, ()>)
        requires
            valid_size(size) ==> addr + access_bytes(size) <= self.dev_contents().len(),
        ensures
            r == sized_load(self.dev_contents(), addr, size),
    ;

    /// Write the low `size` bits of `value` at `addr`, little-endian.
    fn store(&mut self, addr: u32, size: u32, value: u32) -> (r: Result<(), ()>)
        requires
            valid_size(size) ==> addr + access_bytes(size) <= old(self).dev_contents().len(),
        ensures
            r == if valid_size(size) {
                Ok::<(), ()>(())
            } else {
                Err::<(), ()>(())
            },
            final(self).dev_contents() == if valid_size(size) && Self::dev_writes_stick() {
                sized_store(old(self).dev_contents(), addr, size, value)
            } else {
                old(self).dev_contents()
            },
    ;
}

/// The bus state: the bytes of DRAM and of the boot ROM.
pub struct BusView {
    pub dram: Seq<u8>,
    pub rom: Seq<u8>,
}

/// Well-formedness of the bus state: both regions have their architectural
/// size. Construction establishes it and every store preserves it.
pub open spec fn bus_wf(b: BusView) -> bool {
    &&& b.dram.len() == MEMORY_SIZE
    &&& b.rom.len() == BOOT_ROM_SIZE
}

/// Whether an address lies in the boot ROM window.
pub open spec fn in_rom_range(addr: u32) -> bool {
    PHY_BOOT_ROM_BASE <= addr < PHY_BOOT_ROM_BASE + BOOT_ROM_SIZE
}

/// What a bus load returns: the ROM window reads the ROM, addresses below
/// `MEMORY_SIZE` read the DRAM, and an unsupported width or an access that
/// does not lie whole inside its device's range is an error.
pub open spec fn bus_load(b: BusView, addr: u32, size: u32) -> Result<u32, ()> {
    if in_rom_range(addr) {
        if valid_size(size) && addr + access_bytes(size) <= PHY_BOOT_ROM_BASE + BOOT_ROM_SIZE {
            sized_load(b.rom, (addr - PHY_BOOT_ROM_BASE) as u32, size)
        } else {
            Err(())
        }
    } else {
        if valid_size(size) && addr + access_bytes(size) <= MEMORY_SIZE {
            sized_load(b.dram, addr, size)
        } else {
            Err(())
        }
    }
}

/// What a bus store leaves behind: stores into the ROM window are accepted
/// and discarded, stores below `MEMORY_SIZE` update the DRAM, and an
/// unsupported width or an out-of-range access is an error that changes
/// nothing.
pub open spec fn bus_store(b: BusView, addr: u32, size: u32, value: u32) -> Result<BusView, ()> {
    if in_rom_range(addr) {
        if valid_size(size) && addr + access_bytes(size) <= PHY_BOOT_ROM_BASE + BOOT_ROM_SIZE {
            Ok(b)
        } else {
            Err(())
        }
    } else {
        if valid_size(size) && addr + access_bytes(size) <= MEMORY_SIZE {
            Ok(BusView { dram: sized_store(b.dram, addr, size, value), rom: b.rom })
        } else {
            Err(())
        }
    }
}

/// The bus: owner of the DRAM and the boot ROM.
pub struct Bus {
    memory: Dram,
    boot_rom: Rom,
}

impl View for Bus {
    type V = BusView;

    closed spec fn view(&self) -> BusView {
        BusView { dram: self.memory.memory@, rom: self.boot_rom.memory@ }
    }
}

impl Bus {
    /// A bus with zeroed DRAM and the image `binary` in the boot ROM,
    /// right-padded with zeros.
    pub fn new(binary: Vec<u8>) -> (bus: Bus)
        requires
            binary@.len() <= BOOT_ROM_SIZE,
        ensures
            bus@.dram =~= Seq::new(MEMORY_SIZE as nat, |i: int| 0u8),
            bus@.rom == padded_image(binary@, BOOT_ROM_SIZE),
            bus_wf(bus@),
    {
        let bus = Bus {
            memory: Dram::new(Vec::new(), MEMORY_SIZE),
            boot_rom: Rom::new(binary, BOOT_ROM_SIZE),
        };
        proof {
            assert(bus@.dram =~= Seq::new(MEMORY_SIZE as nat, |i: int| 0u8));
        }
        bus
    }

    /// The number of bytes an access of `size` bits touches; 0 for a width
    /// the devices reject.
    fn width_bytes(size: u32) -> (w: u32)
        ensures
            w == access_bytes(size),
            valid_size(size) <==> w != 0,
    {
        match size {
            8 => 1,
            16 => 2,
            32 => 4,
            _ => 0,
        }
    }

    /// Route a load to the device whose range contains `addr`.
    pub fn load(&self, addr: u32, size: u32) -> (r: Result<u32, ()>)
        requires
            bus_wf(self@),
        ensures
            r == bus_load(self@, addr, size),
    {
        let w = Self::width_bytes(size);
        if PHY_BOOT_ROM_BASE <= addr && addr < PHY_BOOT_ROM_BASE + BOOT_ROM_SIZE {
            if w != 0 && addr - PHY_BOOT_ROM_BASE <= BOOT_ROM_SIZE - w {
                self.boot_rom.load(addr - PHY_BOOT_ROM_BASE, size)
            } else {
                Err(())
            }
        } else {
            if w != 0 && addr <= MEMORY_SIZE - w {
                self.memory.load(addr, size)
            } else {
                Err(())
            }
        }
    }

    /// Route a store to the device whose range contains `addr`.
    pub fn store(&mut self, addr: u32, size: u32, value: u32) -> (r: Result<(), ()>)
        requires
            bus_wf(old(self)@),
        ensures
            bus_wf(final(self)@),
            match bus_store(old(self)@, addr, size, value) {
                Ok(b2) => r == Ok::<(), ()>(()) && final(self)@ == b2,
                Err(()) => r == Err::<(), ()>(()) && final(self)@ == old(self)@,
            },
    {
        let w = Self::width_bytes(size);
        if PHY_BOOT_ROM_BASE <= addr && addr < PHY_BOOT_ROM_BASE + BOOT_ROM_SIZE {
            if w != 0 && addr - PHY_BOOT_ROM_BASE <= BOOT_ROM_SIZE - w {
                self.boot_rom.store(addr - PHY_BOOT_ROM_BASE, size, value)
            } else {
                Err(())
            }
        } else {
            if w != 0 && addr <= MEMORY_SIZE - w {
                self.memory.store(addr, size, value)
            } else {
                Err(())
            }
        }
    }
}

} // verus!
