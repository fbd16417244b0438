//! Byte-addressable memory devices.
//!
//! Two devices share one access model: a zero-initialized, writable DRAM and
//! a boot ROM that is pre-loaded from an input image and silently discards
//! writes. Both load and store values of width 8, 16 or 32 bits with
//! little-endian packing, specified here over a `Seq<u8>` of contents.

use vstd::prelude::*;

verus! {

use crate::bus::Device;

/// Size of the DRAM region in bytes (128 MiB).
pub const MEMORY_SIZE: u32 = 1024 * 1024 * 128;

/// Size of the boot ROM region in bytes (4 MiB).
pub const BOOT_ROM_SIZE: u32 = 1024 * 1024 * 4;

/// The 16-bit value stored little-endian at offset `a`: the byte at `a` is
/// the least significant.
pub open spec fn le16_at(m: Seq<u8>, a: int) -> u32
    recommends
        0 <= a,
        a + 2 <= m.len(),
{
    (m[a] + m[a + 1] * 0x100) as u32
}

/// The 32-bit value stored little-endian at offset `a`: the byte at `a` is
/// the least significant.
pub open spec fn le32_at(m: Seq<u8>, a: int) -> u32
    recommends
        0 <= a,
        a + 4 <= m.len(),
{
    (m[a] + m[a + 1] * 0x100 + m[a + 2] * 0x1_0000 + m[a + 3] * 0x100_0000) as u32
}

/// The contents after storing the low 8 bits of `v` at offset `a`.
pub open spec fn store8_at(m: Seq<u8>, a: int, v: u32) -> Seq<u8> {
    m.update(a, (v % 0x100) as u8)
}

/// The contents after storing the low 16 bits of `v` little-endian at `a`.
pub open spec fn store16_at(m: Seq<u8>, a: int, v: u32) -> Seq<u8> {
    m.update(a, (v % 0x100) as u8).update(a + 1, ((v / 0x100) % 0x100) as u8)
}

/// The contents after storing `v` little-endian at `a`.
pub open spec fn store32_at(m: Seq<u8>, a: int, v: u32) -> Seq<u8> {
    m.update(a, (v % 0x100) as u8).update(a + 1, ((v / 0x100) % 0x100) as u8).update(
        a + 2,
        ((v / 0x1_0000) % 0x100) as u8,
    ).update(a + 3, ((v / 0x100_0000) % 0x100) as u8)
}

/// The access widths the devices accept, in bits.
pub open spec fn valid_size(size: u32) -> bool {
    size == 8 || size == 16 || size == 32
}

/// The number of bytes an access of `size` bits touches; 0 for a size the
/// devices reject.
pub open spec fn access_bytes(size: u32) -> u32 {
    if size == 8 {
        1
    } else if size == 16 {
        2
    } else if size == 32 {
        4
    } else {
        0
    }
}

/// The value a sized load reads from contents `m`, or an error for an
/// unsupported width.
pub open spec fn sized_load(m: Seq<u8>, addr: u32, size: u32) -> Result<u32, ()>
    recommends
        addr + access_bytes(size) <= m.len(),
{
    if size == 8 {
        Ok(m[addr as int] as u32)
    } else if size == 16 {
        Ok(le16_at(m, addr as int))
    } else if size == 32 {
        Ok(le32_at(m, addr as int))
    } else {
        Err(())
    }
}

/// The contents after a sized store of the low `size` bits of `value`;
/// contents are unchanged for an unsupported width.
pub open spec fn sized_store(m: Seq<u8>, addr: u32, size: u32, value: u32) -> Seq<u8>
    recommends
        addr + access_bytes(size) <= m.len(),
{
    if size == 8 {
        store8_at(m, addr as int, value)
    } else if size == 16 {
        store16_at(m, addr as int, value)
    } else if size == 32 {
        store32_at(m, addr as int, value)
    } else {
        m
    }
}

/// A byte-addressable memory device with loads and stores of width
/// 8, 16 and 32 bits, little-endian.
///
/// `writes_stick` distinguishes the writable DRAM from the read-only boot
/// ROM, whose stores are accepted but discarded.
pub trait Memory: Sized {
    /// The bytes the device holds.
    spec fn contents(&self) -> Seq<u8>;

    /// Whether stores change the contents.
    spec fn writes_stick() -> bool;

    /// Read the byte at `addr`, zero-extended.
    fn load8(&self, addr: u32) -> (v: u32)
        requires
            addr < self.contents().len(),
        ensures
            v == self.contents()[addr as int] as u32,
    ;

    /// Read 16 bits little-endian at `addr`, zero-extended.
    fn load16(&self, addr: u32) -> (v: u32)
        requires
            addr + 2 <= self.contents().len(),
        ensures
            v == le16_at(self.contents(), addr as int),
    ;

    /// Read 32 bits little-endian at `addr`.
    fn load32(&self, addr: u32) -> (v: u32)
        requires
            addr + 4 <= self.contents().len(),
        ensures
            v == le32_at(self.contents(), addr as int),
    ;

    /// Write the low 8 bits of `value` at `addr` (discarded when writes do
    /// not stick).
    fn store8(&mut self, addr: u32, value: u32)
        requires
            addr < old(self).contents().len(),
        ensures
            final(self).contents() == if Self::writes_stick() {
                store8_at(old(self).contents(), addr as int, value)
            } else {
                old(self).contents()
            },
    ;

    /// Write the low 16 bits of `value` little-endian at `addr`.
    fn store16(&mut self, addr: u32, value: u32)
        requires
            addr + 2 <= old(self).contents().len(),
        ensures
            final(self).contents() == if Self::writes_stick() {
                store16_at(old(self).contents(), addr as int, value)
            } else {
                old(self).contents()
            },
    ;

    /// Write the low 32 bits of `value` little-endian at `addr`.
    fn store32(&mut self, addr: u32, value: u32)
        requires
            addr + 4 <= old(self).contents().len(),
        ensures
            final(self).contents() == if Self::writes_stick() {
                store32_at(old(self).contents(), addr as int, value)
            } else {
                old(self).contents()
            },
    ;
}

/// Any memory is a bus device: the sized `load`/`store` dispatch on the
/// width and reject any width other than 8, 16 or 32 bits.
impl<T: Memory> Device for T {
    open spec fn dev_contents(&self) -> Seq<u8> {
        self.contents()
    }

    open spec fn dev_writes_stick() -> bool {
        T::writes_stick()
    }

    fn load(&self, addr: u32, size: u32) -> (r: Result<u32, ()>) {
        match size {
            8 => Ok(self.load8(addr)),
            16 => Ok(self.load16(addr)),
            32 => Ok(self.load32(addr)),
            _ => Err(()),
        }
    }

    fn store(&mut self, addr: u32, size: u32, value: u32) -> (r: Result<(), ()>) {
        match size {
            8 => {
                self.store8(addr, value);
                Ok(())
            },
            16 => {
                self.store16(addr, value);
                Ok(())
            },
            32 => {
                self.store32(addr, value);
                Ok(())
            },
            _ => Err(()),
        }
    }
}

/// Zero-initialized, writable DRAM.
pub struct Dram {
    pub memory: Vec<u8>,
}

impl Memory for Dram {
    open spec fn contents(&self) -> Seq<u8> {
        self.memory@
    }

    open spec fn writes_stick() -> bool {
        true
    }

    fn load8(&self, addr: u32) -> (v: u32) {
        self.memory[addr as usize] as u32
    }

    fn load16(&self, addr: u32) -> (v: u32) {
        let _end: usize = self.memory.len();
        let i = addr as usize;
        (self.memory[i] as u32) + (self.memory[i + 1] as u32) * 0x100
    }

    fn load32(&self, addr: u32) -> (v: u32) {
        let _end: usize = self.memory.len();
        let i = addr as usize;
        (self.memory[i] as u32) + (self.memory[i + 1] as u32) * 0x100 + (self.memory[i + 2]
            as u32) * 0x1_0000 + (self.memory[i + 3] as u32) * 0x100_0000
    }

    fn store8(&mut self, addr: u32, value: u32) {
        let i = addr as usize;
        self.memory[i] = (value % 0x100) as u8;
    }

    fn store16(&mut self, addr: u32, value: u32) {
        let _end: usize = self.memory.len();
        let i = addr as usize;
        self.memory[i] = (value % 0x100) as u8;
        self.memory[i + 1] = ((value / 0x100) % 0x100) as u8;
    }

    fn store32(&mut self, addr: u32, value: u32) {
        let _end: usize = self.memory.len();
        let i = addr as usize;
        self.memory[i] = (value % 0x100) as u8;
        self.memory[i + 1] = ((value / 0x100) % 0x100) as u8;
        self.memory[i + 2] = ((value / 0x1_0000) % 0x100) as u8;
        self.memory[i + 3] = ((value / 0x100_0000) % 0x100) as u8;
    }
}

/// The contents a freshly constructed device holds: the input image,
/// right-padded with zeros to the device size.
pub open spec fn padded_image(binary: Seq<u8>, memory_size: u32) -> Seq<u8>
    recommends
        binary.len() <= memory_size,
{
    binary + Seq::new((memory_size - binary.len()) as nat, |i: int| 0u8)
}

/// Allocate `memory_size` zeroed bytes and copy `binary` over the front.
fn build_image(binary: &Vec<u8>, memory_size: u32) -> (m: Vec<u8>)
    requires
        binary@.len() <= memory_size,
    ensures
        m@ == padded_image(binary@, memory_size),
{
    let n = binary.len();
    let mut memory: Vec<u8> = vec![0u8; memory_size as usize];
    let mut i: usize = 0;
    while i < n
        invariant
            i <= n == binary@.len(),
            n <= memory_size,
            memory@.len() == memory_size,
            forall|j: int| 0 <= j < i ==> memory@[j] == binary@[j],
            forall|j: int| i <= j < memory_size ==> memory@[j] == 0u8,
        decreases n - i,
    {
        memory[i] = binary[i];
        i += 1;
    }
    proof {
        assert(memory@ =~= padded_image(binary@, memory_size));
    }
    memory
}

impl Dram {
    /// A DRAM of `memory_size` bytes holding `binary` at offset 0 and zeros
    /// beyond it.
    pub fn new(binary: Vec<u8>, memory_size: u32) -> (d: Dram)
        requires
            binary@.len() <= memory_size,
        ensures
            d.contents() == padded_image(binary@, memory_size),
    {
        Dram { memory: build_image(&binary, memory_size) }
    }
}

/// Boot ROM: reads as DRAM does, silently discards all stores.
pub struct Rom {
    pub memory: Vec<u8>,
}

impl Memory for Rom {
    open spec fn contents(&self) -> Seq<u8> {
        self.memory@
    }

    open spec fn writes_stick() -> bool {
        false
    }

    fn load8(&self, addr: u32) -> (v: u32) {
        self.memory[addr as usize] as u32
    }

    fn load16(&self, addr: u32) -> (v: u32) {
        let _end: usize = self.memory.len();
        let i = addr as usize;
        (self.memory[i] as u32) + (self.memory[i + 1] as u32) * 0x100
    }

    fn load32(&self, addr: u32) -> (v: u32) {
        let _end: usize = self.memory.len();
        let i = addr as usize;
        (self.memory[i] as u32) + (self.memory[i + 1] as u32) * 0x100 + (self.memory[i + 2]
            as u32) * 0x1_0000 + (self.memory[i + 3] as u32) * 0x100_0000
    }

    fn store8(&mut self, _addr: u32, _value: u32) {
    }

    fn store16(&mut self, _addr: u32, _value: u32) {
    }

    fn store32(&mut self, _addr: u32, _value: u32) {
    }
}

impl Rom {
    /// A ROM of `memory_size` bytes holding `binary` at offset 0 and zeros
    /// beyond it.
    pub fn new(binary: Vec<u8>, memory_size: u32) -> (r: Rom)
        requires
            binary@.len() <= memory_size,
        ensures
            r.contents() == padded_image(binary@, memory_size),
    {
        Rom { memory: build_image(&binary, memory_size) }
    }
}

} // verus!
