//! The host platform, and the accesses made to it.
use crate::address::{
    access_bit_width, is_access_width, spec_access_bit_width, AddressSpace, GenericAddress,
};
use crate::bits::{field_of_u64, low_mask_u64, u64_get_bits, u64_set_bits, with_field_u64};
use crate::error::AcpiSystemError;
use core::marker::PhantomData;
use vstd::prelude::*;

verus! {

/// The host platform: port and memory access, interrupts, delays, and processor control.
pub trait Handler {
    fn install_interrupt_handler(irq: u32) -> Result<(), AcpiSystemError>;

    fn io_read_u8(port: u16) -> u8;

    fn io_read_u16(port: u16) -> u16;

    fn io_read_u32(port: u16) -> u32;

    fn io_write_u8(port: u16, value: u8);

    fn io_write_u16(port: u16, value: u16);

    fn io_write_u32(port: u16, value: u32);

    fn mem_read_u8(address: u64) -> u8;

    fn mem_read_u16(address: u64) -> u16;

    fn mem_read_u32(address: u64) -> u32;

    fn mem_read_u64(address: u64) -> u64;

    fn mem_write_u8(address: u64, value: u8);

    fn mem_write_u16(address: u64, value: u16);

    fn mem_write_u32(address: u64, value: u32);

    fn mem_write_u64(address: u64, value: u64);

    /// Busy-waits for the given number of microseconds.
    fn stall(microseconds: u64);

    /// Writes back and invalidates the processor caches.
    fn flush_cpu_cache();

    /// Disables interrupts and halts the processor for good.
    fn halt();
}

/// One call into the platform, as the library made it.
pub enum PlatformOp {
    Read { space: AddressSpace, address: u64, width: u8, value: u64 },
    Write { space: AddressSpace, address: u64, width: u8, value: u64 },
    InstallInterrupt { irq: u32, result: Result<(), AcpiSystemError> },
    Stall { microseconds: u64 },
    FlushCache,
    Halt,
}

/// Whether `op` is a read of `width` bits at `address`, whatever it returned.
pub open spec fn is_read_at(op: PlatformOp, space: AddressSpace, address: int, width: nat) -> bool {
    match op {
        PlatformOp::Read { space: s, address: a, width: w, .. } => s == space && a == address && w
            == width,
        _ => false,
    }
}

/// The value that a read returned or a write wrote.
pub open spec fn op_value(op: PlatformOp) -> u64 {
    match op {
        PlatformOp::Read { value, .. } => value,
        PlatformOp::Write { value, .. } => value,
        _ => 0,
    }
}

/// The width in bits of each access made for `reg`.
pub open spec fn access_width(reg: GenericAddress) -> nat {
    spec_access_bit_width(reg, reg.address, 64)
}

/// How many access slots cover the bits of `reg`, its offset included.
pub open spec fn slot_count(reg: GenericAddress) -> nat {
    (reg.bit_offset + reg.bit_width + access_width(reg) - 1) as nat / access_width(reg)
}

/// The first slot that is accessed: the slots before it lie wholly inside the bit offset.
pub open spec fn first_slot(reg: GenericAddress) -> nat {
    reg.bit_offset as nat / access_width(reg)
}

/// How many accesses are made for `reg`.
pub open spec fn access_count(reg: GenericAddress) -> nat {
    (slot_count(reg) - first_slot(reg)) as nat
}

/// The address of slot `i` of `reg`.
pub open spec fn slot_address(reg: GenericAddress, i: nat) -> int {
    reg.address + i * (access_width(reg) / 8)
}

/// One past the last byte that the slots of `reg` cover.
pub open spec fn span_end(reg: GenericAddress) -> int {
    slot_address(reg, slot_count(reg))
}

/// Whether every access made for `reg` lies in an address space that the platform serves:
/// system memory below the last byte, or a 16-bit I/O port.
pub open spec fn in_address_space(reg: GenericAddress) -> bool {
    match reg.address_space {
        AddressSpace::SystemMemory => span_end(reg) <= 0xFFFF_FFFF_FFFF_FFFF,
        AddressSpace::SystemIo => span_end(reg) <= 0x1_0000,
        _ => false,
    }
}

/// The bits of slot `i` of a value written through `reg`; a slot past bit 63 holds zeros.
pub open spec fn slot_bits(reg: GenericAddress, value: u64, i: nat) -> u64 {
    let w = access_width(reg);
    if i * w < 64 {
        field_of_u64(value, (i * w) as u64, (i * w + w) as u64)
    } else {
        0
    }
}

/// The writes that storing `value` through `reg` makes, in order.
pub open spec fn write_ops(reg: GenericAddress, value: u64) -> Seq<PlatformOp> {
    Seq::new(
        access_count(reg),
        |k: int|
            PlatformOp::Write {
                space: reg.address_space,
                address: slot_address(reg, (first_slot(reg) + k) as nat) as u64,
                width: access_width(reg) as u8,
                value: slot_bits(reg, value, (first_slot(reg) + k) as nat),
            },
    )
}

/// Whether `ops` are the reads that loading `reg` makes, in order.
pub open spec fn read_ops_ok(reg: GenericAddress, ops: Seq<PlatformOp>) -> bool {
    &&& ops.len() == access_count(reg)
    &&& forall|k: int|
        0 <= k < ops.len() ==> #[trigger] is_read_at(
            ops[k],
            reg.address_space,
            slot_address(reg, (first_slot(reg) + k) as nat),
            access_width(reg),
        )
}

/// `acc` with the data read for slot `i` of `reg` put in place; a slot past bit 63 is dropped.
pub open spec fn place_slot(reg: GenericAddress, acc: u64, i: nat, data: u64) -> u64 {
    let w = access_width(reg);
    if i * w < 64 {
        with_field_u64(acc, (i * w) as u64, (i * w + w) as u64, field_of_u64(data, 0, w as u64))
    } else {
        acc
    }
}

/// The value that the first `n` reads in `ops` assemble for `reg`.
pub open spec fn assembled(reg: GenericAddress, ops: Seq<PlatformOp>, n: nat) -> u64
    decreases n,
{
    if n == 0 {
        0
    } else {
        place_slot(
            reg,
            assembled(reg, ops, (n - 1) as nat),
            (first_slot(reg) + n - 1) as nat,
            op_value(ops[n - 1]),
        )
    }
}

/// The value that loading `reg` gives when its reads returned what `ops` records.
pub open spec fn read_value(reg: GenericAddress, ops: Seq<PlatformOp>) -> u64 {
    assembled(reg, ops, ops.len())
}

/// The calls recorded in `after` past those of `before`.
pub open spec fn appended(before: Seq<PlatformOp>, after: Seq<PlatformOp>) -> Seq<PlatformOp> {
    after.skip(before.len() as int)
}

/// Whether the record `after` continues the record `before`.
pub open spec fn extends(before: Seq<PlatformOp>, after: Seq<PlatformOp>) -> bool {
    &&& before.len() <= after.len()
    &&& after.take(before.len() as int) == before
}

/// A continuation of a continuation of a record continues it.
pub broadcast proof fn lemma_extends_trans(
    a: Seq<PlatformOp>,
    b: Seq<PlatformOp>,
    c: Seq<PlatformOp>,
)
    requires
        #[trigger] extends(a, b),
        #[trigger] extends(b, c),
    ensures
        extends(a, c),
{
    assert(c.take(a.len() as int) =~= c.take(b.len() as int).take(a.len() as int));
}

/// Whether a raw access of `width` bits at `address` is one the platform serves.
pub open spec fn raw_access_ok(space: AddressSpace, address: u64, width: nat) -> bool {
    match space {
        AddressSpace::SystemMemory => is_access_width(width),
        AddressSpace::SystemIo => address <= 0xFFFF && (width == 8 || width == 16 || width == 32),
        _ => false,
    }
}

/// The platform `H`, with the record of the calls made into it.
pub struct Platform<H: Handler> {
    ops: Ghost<Seq<PlatformOp>>,
    handler: PhantomData<H>,
}

impl<H: Handler> Platform<H> {
    /// The calls made into the platform so far, oldest first.
    pub closed spec fn log(&self) -> Seq<PlatformOp> {
        self.ops@
    }

    pub fn new() -> (r: Self)
        ensures
            r.log() == Seq::<PlatformOp>::empty(),
    {
        Platform { ops: Ghost(Seq::empty()), handler: PhantomData }
    }

    fn record(&mut self, op: Ghost<PlatformOp>)
        ensures
            final(self).log() == old(self).log().push(op@),
    {
        self.ops = Ghost(self.ops@.push(op@));
    }

    fn io_read_u8(&mut self, port: u16) -> (r: u8)
        ensures
            final(self).log() == old(self).log().push(
                PlatformOp::Read {
                    space: AddressSpace::SystemIo,
                    address: port as u64,
                    width: 8,
                    value: r as u64,
                },
            ),
    {
        let r = H::io_read_u8(port);
        self.record(Ghost(PlatformOp::Read { space: AddressSpace::SystemIo, address: port as u64, width: 8, value: r as u64 }));
        r
    }
    fn io_read_u16(&mut self, port: u16) -> (r: u16)
        ensures
            final(self).log() == old(self).log().push(
                PlatformOp::Read {
                    space: AddressSpace::SystemIo,
                    address: port as u64,
                    width: 16,
                    value: r as u64,
                },
            ),
    {
        let r = H::io_read_u16(port);
        self.record(Ghost(PlatformOp::Read { space: AddressSpace::SystemIo, address: port as u64, width: 16, value: r as u64 }));
        r
    }
    fn io_read_u32(&mut self, port: u16) -> (r: u32)
        ensures
            final(self).log() == old(self).log().push(
                PlatformOp::Read {
                    space: AddressSpace::SystemIo,
                    address: port as u64,
                    width: 32,
                    value: r as u64,
                },
            ),
    {
        let r = H::io_read_u32(port);
        self.record(Ghost(PlatformOp::Read { space: AddressSpace::SystemIo, address: port as u64, width: 32, value: r as u64 }));
        r
    }
    fn io_write_u8(&mut self, port: u16, value: u8)
        ensures
            final(self).log() == old(self).log().push(
                PlatformOp::Write {
                    space: AddressSpace::SystemIo,
                    address: port as u64,
                    width: 8,
                    value: value as u64,
                },
            ),
    {
        H::io_write_u8(port, value);
        self.record(Ghost(PlatformOp::Write { space: AddressSpace::SystemIo, address: port as u64, width: 8, value: value as u64 }));
    }
    fn io_write_u16(&mut self, port: u16, value: u16)
        ensures
            final(self).log() == old(self).log().push(
                PlatformOp::Write {
                    space: AddressSpace::SystemIo,
                    address: port as u64,
                    width: 16,
                    value: value as u64,
                },
            ),
    {
        H::io_write_u16(port, value);
        self.record(Ghost(PlatformOp::Write { space: AddressSpace::SystemIo, address: port as u64, width: 16, value: value as u64 }));
    }
    fn io_write_u32(&mut self, port: u16, value: u32)
        ensures
            final(self).log() == old(self).log().push(
                PlatformOp::Write {
                    space: AddressSpace::SystemIo,
                    address: port as u64,
                    width: 32,
                    value: value as u64,
                },
            ),
    {
        H::io_write_u32(port, value);
        self.record(Ghost(PlatformOp::Write { space: AddressSpace::SystemIo, address: port as u64, width: 32, value: value as u64 }));
    }
    fn mem_read_u8(&mut self, address: u64) -> (r: u8)
        ensures
            final(self).log() == old(self).log().push(
                PlatformOp::Read {
                    space: AddressSpace::SystemMemory,
                    address: address,
                    width: 8,
                    value: r as u64,
                },
            ),
    {
        let r = H::mem_read_u8(address);
        self.record(Ghost(PlatformOp::Read { space: AddressSpace::SystemMemory, address: address, width: 8, value: r as u64 }));
        r
    }
    fn mem_read_u16(&mut self, address: u64) -> (r: u16)
        ensures
            final(self).log() == old(self).log().push(
                PlatformOp::Read {
                    space: AddressSpace::SystemMemory,
                    address: address,
                    width: 16,
                    value: r as u64,
                },
            ),
    {
        let r = H::mem_read_u16(address);
        self.record(Ghost(PlatformOp::Read { space: AddressSpace::SystemMemory, address: address, width: 16, value: r as u64 }));
        r
    }
    fn mem_read_u32(&mut self, address: u64) -> (r: u32)
        ensures
            final(self).log() == old(self).log().push(
                PlatformOp::Read {
                    space: AddressSpace::SystemMemory,
                    address: address,
                    width: 32,
                    value: r as u64,
                },
            ),
    {
        let r = H::mem_read_u32(address);
        self.record(Ghost(PlatformOp::Read { space: AddressSpace::SystemMemory, address: address, width: 32, value: r as u64 }));
        r
    }
    fn mem_read_u64(&mut self, address: u64) -> (r: u64)
        ensures
            final(self).log() == old(self).log().push(
                PlatformOp::Read {
                    space: AddressSpace::SystemMemory,
                    address: address,
                    width: 64,
                    value: r as u64,
                },
            ),
    {
        let r = H::mem_read_u64(address);
        self.record(Ghost(PlatformOp::Read { space: AddressSpace::SystemMemory, address: address, width: 64, value: r as u64 }));
        r
    }
    fn mem_write_u8(&mut self, address: u64, value: u8)
        ensures
            final(self).log() == old(self).log().push(
                PlatformOp::Write {
                    space: AddressSpace::SystemMemory,
                    address: address,
                    width: 8,
                    value: value as u64,
                },
            ),
    {
        H::mem_write_u8(address, value);
        self.record(Ghost(PlatformOp::Write { space: AddressSpace::SystemMemory, address: address, width: 8, value: value as u64 }));
    }
    fn mem_write_u16(&mut self, address: u64, value: u16)
        ensures
            final(self).log() == old(self).log().push(
                PlatformOp::Write {
                    space: AddressSpace::SystemMemory,
                    address: address,
                    width: 16,
                    value: value as u64,
                },
            ),
    {
        H::mem_write_u16(address, value);
        self.record(Ghost(PlatformOp::Write { space: AddressSpace::SystemMemory, address: address, width: 16, value: value as u64 }));
    }
    fn mem_write_u32(&mut self, address: u64, value: u32)
        ensures
            final(self).log() == old(self).log().push(
                PlatformOp::Write {
                    space: AddressSpace::SystemMemory,
                    address: address,
                    width: 32,
                    value: value as u64,
                },
            ),
    {
        H::mem_write_u32(address, value);
        self.record(Ghost(PlatformOp::Write { space: AddressSpace::SystemMemory, address: address, width: 32, value: value as u64 }));
    }
    fn mem_write_u64(&mut self, address: u64, value: u64)
        ensures
            final(self).log() == old(self).log().push(
                PlatformOp::Write {
                    space: AddressSpace::SystemMemory,
                    address: address,
                    width: 64,
                    value: value as u64,
                },
            ),
    {
        H::mem_write_u64(address, value);
        self.record(Ghost(PlatformOp::Write { space: AddressSpace::SystemMemory, address: address, width: 64, value: value as u64 }));
    }

    /// Reads `width` bits at `address`, through the platform call of that width.
    pub fn read_raw(&mut self, space: AddressSpace, address: u64, width: u8) -> (r: u64)
        requires
            raw_access_ok(space, address, width as nat),
        ensures
            final(self).log() == old(self).log().push(
                PlatformOp::Read { space, address, width, value: r },
            ),
            width < 64 ==> r <= low_mask_u64(width as u64),
    {
        let value: u64 = match space {
            AddressSpace::SystemMemory => {
                if width == 8 {
                    self.mem_read_u8(address) as u64
                } else if width == 16 {
                    self.mem_read_u16(address) as u64
                } else if width == 32 {
                    self.mem_read_u32(address) as u64
                } else {
                    self.mem_read_u64(address)
                }
            },
            _ => {
                let port = address as u16;
                if width == 8 {
                    self.io_read_u8(port) as u64
                } else if width == 16 {
                    self.io_read_u16(port) as u64
                } else {
                    self.io_read_u32(port) as u64
                }
            },
        };
        proof {
            let v = value;
            if width == 8 {
                assert(v < 0x100 ==> v <= low_mask_u64(8)) by (bit_vector);
            } else if width == 16 {
                assert(v < 0x1_0000 ==> v <= low_mask_u64(16)) by (bit_vector);
            } else if width == 32 {
                assert(v < 0x1_0000_0000 ==> v <= low_mask_u64(32)) by (bit_vector);
            }
        }
        value
    }

    /// Writes the low `width` bits of `value` at `address`, through the platform call of that
    /// width. The record holds the value as given; the call takes its low `width` bits.
    pub fn write_raw(&mut self, space: AddressSpace, address: u64, width: u8, value: u64)
        requires
            raw_access_ok(space, address, width as nat),
            width < 64 ==> value <= low_mask_u64(width as u64),
        ensures
            final(self).log() == old(self).log().push(
                PlatformOp::Write { space, address, width, value },
            ),
    {
        match space {
            AddressSpace::SystemMemory => {
                if width == 8 {
                    self.mem_write_u8(address, value as u8);
                } else if width == 16 {
                    self.mem_write_u16(address, value as u16);
                } else if width == 32 {
                    self.mem_write_u32(address, value as u32);
                } else {
                    self.mem_write_u64(address, value);
                }
            },
            _ => {
                let port = address as u16;
                if width == 8 {
                    self.io_write_u8(port, value as u8);
                } else if width == 16 {
                    self.io_write_u16(port, value as u16);
                } else {
                    self.io_write_u32(port, value as u32);
                }
            },
        }
        proof {
            let v = value;
            if width == 8 {
                assert(v <= low_mask_u64(8) ==> (v as u8) as u64 == v) by (bit_vector);
            } else if width == 16 {
                assert(v <= low_mask_u64(16) ==> (v as u16) as u64 == v) by (bit_vector);
            } else if width == 32 {
                assert(v <= low_mask_u64(32) ==> (v as u32) as u64 == v) by (bit_vector);
            }
        }
    }

    pub fn stall(&mut self, microseconds: u64)
        ensures
            final(self).log() == old(self).log().push(PlatformOp::Stall { microseconds }),
    {
        H::stall(microseconds);
        self.record(Ghost(PlatformOp::Stall { microseconds }));
    }

    pub fn flush_cpu_cache(&mut self)
        ensures
            final(self).log() == old(self).log().push(PlatformOp::FlushCache),
    {
        H::flush_cpu_cache();
        self.record(Ghost(PlatformOp::FlushCache));
    }

    pub fn halt(&mut self)
        ensures
            final(self).log() == old(self).log().push(PlatformOp::Halt),
    {
        H::halt();
        self.record(Ghost(PlatformOp::Halt));
    }

    pub fn install_interrupt_handler(&mut self, irq: u32) -> (r: Result<(), AcpiSystemError>)
        ensures
            final(self).log() == old(self).log().push(PlatformOp::InstallInterrupt { irq, result: r }),
    {
        let r = H::install_interrupt_handler(irq);
        self.record(Ghost(PlatformOp::InstallInterrupt { irq, result: r }));
        r
    }

    /// Loads the register at `reg`: one access per slot from the first slot that is not wholly
    /// inside the bit offset, each slot's bits put in place in the value.
    pub fn read_address(&mut self, reg: GenericAddress) -> (r: Result<u64, AcpiSystemError>)
        ensures
            match r {
                Ok(v) => {
                    &&& in_address_space(reg)
                    &&& final(self).log().len() == old(self).log().len() + access_count(reg)
                    &&& final(self).log().take(old(self).log().len() as int) == old(self).log()
                    &&& read_ops_ok(reg, final(self).log().skip(old(self).log().len() as int))
                    &&& v == read_value(reg, final(self).log().skip(old(self).log().len() as int))
                },
                Err(e) => {
                    &&& !in_address_space(reg)
                    &&& e == AcpiSystemError::Unsupported
                    &&& final(self).log() == old(self).log()
                },
            },
    {
        let (w, count, first) = match Self::plan(&reg) {
            Some(plan) => plan,
            None => return Err(AcpiSystemError::Unsupported),
        };
        let ghost start = self.log().len();
        let mut value: u64 = 0;
        let mut i: u64 = first;
        while i < count
            invariant
                first == first_slot(reg),
                count == slot_count(reg),
                w == access_width(reg),
                is_access_width(w as nat),
                in_address_space(reg),
                first <= i <= count <= 64,
                start == old(self).log().len(),
                self.log().len() == start + (i - first),
                self.log().take(start as int) == old(self).log(),
                forall|k: int|
                    0 <= k < i - first ==> #[trigger] is_read_at(
                        self.log()[start + k],
                        reg.address_space,
                        slot_address(reg, (first + k) as nat),
                        w as nat,
                    ),
                value == assembled(reg, self.log().skip(start as int), (i - first) as nat),
            decreases count - i,
        {
            proof {
                Self::lemma_slot_address(reg, i as nat);
            }
            let address = reg.address + i * (w / 8);
            let ghost before = self.log();
            let data = self.read_raw(reg.address_space, address, w as u8);
            proof {
                assert(self.log().skip(start as int).take((i - first) as int) =~= before.skip(
                    start as int,
                ).take((i - first) as int));
                Self::lemma_assembled_prefix(
                    reg,
                    before.skip(start as int),
                    self.log().skip(start as int),
                    (i - first) as nat,
                );
                assert(self.log()[start + (i - first)] == PlatformOp::Read {
                    space: reg.address_space,
                    address,
                    width: w as u8,
                    value: data,
                });
                assert(self.log().take(start as int) =~= before.take(start as int));
                assert(i * w <= 64 * 64) by (nonlinear_arith)
                    requires
                        i <= 64,
                        w <= 64,
                ;
            }
            if i * w < 64 {
                let bits = u64_get_bits(data, 0, w as usize);
                proof {
                    Self::lemma_slot_fits(i, w);
                    assert(bits <= low_mask_u64(w)) by (bit_vector)
                        requires
                            bits == field_of_u64(data, 0, w),
                            w == 8 || w == 16 || w == 32 || w == 64,
                    ;
                }
                value = u64_set_bits(value, (i * w) as usize, (i * w + w) as usize, bits);
            }
            i = i + 1;
        }
        proof {
            let new_ops = self.log().skip(start as int);
            assert(new_ops.len() == access_count(reg));
            assert forall|k: int| 0 <= k < new_ops.len() implies #[trigger] is_read_at(
                new_ops[k],
                reg.address_space,
                slot_address(reg, (first_slot(reg) + k) as nat),
                access_width(reg),
            ) by {
                assert(new_ops[k] == self.log()[start + k]);
            }
        }
        Ok(value)
    }

    /// Stores `value` through the register at `reg`: one write per slot from the first slot that
    /// is not wholly inside the bit offset, each with that slot's bits of the value.
    pub fn write_address(&mut self, reg: GenericAddress, value: u64) -> (r: Result<
        (),
        AcpiSystemError,
    >)
        ensures
            match r {
                Ok(()) => {
                    &&& in_address_space(reg)
                    &&& final(self).log() == old(self).log() + write_ops(reg, value)
                },
                Err(e) => {
                    &&& !in_address_space(reg)
                    &&& e == AcpiSystemError::Unsupported
                    &&& final(self).log() == old(self).log()
                },
            },
    {
        let (w, count, first) = match Self::plan(&reg) {
            Some(plan) => plan,
            None => return Err(AcpiSystemError::Unsupported),
        };
        let ghost ops = write_ops(reg, value);
        let mut i: u64 = first;
        while i < count
            invariant
                first == first_slot(reg),
                count == slot_count(reg),
                w == access_width(reg),
                is_access_width(w as nat),
                in_address_space(reg),
                first <= i <= count <= 64,
                ops == write_ops(reg, value),
                self.log() == old(self).log() + ops.take(i - first),
            decreases count - i,
        {
            proof {
                Self::lemma_slot_address(reg, i as nat);
            }
            let address = reg.address + i * (w / 8);
            proof {
                assert(i * w <= 64 * 64) by (nonlinear_arith)
                    requires
                        i <= 64,
                        w <= 64,
                ;
                assert(0 <= low_mask_u64(w)) by (bit_vector);
            }
            let bits = if i * w < 64 {
                proof {
                    Self::lemma_slot_fits(i, w);
                }
                let lo = i * w;
                let field = u64_get_bits(value, lo as usize, (lo + w) as usize);
                proof {
                    assert(field <= low_mask_u64(w)) by (bit_vector)
                        requires
                            field == field_of_u64(value, lo, (lo + w) as u64),
                            lo + w <= 64,
                    ;
                }
                field
            } else {
                0
            };
            self.write_raw(reg.address_space, address, w as u8, bits);
            proof {
                assert(ops.take(i + 1 - first) =~= ops.take(i - first).push(ops[i - first]));
            }
            i = i + 1;
        }
        proof {
            assert(ops.take(count - first) =~= ops);
        }
        Ok(())
    }

    /// Whether every access made for `reg` lies in an address space that the platform serves.
    pub fn serves(reg: &GenericAddress) -> (r: bool)
        ensures
            r == in_address_space(*reg),
    {
        Self::plan(reg).is_some()
    }

    /// The access width, slot count and first slot of `reg`, or `None` when its accesses would
    /// leave the address spaces that the platform serves.
    fn plan(reg: &GenericAddress) -> (r: Option<(u64, u64, u64)>)
        ensures
            match r {
                Some((w, count, first)) => {
                    &&& in_address_space(*reg)
                    &&& w == access_width(*reg)
                    &&& is_access_width(w as nat)
                    &&& count == slot_count(*reg)
                    &&& first == first_slot(*reg)
                    &&& first <= count <= 64
                },
                None => !in_address_space(*reg),
            },
    {
        let w = access_bit_width(reg, reg.address, 64) as u64;
        let total = reg.bit_offset as u64 + reg.bit_width as u64;
        let count = (total + w - 1) / w;
        let first = reg.bit_offset as u64 / w;
        proof {
            Self::lemma_slot_bounds(reg.bit_offset as int, reg.bit_width as int, w as int);
        }
        let span = count * (w / 8);
        let limit: u64 = match reg.address_space {
            AddressSpace::SystemMemory => 0xFFFF_FFFF_FFFF_FFFF,
            AddressSpace::SystemIo => 0x1_0000,
            _ => return None,
        };
        if reg.address > limit || span > limit - reg.address {
            None
        } else {
            Some((w, count, first))
        }
    }

    proof fn lemma_slot_bounds(offset: int, width: int, w: int)
        requires
            0 <= offset <= 255,
            0 <= width <= 255,
            w == 8 || w == 16 || w == 32 || w == 64,
        ensures
            offset / w <= (offset + width + w - 1) / w <= 64,
            ((offset + width + w - 1) / w) * (w / 8) <= 512,
    {
        let c = (offset + width + w - 1) / w;
        if w == 8 {
            assert(c * 1 <= 512);
        } else if w == 16 {
            assert(c * 2 <= 512);
        } else if w == 32 {
            assert(c * 4 <= 512);
        } else {
            assert(c * 8 <= 512);
        }
    }

    proof fn lemma_slot_address(reg: GenericAddress, i: nat)
        requires
            in_address_space(reg),
            i < slot_count(reg),
            is_access_width(access_width(reg)),
        ensures
            raw_access_ok(
                reg.address_space,
                slot_address(reg, i) as u64,
                access_width(reg),
            ),
            slot_address(reg, i) < span_end(reg),
            0 <= slot_address(reg, i) <= 0xFFFF_FFFF_FFFF_FFFF,
    {
        let b = access_width(reg) / 8;
        assert(i * b < slot_count(reg) * b) by (nonlinear_arith)
            requires
                i < slot_count(reg),
                b > 0,
        ;
        assert(i * b >= 0) by (nonlinear_arith)
            requires
                b > 0,
        ;
    }

    proof fn lemma_slot_fits(i: u64, w: u64)
        requires
            is_access_width(w as nat),
            i * w < 64,
        ensures
            i * w + w <= 64,
    {
        assert(i * w + w <= 64) by (nonlinear_arith)
            requires
                w == 8 || w == 16 || w == 32 || w == 64,
                i * w < 64,
                i >= 0,
        ;
    }

    proof fn lemma_assembled_prefix(
        reg: GenericAddress,
        a: Seq<PlatformOp>,
        b: Seq<PlatformOp>,
        n: nat,
    )
        requires
            n <= a.len(),
            n <= b.len(),
            a.take(n as int) == b.take(n as int),
        ensures
            assembled(reg, a, n) == assembled(reg, b, n),
        decreases n,
    {
        if n > 0 {
            assert(a[n - 1] == a.take(n as int)[n - 1]);
            assert(b[n - 1] == b.take(n as int)[n - 1]);
            assert(a.take(n - 1) =~= a.take(n as int).take(n - 1));
            assert(b.take(n - 1) =~= b.take(n as int).take(n - 1));
            Self::lemma_assembled_prefix(reg, a, b, (n - 1) as nat);
        }
    }
}

} // verus!
