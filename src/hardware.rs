//! The PM1 registers, and bit views over them.
use crate::address::{is_access_width, spec_access_bit_width, AddressSpace, GenericAddress};
use crate::bits::{
    bit_of, field_of_u64, low_mask_u32, low_mask_u64, u32_get_bit, u32_set_bit, u32_set_bits,
    with_bit, with_field, with_field_u64,
};
use crate::error::AcpiSystemError;
use crate::platform::{
    access_count, access_width, assembled, first_slot, op_value, slot_bits, slot_count,
    appended, extends, in_address_space, read_ops_ok, read_value, write_ops, Handler,
    Platform, PlatformOp,
};
use crate::{AcpiSystem, AmlInterpreter, FadtInfo};
use vstd::prelude::*;

verus! {

/// PM1 Status bits that a write must leave alone: BM_STS, which a written 1 would clear.
pub const PM1_STATUS_PRESERVED_BITS: u32 = 0x800;

/// A logical ACPI register, backed by an A register and an optional B register.
#[derive(Clone, Copy, PartialEq, Eq, Debug, Structural)]
pub enum AcpiRegister {
    Pm1Status,
    Pm1Control,
    Pm1Enable,
}

/// One bit of a logical register.
#[derive(Clone, Copy, PartialEq, Eq, Debug, Structural)]
pub struct AcpiBitRegister {
    pub parent: AcpiRegister,
    pub position: usize,
}

/// The bits `low .. high` of a logical register.
#[derive(Clone, Copy, PartialEq, Eq, Debug, Structural)]
pub struct AcpiBitRangeRegister {
    pub low: usize,
    pub high: usize,
}

impl AcpiBitRegister {
    pub fn new(parent: AcpiRegister, position: usize) -> (r: Self)
        ensures
            r == (AcpiBitRegister { parent, position }),
    {
        AcpiBitRegister { parent, position }
    }

    /// SCI_EN: the platform is in ACPI mode.
    pub fn sci_enable() -> (r: Self)
        ensures
            r == (AcpiBitRegister { parent: AcpiRegister::Pm1Control, position: 0 }),
    {
        AcpiBitRegister::new(AcpiRegister::Pm1Control, 0)
    }

    /// SLP_EN: writing 1 starts the sleep transition.
    pub fn sleep_enable() -> (r: Self)
        ensures
            r == (AcpiBitRegister { parent: AcpiRegister::Pm1Control, position: 13 }),
    {
        AcpiBitRegister::new(AcpiRegister::Pm1Control, 13)
    }

    /// WAK_STS: set by the platform on wake.
    pub fn wake_status() -> (r: Self)
        ensures
            r == (AcpiBitRegister { parent: AcpiRegister::Pm1Status, position: 15 }),
    {
        AcpiBitRegister::new(AcpiRegister::Pm1Status, 15)
    }

    /// The bit of `value` at this register's position.
    pub fn get_from_raw(&self, value: u32) -> (r: bool)
        requires
            self.position < 32,
        ensures
            r == bit_of(value, self.position as u32),
    {
        u32_get_bit(value, self.position)
    }

    /// `raw` with the bit at this register's position set to `value`.
    pub fn set_raw(&self, raw: u32, value: bool) -> (r: u32)
        requires
            self.position < 32,
        ensures
            r == with_bit(raw, self.position as u32, value),
    {
        u32_set_bit(raw, self.position, value)
    }
}

impl AcpiBitRangeRegister {
    /// SLP_TYP: the sleep type, bits 10 to 12 of PM1 Control.
    pub fn sleep_type() -> (r: Self)
        ensures
            r == (AcpiBitRangeRegister { low: 10, high: 13 }),
    {
        AcpiBitRangeRegister { low: 10, high: 13 }
    }

    /// `raw` with this register's bits replaced by `value`.
    pub fn set_raw(&self, raw: u32, value: u32) -> (r: u32)
        requires
            self.low < self.high <= 32,
            value <= low_mask_u32((self.high - self.low) as u32),
        ensures
            r == with_field(raw, self.low as u32, self.high as u32, value),
    {
        u32_set_bits(raw, self.low, self.high, value)
    }
}

/// Setting a bit and reading it back gives the bit that was set, and leaves every other bit as it
/// was.
pub proof fn lemma_bit_round_trip(raw: u32, position: u32, value: bool, other: u32)
    requires
        position < 32,
        other < 32,
    ensures
        bit_of(with_bit(raw, position, value), position) == value,
        other != position ==> bit_of(with_bit(raw, position, value), other) == bit_of(raw, other),
{
    assert(bit_of(with_bit(raw, position, value), position) == value) by (bit_vector)
        requires
            position < 32,
    ;
    assert(other != position ==> bit_of(with_bit(raw, position, value), other) == bit_of(
        raw,
        other,
    )) by (bit_vector)
        requires
            position < 32,
            other < 32,
    ;
}

/// Writing a sleep type of at most 7 into a PM1 Control value changes bits 10 to 12 only, and
/// they then hold the sleep type.
pub proof fn lemma_sleep_type_field(control: u32, sleep_type: u32)
    requires
        sleep_type <= 7,
    ensures
        with_field(control, 10, 13, sleep_type) & !0x1C00u32 == control & !0x1C00u32,
        (with_field(control, 10, 13, sleep_type) >> 10) & 7 == sleep_type,
{
    assert(low_mask_u32(3) == 7) by (bit_vector);
    assert(with_field(control, 10, 13, sleep_type) & !0x1C00u32 == control & !0x1C00u32
        && (with_field(control, 10, 13, sleep_type) >> 10) & 7 == sleep_type) by (bit_vector)
        requires
            sleep_type <= 7,
            low_mask_u32(3) == 7,
    ;
}

/// The status and enable halves of the PM1 event blocks.
#[derive(Clone, Copy, PartialEq, Eq, Debug, Structural)]
pub struct Pm1Registers {
    pub pm1a_status: GenericAddress,
    pub pm1b_status: Option<GenericAddress>,
    pub pm1a_enable: GenericAddress,
    pub pm1b_enable: Option<GenericAddress>,
}

/// The status half of a PM1 event block: its first half.
pub open spec fn status_half(block: GenericAddress) -> GenericAddress {
    GenericAddress { bit_width: block.bit_width / 2, ..block }
}

/// The enable half of a PM1 event block: its second half.
pub open spec fn enable_half(block: GenericAddress) -> GenericAddress {
    GenericAddress {
        bit_width: block.bit_width / 2,
        address: (block.address + block.bit_width / 16) as u64,
        ..block
    }
}

impl Pm1Registers {
    /// Splits the PM1 event blocks into status and enable registers; `None` when an enable half
    /// would lie past the end of the address range.
    pub fn from_event_blocks(a: GenericAddress, b: Option<GenericAddress>) -> (r: Option<Self>)
        ensures
            match r {
                Some(regs) => {
                    &&& a.address + a.bit_width / 16 <= u64::MAX
                    &&& regs.pm1a_status == status_half(a)
                    &&& regs.pm1a_enable == enable_half(a)
                    &&& match b {
                        Some(b) => {
                            &&& b.address + b.bit_width / 16 <= u64::MAX
                            &&& regs.pm1b_status == Some(status_half(b))
                            &&& regs.pm1b_enable == Some(enable_half(b))
                        },
                        None => regs.pm1b_status is None && regs.pm1b_enable is None,
                    }
                },
                None => a.address + a.bit_width / 16 > u64::MAX || (b is Some && b.unwrap().address
                    + b.unwrap().bit_width / 16 > u64::MAX),
            },
    {
        let (a_status, a_enable) = match Self::split(a) {
            Some(halves) => halves,
            None => return None,
        };
        match b {
            Some(b) => match Self::split(b) {
                Some((b_status, b_enable)) => Some(
                    Pm1Registers {
                        pm1a_status: a_status,
                        pm1b_status: Some(b_status),
                        pm1a_enable: a_enable,
                        pm1b_enable: Some(b_enable),
                    },
                ),
                None => None,
            },
            None => Some(
                Pm1Registers {
                    pm1a_status: a_status,
                    pm1b_status: None,
                    pm1a_enable: a_enable,
                    pm1b_enable: None,
                },
            ),
        }
    }

    fn split(block: GenericAddress) -> (r: Option<(GenericAddress, GenericAddress)>)
        ensures
            match r {
                Some((status, enable)) => {
                    &&& block.address + block.bit_width / 16 <= u64::MAX
                    &&& status == status_half(block)
                    &&& enable == enable_half(block)
                },
                None => block.address + block.bit_width / 16 > u64::MAX,
            },
    {
        let half = block.bit_width / 2;
        let offset = (block.bit_width / 16) as u64;
        if block.address > u64::MAX - offset {
            return None;
        }
        let status = GenericAddress { bit_width: half, ..block };
        let enable = GenericAddress { bit_width: half, address: block.address + offset, ..block };
        Some((status, enable))
    }
}

/// How many accesses reading or writing a register pair makes.
pub open spec fn pair_access_count(a: GenericAddress, b: Option<GenericAddress>) -> nat {
    access_count(a) + match b {
        Some(b) => access_count(b),
        None => 0,
    }
}

/// Whether every access to a register pair lies in a served address space.
pub open spec fn pair_in_space(a: GenericAddress, b: Option<GenericAddress>) -> bool {
    in_address_space(a) && (b is Some ==> in_address_space(b.unwrap()))
}

/// Whether `ops` are the reads that loading a register pair makes: A's, then B's.
pub open spec fn pair_reads_ok(
    a: GenericAddress,
    b: Option<GenericAddress>,
    ops: Seq<PlatformOp>,
) -> bool {
    &&& ops.len() == pair_access_count(a, b)
    &&& read_ops_ok(a, ops.take(access_count(a) as int))
    &&& b is Some ==> read_ops_ok(b.unwrap(), ops.skip(access_count(a) as int))
}

/// The value of a register pair whose reads returned what `ops` records: A's value or B's.
pub open spec fn pair_read_value(
    a: GenericAddress,
    b: Option<GenericAddress>,
    ops: Seq<PlatformOp>,
) -> u32 {
    let value_a = read_value(a, ops.take(access_count(a) as int)) as u32;
    match b {
        Some(b) => value_a | read_value(b, ops.skip(access_count(a) as int)) as u32,
        None => value_a,
    }
}

/// The writes that storing `value_a` in A and `value_b` in B makes.
pub open spec fn pair_write_ops(
    a: GenericAddress,
    b: Option<GenericAddress>,
    value_a: u32,
    value_b: u32,
) -> Seq<PlatformOp> {
    write_ops(a, value_a as u64) + match b {
        Some(b) => write_ops(b, value_b as u64),
        None => Seq::empty(),
    }
}

/// Writing a register pair makes as many accesses as reading it.
pub broadcast proof fn lemma_pair_write_ops_len(
    a: GenericAddress,
    b: Option<GenericAddress>,
    value_a: u32,
    value_b: u32,
)
    ensures
        (#[trigger] pair_write_ops(a, b, value_a, value_b)).len() == pair_access_count(a, b),
{
}

/// Whether `ops` set `bit` of the register pair `a`, `b` to `value`: the reads of the pair, then
/// the writes of the value read with that bit changed.
pub open spec fn pair_bit_set_ops(
    a: GenericAddress,
    b: Option<GenericAddress>,
    bit: AcpiBitRegister,
    value: bool,
    ops: Seq<PlatformOp>,
) -> bool {
    let n = pair_access_count(a, b) as int;
    let written = with_bit(pair_read_value(a, b, ops.take(n)), bit.position as u32, value);
    &&& n <= ops.len()
    &&& pair_reads_ok(a, b, ops.take(n))
    &&& ops.skip(n) == pair_write_ops(
        a,
        b,
        stored_value(bit.parent, written),
        stored_value(bit.parent, written),
    )
}

/// The value that a write of `value` to a logical register stores: PM1 Status keeps its
/// preserved bits at zero.
pub open spec fn stored_value(register: AcpiRegister, value: u32) -> u32 {
    match register {
        AcpiRegister::Pm1Status => value & !PM1_STATUS_PRESERVED_BITS,
        _ => value,
    }
}

impl<H: Handler, A: AmlInterpreter> AcpiSystem<H, A> {
    /// The platform calls made so far.
    pub open spec fn log(&self) -> Seq<PlatformOp> {
        self.platform.log()
    }

    /// Whether `self` differs from `other` at most in the platform's record.
    pub open spec fn same_setup(&self, other: &Self) -> bool {
        &&& self.fadt == other.fadt
        &&& self.pm1_registers == other.pm1_registers
        &&& self.aml_context == other.aml_context
        &&& self.gpe0_block == other.gpe0_block
        &&& self.gpe1_block == other.gpe1_block
        &&& self.event_handlers == other.event_handlers
    }

    /// Whether `self` differs from `other` at most in the platform's record and the AML
    /// interpreter's state.
    pub open spec fn same_hardware(&self, other: &Self) -> bool {
        &&& self.fadt == other.fadt
        &&& self.pm1_registers == other.pm1_registers
        &&& self.gpe0_block == other.gpe0_block
        &&& self.gpe1_block == other.gpe1_block
        &&& self.event_handlers == other.event_handlers
    }

    /// The A and B registers behind a logical register.
    pub open spec fn register_pair(&self, register: AcpiRegister) -> (
        GenericAddress,
        Option<GenericAddress>,
    ) {
        match register {
            AcpiRegister::Pm1Status => (
                self.pm1_registers.pm1a_status,
                self.pm1_registers.pm1b_status,
            ),
            AcpiRegister::Pm1Enable => (
                self.pm1_registers.pm1a_enable,
                self.pm1_registers.pm1b_enable,
            ),
            AcpiRegister::Pm1Control => (self.fadt.pm1a_control_block, self.fadt.pm1b_control_block),
        }
    }

    /// Whether `ops` are the reads of `register`, and the register then held `value`.
    pub open spec fn register_read(
        &self,
        register: AcpiRegister,
        ops: Seq<PlatformOp>,
        value: u32,
    ) -> bool {
        let (a, b) = self.register_pair(register);
        &&& pair_reads_ok(a, b, ops)
        &&& value == pair_read_value(a, b, ops)
    }

    /// Whether `ops` set `bit` to `value`: the reads of its register, then the writes of the value
    /// read with that bit changed.
    pub open spec fn bit_set_ops(&self, bit: AcpiBitRegister, value: bool, ops: Seq<PlatformOp>) -> bool {
        pair_bit_set_ops(
            self.register_pair(bit.parent).0,
            self.register_pair(bit.parent).1,
            bit,
            value,
            ops,
        )
    }

    fn pair(&self, register: AcpiRegister) -> (r: (GenericAddress, Option<GenericAddress>))
        ensures
            r == self.register_pair(register),
    {
        match register {
            AcpiRegister::Pm1Status => (
                self.pm1_registers.pm1a_status,
                self.pm1_registers.pm1b_status,
            ),
            AcpiRegister::Pm1Enable => (
                self.pm1_registers.pm1a_enable,
                self.pm1_registers.pm1b_enable,
            ),
            AcpiRegister::Pm1Control => (self.fadt.pm1a_control_block, self.fadt.pm1b_control_block),
        }
    }

    /// Reads a logical register: A, then B where there is one, the two values or'ed.
    pub fn read_register(&mut self, register: AcpiRegister) -> (r: Result<u32, AcpiSystemError>)
        ensures
            final(self).same_setup(old(self)),
            extends(old(self).log(), final(self).log()),
            match r {
                Ok(v) => {
                    &&& pair_in_space(old(self).register_pair(register).0, old(self).register_pair(register).1)
                    &&& old(self).register_read(
                        register,
                        appended(old(self).log(), final(self).log()),
                        v,
                    )
                },
                Err(e) => {
                    &&& !pair_in_space(old(self).register_pair(register).0, old(self).register_pair(register).1)
                    &&& e == AcpiSystemError::Unsupported
                    &&& final(self).log() == old(self).log()
                },
            },
    {
        let (a, b) = self.pair(register);
        Self::read_register_pair(&mut self.platform, a, b)
    }

    /// Writes a logical register: the same value to A and to B where there is one. PM1 Status
    /// keeps its preserved bits at zero; PM1 Control takes two values, see `write_pm1_control`.
    pub fn write_register(&mut self, register: AcpiRegister, value: u32) -> (r: Result<
        (),
        AcpiSystemError,
    >)
        requires
            register != AcpiRegister::Pm1Control,
        ensures
            final(self).same_setup(old(self)),
            extends(old(self).log(), final(self).log()),
            register == AcpiRegister::Pm1Status ==> !bit_of(stored_value(register, value), 11),
            match r {
                Ok(()) => {
                    &&& pair_in_space(old(self).register_pair(register).0, old(self).register_pair(register).1)
                    &&& final(self).log() == old(self).log() + pair_write_ops(
                        old(self).register_pair(register).0,
                        old(self).register_pair(register).1,
                        stored_value(register, value),
                        stored_value(register, value),
                    )
                },
                Err(e) => {
                    &&& !pair_in_space(old(self).register_pair(register).0, old(self).register_pair(register).1)
                    &&& e == AcpiSystemError::Unsupported
                    &&& final(self).log() == old(self).log()
                },
            },
    {
        let stored = match register {
            AcpiRegister::Pm1Status => value & !PM1_STATUS_PRESERVED_BITS,
            _ => value,
        };
        proof {
            let masked = value & !0x800u32;
            assert(!bit_of(masked, 11)) by (bit_vector)
                requires
                    masked == value & !0x800u32,
            ;
        }
        let (a, b) = self.pair(register);
        Self::write_register_pair(&mut self.platform, a, b, stored, stored)
    }

    /// Writes PM1 Control: `a_value` to A and `b_value` to B, since the two halves take their own
    /// sleep types.
    pub fn write_pm1_control(&mut self, a_value: u32, b_value: u32) -> (r: Result<
        (),
        AcpiSystemError,
    >)
        ensures
            final(self).same_setup(old(self)),
            extends(old(self).log(), final(self).log()),
            match r {
                Ok(()) => {
                    &&& pair_in_space(old(self).fadt.pm1a_control_block, old(self).fadt.pm1b_control_block)
                    &&& final(self).log() == old(self).log() + pair_write_ops(
                        old(self).fadt.pm1a_control_block,
                        old(self).fadt.pm1b_control_block,
                        a_value,
                        b_value,
                    )
                },
                Err(e) => {
                    &&& !pair_in_space(old(self).fadt.pm1a_control_block, old(self).fadt.pm1b_control_block)
                    &&& e == AcpiSystemError::Unsupported
                    &&& final(self).log() == old(self).log()
                },
            },
    {
        let a = self.fadt.pm1a_control_block;
        let b = self.fadt.pm1b_control_block;
        Self::write_register_pair(&mut self.platform, a, b, a_value, b_value)
    }

    pub(crate) fn pair_served(a: &GenericAddress, b: &Option<GenericAddress>) -> (r: bool)
        ensures
            r == pair_in_space(*a, *b),
    {
        Platform::<H>::serves(a) && match b {
            Some(b) => Platform::<H>::serves(b),
            None => true,
        }
    }

    fn write_register_pair(
        platform: &mut Platform<H>,
        a: GenericAddress,
        b: Option<GenericAddress>,
        value_a: u32,
        value_b: u32,
    ) -> (r: Result<(), AcpiSystemError>)
        ensures
            extends(old(platform).log(), final(platform).log()),
            match r {
                Ok(()) => {
                    &&& pair_in_space(a, b)
                    &&& final(platform).log() == old(platform).log() + pair_write_ops(
                        a,
                        b,
                        value_a,
                        value_b,
                    )
                },
                Err(e) => {
                    &&& !pair_in_space(a, b)
                    &&& e == AcpiSystemError::Unsupported
                    &&& final(platform).log() == old(platform).log()
                },
            },
    {
        let ghost log0 = platform.log();
        if !Self::pair_served(&a, &b) {
            proof {
                assert(log0.take(log0.len() as int) =~= log0);
            }
            return Err(AcpiSystemError::Unsupported);
        }
        if let Err(e) = platform.write_address(a, value_a as u64) {
            return Err(e);
        }
        let ghost log1 = platform.log();
        proof {
            assert(log1.take(log0.len() as int) =~= log0);
        }
        match b {
            Some(b) => {
                let r = platform.write_address(b, value_b as u64);
                proof {
                    assert(platform.log().take(log0.len() as int) =~= log0);
                    if r is Ok {
                        assert(platform.log() =~= log0 + pair_write_ops(a, Some(b), value_a, value_b));
                    }
                }
                r
            },
            None => {
                proof {
                    assert(platform.log() =~= log0 + pair_write_ops(a, b, value_a, value_b));
                }
                Ok(())
            },
        }
    }

    fn read_register_pair(
        platform: &mut Platform<H>,
        a: GenericAddress,
        b: Option<GenericAddress>,
    ) -> (r: Result<u32, AcpiSystemError>)
        ensures
            extends(old(platform).log(), final(platform).log()),
            match r {
                Ok(v) => {
                    &&& pair_in_space(a, b)
                    &&& pair_reads_ok(a, b, appended(old(platform).log(), final(platform).log()))
                    &&& v == pair_read_value(a, b, appended(old(platform).log(), final(platform).log()))
                },
                Err(e) => {
                    &&& !pair_in_space(a, b)
                    &&& e == AcpiSystemError::Unsupported
                    &&& final(platform).log() == old(platform).log()
                },
            },
    {
        let ghost log0 = platform.log();
        if !Self::pair_served(&a, &b) {
            proof {
                assert(log0.take(log0.len() as int) =~= log0);
            }
            return Err(AcpiSystemError::Unsupported);
        }
        let value_a = match platform.read_address(a) {
            Ok(v) => v as u32,
            Err(e) => return Err(e),
        };
        let ghost log1 = platform.log();
        let ghost ops_a = appended(log0, log1);
        match b {
            Some(b) => {
                let value_b = match platform.read_address(b) {
                    Ok(v) => v as u32,
                    Err(e) => return Err(e),
                };
                proof {
                    let log2 = platform.log();
                    let ops = appended(log0, log2);
                    let ops_b = appended(log1, log2);
                    assert(log2.take(log0.len() as int) =~= log0);
                    assert(ops.take(access_count(a) as int) =~= ops_a);
                    assert(ops.skip(access_count(a) as int) =~= ops_b);
                }
                Ok(value_a | value_b)
            },
            None => {
                proof {
                    assert(appended(log0, log1).take(access_count(a) as int) =~= ops_a);
                }
                Ok(value_a)
            },
        }
    }
}

impl AcpiBitRegister {
    /// Reads this bit of its logical register.
    pub fn get<H: Handler, A: AmlInterpreter>(&self, context: &mut AcpiSystem<H, A>) -> (r: Result<
        bool,
        AcpiSystemError,
    >)
        requires
            self.position < 32,
        ensures
            final(context).same_setup(old(context)),
            extends(old(context).log(), final(context).log()),
            match r {
                Ok(bit) => {
                    let (a, b) = old(context).register_pair(self.parent);
                    let ops = appended(old(context).log(), final(context).log());
                    &&& pair_in_space(a, b)
                    &&& pair_reads_ok(a, b, ops)
                    &&& bit == bit_of(pair_read_value(a, b, ops), self.position as u32)
                },
                Err(e) => {
                    &&& !pair_in_space(old(context).register_pair(self.parent).0, old(context).register_pair(self.parent).1)
                    &&& e == AcpiSystemError::Unsupported
                    &&& final(context).log() == old(context).log()
                },
            },
    {
        let value = context.read_register(self.parent)?;
        Ok(self.get_from_raw(value))
    }

    /// Sets this bit of its logical register to `value`, by reading the register and writing it
    /// back.
    pub fn set<H: Handler, A: AmlInterpreter>(
        &self,
        context: &mut AcpiSystem<H, A>,
        value: bool,
    ) -> (r: Result<(), AcpiSystemError>)
        requires
            self.position < 32,
            self.parent != AcpiRegister::Pm1Control,
        ensures
            final(context).same_setup(old(context)),
            extends(old(context).log(), final(context).log()),
            match r {
                Ok(()) => {
                    &&& pair_in_space(
                        old(context).register_pair(self.parent).0,
                        old(context).register_pair(self.parent).1,
                    )
                    &&& old(context).bit_set_ops(
                        *self,
                        value,
                        appended(old(context).log(), final(context).log()),
                    )
                },
                Err(e) => {
                    &&& !pair_in_space(old(context).register_pair(self.parent).0, old(context).register_pair(self.parent).1)
                    &&& e == AcpiSystemError::Unsupported
                    &&& final(context).log() == old(context).log()
                },
            },
    {
        let ghost log0 = context.log();
        let current = context.read_register(self.parent)?;
        let ghost log1 = context.log();
        let updated = self.set_raw(current, value);
        let r = context.write_register(self.parent, updated);
        proof {
            let (a, b) = old(context).register_pair(self.parent);
            let log2 = context.log();
            let ops = appended(log0, log2);
            assert(log2.take(log0.len() as int) =~= log0);
            if r is Ok {
                let n = pair_access_count(a, b) as int;
                assert(appended(log0, log1).len() == n);
                assert(ops.take(n) =~= appended(log0, log1));
                assert(ops.skip(n) =~= appended(log1, log2));
                assert(pair_read_value(a, b, ops.take(n)) == current);
                assert(context.register_pair(self.parent) == (a, b));
                assert(appended(log1, log2) == pair_write_ops(
                    a,
                    b,
                    stored_value(self.parent, updated),
                    stored_value(self.parent, updated),
                ));
            }
        }
        r
    }
}

/// Whether `ops`, the calls of one poll of SCI_EN, found the platform in ACPI mode: there is no
/// SMI command port, or PM1 Control was read with SCI_EN set.
pub open spec fn poll_finds_enabled(fadt: FadtInfo, ops: Seq<PlatformOp>) -> bool {
    let (a, b) = (fadt.pm1a_control_block, fadt.pm1b_control_block);
    fadt.smi_cmd_port == 0 || (pair_in_space(a, b) && bit_of(pair_read_value(a, b, ops), 0))
}

/// Whether `ops` are the calls of one poll of SCI_EN: the reads of PM1 Control, or nothing when
/// there is no SMI command port or PM1 Control is not served.
pub open spec fn poll_ops_ok(fadt: FadtInfo, ops: Seq<PlatformOp>) -> bool {
    let (a, b) = (fadt.pm1a_control_block, fadt.pm1b_control_block);
    if fadt.smi_cmd_port != 0 && pair_in_space(a, b) {
        pair_reads_ok(a, b, ops)
    } else {
        ops.len() == 0
    }
}

/// How many calls one poll of SCI_EN makes.
pub open spec fn poll_len(fadt: FadtInfo) -> nat {
    let (a, b) = (fadt.pm1a_control_block, fadt.pm1b_control_block);
    if fadt.smi_cmd_port != 0 && pair_in_space(a, b) {
        pair_access_count(a, b)
    } else {
        0
    }
}

/// Whether `ops` and `r` are what polling SCI_EN at most `attempts` times does: one poll; if it
/// finds ACPI mode, success and nothing more; otherwise a stall of `ACPI_ENABLE_POLL_STALL` and
/// the polls that are left. After the last poll that fails, a timeout.
pub open spec fn polls(
    fadt: FadtInfo,
    ops: Seq<PlatformOp>,
    attempts: nat,
    r: Result<(), AcpiSystemError>,
) -> bool
    decreases attempts,
{
    if attempts == 0 {
        ops.len() == 0 && r == Err::<(), AcpiSystemError>(AcpiSystemError::EnableTimeout)
    } else {
        let n = poll_len(fadt) as int;
        let poll = ops.take(n);
        &&& n <= ops.len()
        &&& poll_ops_ok(fadt, poll)
        &&& if poll_finds_enabled(fadt, poll) {
            ops.len() == n && r is Ok
        } else {
            &&& n < ops.len()
            &&& ops[n] == PlatformOp::Stall { microseconds: ACPI_ENABLE_POLL_STALL }
            &&& polls(fadt, ops.skip(n + 1), (attempts - 1) as nat, r)
        }
    }
}

/// Whether `ops` are `count` polls that each found SCI_EN clear, each followed by a stall.
pub open spec fn failed_polls(fadt: FadtInfo, ops: Seq<PlatformOp>, count: nat) -> bool
    decreases count,
{
    if count == 0 {
        ops.len() == 0
    } else {
        let n = poll_len(fadt) as int;
        &&& n < ops.len()
        &&& poll_ops_ok(fadt, ops.take(n))
        &&& !poll_finds_enabled(fadt, ops.take(n))
        &&& ops[n] == PlatformOp::Stall { microseconds: ACPI_ENABLE_POLL_STALL }
        &&& failed_polls(fadt, ops.skip(n + 1), (count - 1) as nat)
    }
}

proof fn lemma_failed_polls_push(
    fadt: FadtInfo,
    done: Seq<PlatformOp>,
    count: nat,
    poll: Seq<PlatformOp>,
)
    requires
        failed_polls(fadt, done, count),
        poll.len() == poll_len(fadt),
        poll_ops_ok(fadt, poll),
        !poll_finds_enabled(fadt, poll),
    ensures
        failed_polls(
            fadt,
            done + poll.push(PlatformOp::Stall { microseconds: ACPI_ENABLE_POLL_STALL }),
            count + 1,
        ),
    decreases count,
{
    let n = poll_len(fadt) as int;
    let x = poll.push(PlatformOp::Stall { microseconds: ACPI_ENABLE_POLL_STALL });
    let all = done + x;
    if count == 0 {
        assert(all =~= x);
        assert(x.take(n) =~= poll);
        assert(x.skip(n + 1) =~= Seq::<PlatformOp>::empty());
        assert(failed_polls(fadt, x.skip(n + 1), 0));
        assert(x[n] == PlatformOp::Stall { microseconds: ACPI_ENABLE_POLL_STALL });
    } else {
        lemma_failed_polls_push(fadt, done.skip(n + 1), (count - 1) as nat, poll);
        assert(all.take(n) =~= done.take(n));
        assert(all[n] == done[n]);
        assert(all.skip(n + 1) =~= done.skip(n + 1) + x);
        assert(failed_polls(fadt, all.skip(n + 1), count));
    }
}

proof fn lemma_polls_after_failures(
    fadt: FadtInfo,
    done: Seq<PlatformOp>,
    count: nat,
    rest: Seq<PlatformOp>,
    attempts: nat,
    r: Result<(), AcpiSystemError>,
)
    requires
        failed_polls(fadt, done, count),
        polls(fadt, rest, attempts, r),
    ensures
        polls(fadt, done + rest, count + attempts, r),
    decreases count,
{
    let n = poll_len(fadt) as int;
    let all = done + rest;
    if count == 0 {
        assert(all =~= rest);
    } else {
        lemma_polls_after_failures(fadt, done.skip(n + 1), (count - 1) as nat, rest, attempts, r);
        assert(all.take(n) =~= done.take(n));
        assert(all[n] == done[n]);
        assert(all.skip(n + 1) =~= done.skip(n + 1) + rest);
    }
}

/// How many times ACPI mode is polled for, at most.
pub const ACPI_ENABLE_ATTEMPTS: u32 = 3000;

/// The wait between two polls, in microseconds.
pub const ACPI_ENABLE_POLL_STALL: u64 = 1_000_000;

impl<H: Handler, A: AmlInterpreter> AcpiSystem<H, A> {
    /// Whether `ops` and `r` are what moving into ACPI mode does: nothing and an error when the
    /// FADT gives no transition or the SMI command port is no I/O port; otherwise the FADT's enable
    /// value written to the SMI command port, then polls with a stall after each that failed,
    /// ending in success, or in a timeout after `ACPI_ENABLE_ATTEMPTS` stalls.
    pub open spec fn acpi_mode_set(&self, ops: Seq<PlatformOp>, r: Result<(), AcpiSystemError>) -> bool {
        let fadt = self.fadt;
        let smi_write = PlatformOp::Write {
            space: crate::address::AddressSpace::SystemIo,
            address: fadt.smi_cmd_port as u64,
            width: 8,
            value: fadt.acpi_enable as u64,
        };
        if fadt.acpi_enable == 0 && fadt.acpi_disable == 0 {
            r == Err::<(), AcpiSystemError>(AcpiSystemError::ModeTransitionNotSupported) && ops.len()
                == 0
        } else if fadt.smi_cmd_port > 0xFFFF {
            r == Err::<(), AcpiSystemError>(AcpiSystemError::Unsupported) && ops.len() == 0
        } else {
            &&& ops.len() >= 1
            &&& ops[0] == smi_write
            &&& polls(fadt, ops.skip(1), ACPI_ENABLE_ATTEMPTS as nat, r)
        }
    }

    /// Whether the platform is in ACPI mode: SCI_EN is set, or there is no SMI command port to
    /// leave legacy mode through. A PM1 Control that cannot be read counts as not set.
    pub fn is_acpi_enabled(&mut self) -> (r: bool)
        ensures
            final(self).same_setup(old(self)),
            extends(old(self).log(), final(self).log()),
            poll_ops_ok(old(self).fadt, appended(old(self).log(), final(self).log())),
            appended(old(self).log(), final(self).log()).len() == poll_len(old(self).fadt),
            r == poll_finds_enabled(old(self).fadt, appended(old(self).log(), final(self).log())),
    {
        let ghost log0 = self.log();
        if self.fadt.smi_cmd_port == 0 {
            proof {
                assert(log0.take(log0.len() as int) =~= log0);
                assert(appended(log0, log0).len() == 0);
            }
            return true;
        }
        match AcpiBitRegister::sci_enable().get(self) {
            Ok(bit) => bit,
            Err(_) => false,
        }
    }

    /// Moves the platform into ACPI mode: writes the FADT's enable value to the SMI command port,
    /// then polls SCI_EN, with a stall between polls, up to `ACPI_ENABLE_ATTEMPTS` times. Leaving
    /// ACPI mode is not supported.
    pub fn set_acpi_mode(&mut self, acpi: bool) -> (r: Result<(), AcpiSystemError>)
        ensures
            final(self).same_setup(old(self)),
            extends(old(self).log(), final(self).log()),
            acpi ==> old(self).acpi_mode_set(appended(old(self).log(), final(self).log()), r),
            !acpi ==> r == Err::<(), AcpiSystemError>(AcpiSystemError::ModeTransitionNotSupported)
                && final(self).log() == old(self).log(),
    {
        let ghost log0 = self.log();
        proof {
            assert(log0.take(log0.len() as int) =~= log0);
            assert(appended(log0, log0).len() == 0);
        }
        if self.fadt.acpi_enable == 0 && self.fadt.acpi_disable == 0 {
            return Err(AcpiSystemError::ModeTransitionNotSupported);
        }
        if !acpi {
            return Err(AcpiSystemError::ModeTransitionNotSupported);
        }
        if self.fadt.smi_cmd_port > 0xFFFF {
            return Err(AcpiSystemError::Unsupported);
        }
        proof {
            let v = self.fadt.acpi_enable;
            assert((v as u64) <= low_mask_u64(8)) by (bit_vector);
        }
        self.platform.write_raw(
            crate::address::AddressSpace::SystemIo,
            self.fadt.smi_cmd_port as u64,
            8,
            self.fadt.acpi_enable as u64,
        );
        let ghost log1 = self.log();
        let ghost smi_write = PlatformOp::Write {
            space: crate::address::AddressSpace::SystemIo,
            address: self.fadt.smi_cmd_port as u64,
            width: 8,
            value: self.fadt.acpi_enable as u64,
        };
        proof {
            assert(appended(log0, log1) =~= seq![smi_write]);
            assert(log1.take(log0.len() as int) =~= log0);
            assert(appended(log1, log1) =~= Seq::<PlatformOp>::empty());
            assert(log1.take(log1.len() as int) =~= log1);
        }
        let mut attempts: u32 = ACPI_ENABLE_ATTEMPTS;
        while attempts != 0
            invariant
                self.same_setup(old(self)),
                extends(log1, self.log()),
                log0 == old(self).log(),
                log1 == log0.push(smi_write),
                smi_write == (PlatformOp::Write {
                    space: crate::address::AddressSpace::SystemIo,
                    address: old(self).fadt.smi_cmd_port as u64,
                    width: 8,
                    value: old(self).fadt.acpi_enable as u64,
                }),
                acpi,
                !(old(self).fadt.acpi_enable == 0 && old(self).fadt.acpi_disable == 0),
                old(self).fadt.smi_cmd_port <= 0xFFFF,
                attempts <= ACPI_ENABLE_ATTEMPTS,
                failed_polls(
                    old(self).fadt,
                    appended(log1, self.log()),
                    (ACPI_ENABLE_ATTEMPTS - attempts) as nat,
                ),
            decreases attempts,
        {
            let ghost before = self.log();
            let enabled = self.is_acpi_enabled();
            let ghost middle = self.log();
            proof {
                assert(middle.take(log1.len() as int) =~= log1);
            }
            if enabled {
                proof {
                    let poll = appended(before, middle);
                    let done = appended(log1, before);
                    assert(poll.take(poll_len(old(self).fadt) as int) =~= poll);
                    assert(polls(old(self).fadt, poll, attempts as nat, Ok(())));
                    lemma_polls_after_failures(
                        old(self).fadt,
                        done,
                        (ACPI_ENABLE_ATTEMPTS - attempts) as nat,
                        poll,
                        attempts as nat,
                        Ok(()),
                    );
                    assert(appended(log1, middle) =~= done + poll);
                    self.lemma_mode_ops(log0, middle, smi_write);
                }
                return Ok(());
            }
            self.platform.stall(ACPI_ENABLE_POLL_STALL);
            proof {
                let after = self.log();
                let poll = appended(before, middle);
                let done = appended(log1, before);
                lemma_failed_polls_push(
                    old(self).fadt,
                    done,
                    (ACPI_ENABLE_ATTEMPTS - attempts) as nat,
                    poll,
                );
                assert(appended(log1, after) =~= done + poll.push(
                    PlatformOp::Stall { microseconds: ACPI_ENABLE_POLL_STALL },
                ));
                assert(after.take(log1.len() as int) =~= log1);
            }
            attempts = attempts - 1;
        }
        proof {
            let now = self.log();
            let done = appended(log1, now);
            let empty = Seq::<PlatformOp>::empty();
            assert(polls(old(self).fadt, empty, 0, Err(AcpiSystemError::EnableTimeout)));
            lemma_polls_after_failures(
                old(self).fadt,
                done,
                ACPI_ENABLE_ATTEMPTS as nat,
                empty,
                0,
                Err(AcpiSystemError::EnableTimeout),
            );
            assert(done + empty =~= done);
            self.lemma_mode_ops(log0, now, smi_write);
        }
        Err(AcpiSystemError::EnableTimeout)
    }

    proof fn lemma_mode_ops(&self, log0: Seq<PlatformOp>, now: Seq<PlatformOp>, smi_write: PlatformOp)
        requires
            extends(log0.push(smi_write), now),
        ensures
            extends(log0, now),
            appended(log0, now).len() >= 1,
            appended(log0, now)[0] == smi_write,
            appended(log0, now).skip(1) == appended(log0.push(smi_write), now),
    {
        let log1 = log0.push(smi_write);
        assert(now.take(log0.len() as int) =~= log1.take(log0.len() as int));
        assert(log1.take(log0.len() as int) =~= log0);
        assert(now[log0.len() as int] == log1[log0.len() as int]);
        assert(appended(log0, now).skip(1) =~= appended(log1, now));
    }
}

/// A register that one access covers: no bit offset, and a width at which the platform is
/// accessed.
pub open spec fn single_access(reg: GenericAddress) -> bool {
    &&& reg.bit_offset == 0
    &&& is_access_width(reg.bit_width as nat)
    &&& reg.address_space == AddressSpace::SystemIo ==> reg.bit_width <= 32
}

/// Whether each read in `reads` returned what the write at the same place in `writes` wrote, as
/// ideal hardware does.
pub open spec fn answers(reads: Seq<PlatformOp>, writes: Seq<PlatformOp>) -> bool {
    &&& reads.len() == writes.len()
    &&& forall|k: int| 0 <= k < reads.len() ==> op_value(#[trigger] reads[k]) == op_value(writes[k])
}

/// The bits that a register pair of single-access registers holds.
pub open spec fn pair_mask(a: GenericAddress, b: Option<GenericAddress>) -> u32 {
    let mask_a = low_mask_u64(a.bit_width as u64) as u32;
    match b {
        Some(b) => mask_a | low_mask_u64(b.bit_width as u64) as u32,
        None => mask_a,
    }
}

/// When a register's access width is its bit width, the register is one access wide.
pub proof fn lemma_full_width_access(reg: GenericAddress)
    requires
        reg.bit_offset == 0,
        reg.bit_width == 8 || reg.bit_width == 16 || reg.bit_width == 32 || reg.bit_width == 64,
        reg.address_space == AddressSpace::SystemIo ==> reg.bit_width <= 32,
    ensures
        spec_access_bit_width(reg, reg.address, 64) == reg.bit_width,
{
}

proof fn lemma_single_access(reg: GenericAddress, value: u64)
    requires
        single_access(reg),
    ensures
        access_width(reg) == reg.bit_width,
        access_count(reg) == 1,
        first_slot(reg) == 0,
        write_ops(reg, value) =~= seq![
            PlatformOp::Write {
                space: reg.address_space,
                address: reg.address,
                width: reg.bit_width,
                value: value & low_mask_u64(reg.bit_width as u64),
            },
        ],
        forall|ops: Seq<PlatformOp>|
            ops.len() == 1 ==> #[trigger] read_value(reg, ops) == op_value(ops[0]) & low_mask_u64(
                reg.bit_width as u64,
            ),
{
    let w = reg.bit_width as u64;
    lemma_full_width_access(reg);
    assert(access_width(reg) == w);
    assert(slot_count(reg) == 1) by {
        assert((w + w - 1) as nat / (w as nat) == 1) by (nonlinear_arith)
            requires
                w == 8 || w == 16 || w == 32 || w == 64,
        ;
    }
    assert(first_slot(reg) == 0);
    assert(field_of_u64(value, 0, w) == value & low_mask_u64(w)) by (bit_vector);
    assert(slot_bits(reg, value, 0) == value & low_mask_u64(w));
    assert forall|ops: Seq<PlatformOp>| ops.len() == 1 implies #[trigger] read_value(reg, ops)
        == op_value(ops[0]) & low_mask_u64(w) by {
        let d = op_value(ops[0]);
        assert(with_field_u64(0, 0, w, field_of_u64(d, 0, w)) == d & low_mask_u64(w))
            by (bit_vector)
            requires
                w == 8 || w == 16 || w == 32 || w == 64,
        ;
        assert(assembled(reg, ops, 0) == 0);
    }
}

/// On ideal hardware, reading a pair of single-access registers after writing `value` to both
/// gives `value` back, cut to the bits that the registers hold: the value itself when it fits.
pub proof fn lemma_write_then_read(
    a: GenericAddress,
    b: Option<GenericAddress>,
    value: u32,
    reads: Seq<PlatformOp>,
)
    requires
        single_access(a),
        b is Some ==> single_access(b.unwrap()),
        pair_reads_ok(a, b, reads),
        answers(reads, pair_write_ops(a, b, value, value)),
    ensures
        pair_read_value(a, b, reads) == value & pair_mask(a, b),
        value & !pair_mask(a, b) == 0 ==> pair_read_value(a, b, reads) == value,
{
    let v = value as u64;
    let wa = a.bit_width as u64;
    lemma_single_access(a, v);
    let writes = pair_write_ops(a, b, value, value);
    let ra = reads.take(1);
    assert(ra.len() == 1);
    assert(op_value(ra[0]) == op_value(writes[0]));
    assert(op_value(writes[0]) == v & low_mask_u64(wa));
    let va = read_value(a, ra);
    assert(va == (v & low_mask_u64(wa)) & low_mask_u64(wa));
    match b {
        Some(bb) => {
            let wb = bb.bit_width as u64;
            lemma_single_access(bb, v);
            let rb = reads.skip(1);
            assert(rb.len() == 1);
            assert(op_value(rb[0]) == op_value(reads[1]));
            assert(op_value(writes[1]) == v & low_mask_u64(wb));
            let vb = read_value(bb, rb);
            assert(vb == (v & low_mask_u64(wb)) & low_mask_u64(wb));
            assert(((((v & low_mask_u64(wa)) & low_mask_u64(wa)) as u32) | (((v & low_mask_u64(wb))
                & low_mask_u64(wb)) as u32)) == value & ((low_mask_u64(wa) as u32) | (low_mask_u64(
                wb,
            ) as u32))) by (bit_vector)
                requires
                    v == value as u64,
            ;
            assert(value & !((low_mask_u64(wa) as u32) | (low_mask_u64(wb) as u32)) == 0 ==> value
                & ((low_mask_u64(wa) as u32) | (low_mask_u64(wb) as u32)) == value) by (bit_vector);
        },
        None => {
            assert((((v & low_mask_u64(wa)) & low_mask_u64(wa)) as u32) == value & (low_mask_u64(
                wa,
            ) as u32)) by (bit_vector)
                requires
                    v == value as u64,
            ;
            assert(value & !(low_mask_u64(wa) as u32) == 0 ==> value & (low_mask_u64(wa) as u32)
                == value) by (bit_vector);
        },
    }
}

/// On ideal hardware, once an enable bit has been set by a read-modify-write, reading the PM1
/// Enable pair back finds the bit set, when the A register holds that bit.
pub proof fn lemma_enable_bit_reads_back(
    a: GenericAddress,
    b: Option<GenericAddress>,
    bit: AcpiBitRegister,
    ops: Seq<PlatformOp>,
    reads: Seq<PlatformOp>,
)
    requires
        single_access(a),
        b is Some ==> single_access(b.unwrap()),
        bit.parent == AcpiRegister::Pm1Enable,
        bit.position < 32,
        bit.position < a.bit_width,
        pair_bit_set_ops(a, b, bit, true, ops),
        pair_reads_ok(a, b, reads),
        answers(reads, ops.skip(pair_access_count(a, b) as int)),
    ensures
        bit_of(pair_read_value(a, b, reads), bit.position as u32),
{
    let n = pair_access_count(a, b) as int;
    let pos = bit.position as u32;
    let before = pair_read_value(a, b, ops.take(n));
    let written = with_bit(before, pos, true);
    lemma_write_then_read(a, b, written, reads);
    let wa = a.bit_width as u64;
    let ma = low_mask_u64(wa) as u32;
    assert(with_bit(written, pos, true) == written) by (bit_vector)
        requires
            written == with_bit(before, pos, true),
            pos < 64,
    ;
    match b {
        Some(bb) => {
            let mb = low_mask_u64(bb.bit_width as u64) as u32;
            assert(pos < wa ==> bit_of(written & (ma | mb), pos)) by (bit_vector)
                requires
                    ma == low_mask_u64(wa) as u32,
                    wa == 8 || wa == 16 || wa == 32 || wa == 64,
                    written == with_bit(written, pos, true),
                    pos < 32,
            ;
        },
        None => {
            assert(pos < wa ==> bit_of(written & ma, pos)) by (bit_vector)
                requires
                    ma == low_mask_u64(wa) as u32,
                    wa == 8 || wa == 16 || wa == 32 || wa == 64,
                    written == with_bit(written, pos, true),
                    pos < 32,
            ;
        },
    }
}

} // verus!
