//! Fixed events, GPE blocks, and the dispatch of the SCI.
use crate::address::{spec_access_bit_width, AccessSize, AddressSpace, GenericAddress};
use crate::bits::{bit_of, field_of_u64};
use crate::error::AcpiSystemError;
use crate::hardware::{
    pair_access_count, pair_bit_set_ops, pair_in_space, pair_read_value, pair_reads_ok,
    AcpiBitRegister, AcpiRegister,
};
use crate::platform::{
    access_count, access_width, appended, extends, first_slot, in_address_space, slot_bits,
    slot_count, span_end, write_ops, Handler, PlatformOp,
};
use crate::sleep::AcpiSleepState;
use crate::aml::AmlCall;
use crate::{AcpiSystem, AmlInterpreter, FadtInfo};
use vstd::prelude::*;

verus! {

/// How many GPEs one GPE register holds.
pub const GPE_REGISTER_WIDTH: usize = 8;

/// What a fixed-event handler asks the subsystem to do next.
#[derive(Clone, Copy, Debug, PartialEq, Eq, Structural)]
pub enum EventAction {
    Nothing,
    EnterSleepState(AcpiSleepState),
}

impl Default for EventAction {
    fn default() -> (r: Self)
        ensures
            r == EventAction::Nothing,
    {
        EventAction::Nothing
    }
}

/// A handler of a fixed event. It sees the FADT and returns what should happen next.
pub trait EventHandler {
    fn handle(&self, fadt: &FadtInfo) -> EventAction;
}

/// The slot of a fixed event in the handler table.
#[derive(Clone, Copy, Debug, PartialEq, Eq, Structural)]
pub enum EventHandlerId {
    Timer,
    GlobalLock,
    PowerButton,
    SleepButton,
    Rtc,
}

impl EventHandlerId {
    /// The position of this id in the handler table, which is also the order of dispatch.
    pub open spec fn spec_index(self) -> nat {
        match self {
            EventHandlerId::Timer => 0,
            EventHandlerId::GlobalLock => 1,
            EventHandlerId::PowerButton => 2,
            EventHandlerId::SleepButton => 3,
            EventHandlerId::Rtc => 4,
        }
    }

    /// The bit of the event in PM1 Status and PM1 Enable.
    pub open spec fn spec_bit(self) -> usize {
        match self {
            EventHandlerId::Timer => 0,
            EventHandlerId::GlobalLock => 5,
            EventHandlerId::PowerButton => 8,
            EventHandlerId::SleepButton => 9,
            EventHandlerId::Rtc => 10,
        }
    }

    /// The id at position `i` of the handler table.
    pub open spec fn spec_at(i: nat) -> EventHandlerId {
        if i == 0 {
            EventHandlerId::Timer
        } else if i == 1 {
            EventHandlerId::GlobalLock
        } else if i == 2 {
            EventHandlerId::PowerButton
        } else if i == 3 {
            EventHandlerId::SleepButton
        } else {
            EventHandlerId::Rtc
        }
    }

    pub fn index(&self) -> (r: usize)
        ensures
            r == self.spec_index(),
    {
        match self {
            EventHandlerId::Timer => 0,
            EventHandlerId::GlobalLock => 1,
            EventHandlerId::PowerButton => 2,
            EventHandlerId::SleepButton => 3,
            EventHandlerId::Rtc => 4,
        }
    }
}

/// The handler table: one optional handler per fixed event.
pub struct EventHandlers {
    pub timer: Option<Box<dyn EventHandler>>,
    pub global_lock: Option<Box<dyn EventHandler>>,
    pub power_button: Option<Box<dyn EventHandler>>,
    pub sleep_button: Option<Box<dyn EventHandler>>,
    pub rtc: Option<Box<dyn EventHandler>>,
}

impl EventHandlers {
    /// Whether a handler is installed for `id`.
    pub open spec fn has_handler(&self, id: EventHandlerId) -> bool {
        match id {
            EventHandlerId::Timer => self.timer is Some,
            EventHandlerId::GlobalLock => self.global_lock is Some,
            EventHandlerId::PowerButton => self.power_button is Some,
            EventHandlerId::SleepButton => self.sleep_button is Some,
            EventHandlerId::Rtc => self.rtc is Some,
        }
    }

    /// An empty table.
    pub fn new() -> (r: Self)
        ensures
            forall|id: EventHandlerId| !r.has_handler(id),
    {
        EventHandlers {
            timer: None,
            global_lock: None,
            power_button: None,
            sleep_button: None,
            rtc: None,
        }
    }

    /// The handler installed for `id`, if any.
    pub fn get(&self, id: EventHandlerId) -> (r: &Option<Box<dyn EventHandler>>)
        ensures
            r is Some <==> self.has_handler(id),
    {
        match id {
            EventHandlerId::Timer => &self.timer,
            EventHandlerId::GlobalLock => &self.global_lock,
            EventHandlerId::PowerButton => &self.power_button,
            EventHandlerId::SleepButton => &self.sleep_button,
            EventHandlerId::Rtc => &self.rtc,
        }
    }

    /// Installs `handler` for `id`, in place of any handler installed before.
    pub fn install(&mut self, id: EventHandlerId, handler: Box<dyn EventHandler>)
        ensures
            final(self).has_handler(id),
            forall|other: EventHandlerId|
                other != id ==> (final(self).has_handler(other) <==> old(self).has_handler(other)),
    {
        match id {
            EventHandlerId::Timer => self.timer = Some(handler),
            EventHandlerId::GlobalLock => self.global_lock = Some(handler),
            EventHandlerId::PowerButton => self.power_button = Some(handler),
            EventHandlerId::SleepButton => self.sleep_button = Some(handler),
            EventHandlerId::Rtc => self.rtc = Some(handler),
        }
    }
}

/// The number of fixed events.
pub const FIXED_EVENT_COUNT: usize = 5;

/// A fixed event: its enable and status bits, and the slot of its handler.
pub struct FixedEvent {
    pub name: &'static str,
    pub enable_register: AcpiBitRegister,
    pub status_register: AcpiBitRegister,
    pub handler_id: EventHandlerId,
}

impl FixedEvent {
    /// Whether this is the fixed event of `id`: its bit in PM1 Enable and in PM1 Status.
    pub open spec fn is_event_of(&self, id: EventHandlerId) -> bool {
        &&& self.handler_id == id
        &&& self.enable_register == AcpiBitRegister {
            parent: AcpiRegister::Pm1Enable,
            position: id.spec_bit(),
        }
        &&& self.status_register == AcpiBitRegister {
            parent: AcpiRegister::Pm1Status,
            position: id.spec_bit(),
        }
    }

    /// Whether this is one of the fixed events.
    pub open spec fn is_fixed_event(&self) -> bool {
        self.is_event_of(self.handler_id)
    }

    /// The fixed event of `id`.
    pub fn of(id: EventHandlerId) -> (r: FixedEvent)
        ensures
            r.is_event_of(id),
    {
        let (name, bit): (&'static str, usize) = match id {
            EventHandlerId::Timer => ("Timer", 0),
            EventHandlerId::GlobalLock => ("Global Lock", 5),
            EventHandlerId::PowerButton => ("Power Button", 8),
            EventHandlerId::SleepButton => ("Sleep Button", 9),
            EventHandlerId::Rtc => ("RTC", 10),
        };
        FixedEvent {
            name,
            enable_register: AcpiBitRegister::new(AcpiRegister::Pm1Enable, bit),
            status_register: AcpiBitRegister::new(AcpiRegister::Pm1Status, bit),
            handler_id: id,
        }
    }

    /// The fixed event at position `i` of the order of dispatch.
    pub fn at(i: usize) -> (r: FixedEvent)
        requires
            i < FIXED_EVENT_COUNT,
        ensures
            r.is_event_of(EventHandlerId::spec_at(i as nat)),
    {
        let id = if i == 0 {
            EventHandlerId::Timer
        } else if i == 1 {
            EventHandlerId::GlobalLock
        } else if i == 2 {
            EventHandlerId::PowerButton
        } else if i == 3 {
            EventHandlerId::SleepButton
        } else {
            EventHandlerId::Rtc
        };
        FixedEvent::of(id)
    }

    pub fn timer() -> (r: FixedEvent)
        ensures
            r.is_event_of(EventHandlerId::Timer),
    {
        FixedEvent::of(EventHandlerId::Timer)
    }

    pub fn global_lock() -> (r: FixedEvent)
        ensures
            r.is_event_of(EventHandlerId::GlobalLock),
    {
        FixedEvent::of(EventHandlerId::GlobalLock)
    }

    pub fn power_button() -> (r: FixedEvent)
        ensures
            r.is_event_of(EventHandlerId::PowerButton),
    {
        FixedEvent::of(EventHandlerId::PowerButton)
    }

    pub fn sleep_button() -> (r: FixedEvent)
        ensures
            r.is_event_of(EventHandlerId::SleepButton),
    {
        FixedEvent::of(EventHandlerId::SleepButton)
    }

    pub fn rtc() -> (r: FixedEvent)
        ensures
            r.is_event_of(EventHandlerId::Rtc),
    {
        FixedEvent::of(EventHandlerId::Rtc)
    }
}

/// A GPE status/enable register pair, and the number of its first GPE.
#[derive(Clone, Copy, Debug, PartialEq, Eq, Structural)]
pub struct GpeRegisterInfo {
    pub base_gpe_number: u16,
    pub enable_register: GenericAddress,
    pub status_register: GenericAddress,
}

/// One GPE and the register that holds it.
#[derive(Clone, Copy, Debug, PartialEq, Eq, Structural)]
pub struct GpeEventInfo {
    pub gpe_number: u16,
    pub register_index: usize,
}

/// A block of GPE registers.
pub struct GpeBlock {
    pub register_info: Vec<GpeRegisterInfo>,
    pub event_info: Vec<GpeEventInfo>,
    pub gpe_count: usize,
}

/// The status register of GPE register `i` of a block: the `i`-th byte.
pub open spec fn gpe_status_register(block: GenericAddress, i: nat) -> GenericAddress {
    GenericAddress {
        address_space: block.address_space,
        bit_width: 8,
        bit_offset: 0,
        access_size: AccessSize::Undefined,
        address: (block.address + i) as u64,
    }
}

/// The enable register of GPE register `i` of a block of `count` registers: the status bytes
/// come first, then the enable bytes.
pub open spec fn gpe_enable_register(block: GenericAddress, count: nat, i: nat) -> GenericAddress {
    GenericAddress {
        address_space: block.address_space,
        bit_width: 8,
        bit_offset: 0,
        access_size: AccessSize::Undefined,
        address: (block.address + count + i) as u64,
    }
}

/// The writes that set up a block of `count` GPE registers: for each register in turn, 0x00 to
/// its enable byte, which disables its GPEs, then 0xFF to its status byte, which clears them.
pub open spec fn gpe_init_ops(block: GenericAddress, count: nat) -> Seq<PlatformOp> {
    Seq::new(
        2 * count,
        |k: int|
            if k % 2 == 0 {
                PlatformOp::Write {
                    space: block.address_space,
                    address: (block.address + count + k / 2) as u64,
                    width: 8,
                    value: 0x00,
                }
            } else {
                PlatformOp::Write {
                    space: block.address_space,
                    address: (block.address + k / 2) as u64,
                    width: 8,
                    value: 0xFF,
                }
            },
    )
}

/// Whether the platform serves every byte of a block of `count` GPE registers.
pub open spec fn gpe_block_served(block: GenericAddress, count: nat) -> bool {
    count == 0 || match block.address_space {
        AddressSpace::SystemMemory => block.address + 2 * count <= 0xFFFF_FFFF_FFFF_FFFF,
        AddressSpace::SystemIo => block.address + 2 * count <= 0x1_0000,
        _ => false,
    }
}

/// Whether the platform serves every byte of a block of `count` GPE registers.
pub fn gpe_block_fits(block: &GenericAddress, count: usize) -> (r: bool)
    ensures
        r == gpe_block_served(*block, count as nat),
{
    if count == 0 {
        return true;
    }
    let limit: u64 = match block.address_space {
        AddressSpace::SystemMemory => 0xFFFF_FFFF_FFFF_FFFF,
        AddressSpace::SystemIo => 0x1_0000,
        _ => return false,
    };
    block.address <= limit && (limit - block.address) / 2 >= count as u64
}

impl GpeBlock {
    /// Whether this is the block of `count` registers at `block`, whose GPEs are numbered from
    /// `base`.
    pub open spec fn describes(&self, block: GenericAddress, count: nat, base: nat) -> bool {
        &&& self.gpe_count == 8 * count
        &&& self.register_info@.len() == count
        &&& self.event_info@.len() == 8 * count
        &&& forall|i: int|
            0 <= i < count ==> #[trigger] self.register_info@[i] == (GpeRegisterInfo {
                base_gpe_number: (base + 8 * i) as u16,
                enable_register: gpe_enable_register(block, count, i as nat),
                status_register: gpe_status_register(block, i as nat),
            })
        &&& forall|k: int|
            0 <= k < 8 * count ==> #[trigger] self.event_info@[k] == (GpeEventInfo {
                gpe_number: (base + k) as u16,
                register_index: (k / 8) as usize,
            })
    }

    /// The block's invariant: one event per GPE, each numbered from its register's base.
    pub open spec fn wf(&self) -> bool {
        &&& self.event_info@.len() == self.gpe_count
        &&& self.gpe_count == 8 * self.register_info@.len()
        &&& forall|k: int|
            0 <= k < self.event_info@.len() ==> {
                let e = #[trigger] self.event_info@[k];
                &&& e.register_index < self.register_info@.len()
                &&& e.gpe_number == self.register_info@[e.register_index as int].base_gpe_number
                    + k % 8
            }
    }
}

broadcast use {crate::platform::lemma_extends_trans, crate::hardware::lemma_pair_write_ops_len};

/// A byte register is accessed with a single byte-wide access.
proof fn lemma_byte_register(reg: GenericAddress, value: u64)
    requires
        reg.bit_width == 8,
        reg.bit_offset == 0,
    ensures
        access_width(reg) == 8,
        access_count(reg) == 1,
        in_address_space(reg) <==> match reg.address_space {
            AddressSpace::SystemMemory => reg.address + 1 <= 0xFFFF_FFFF_FFFF_FFFF,
            AddressSpace::SystemIo => reg.address + 1 <= 0x1_0000,
            _ => false,
        },
        write_ops(reg, value) == seq![
            PlatformOp::Write {
                space: reg.address_space,
                address: reg.address,
                width: 8,
                value: value & 0xFF,
            },
        ],
{
    assert(spec_access_bit_width(reg, reg.address, 64) == 8);
    assert(access_width(reg) == 8);
    assert((reg.bit_offset + reg.bit_width + access_width(reg) - 1) as nat == 15);
    assert(15nat / 8 == 1) by (nonlinear_arith);
    assert(slot_count(reg) == 1);
    assert(first_slot(reg) == 0);
    assert(span_end(reg) == reg.address + 1);
    assert(field_of_u64(value, 0, 8) == value & 0xFF) by (bit_vector);
    assert(slot_bits(reg, value, 0) == value & 0xFF);
    assert(write_ops(reg, value) =~= seq![
        PlatformOp::Write {
            space: reg.address_space,
            address: reg.address,
            width: 8,
            value: value & 0xFF,
        },
    ]);
}

impl<H: Handler, A: AmlInterpreter> AcpiSystem<H, A> {
    /// Sets up the block of `register_count` GPE registers at `block_address`: describes each
    /// register and its GPEs, numbered from `block_base_number`, and disables and clears them all.
    pub fn initialize_gpe_block(
        &mut self,
        block_address: GenericAddress,
        register_count: usize,
        block_base_number: u16,
    ) -> (r: Result<GpeBlock, AcpiSystemError>)
        requires
            block_base_number + 8 * register_count <= 0x1_0000,
        ensures
            final(self).same_setup(old(self)),
            match r {
                Ok(block) => {
                    &&& gpe_block_served(block_address, register_count as nat)
                    &&& final(self).log() == old(self).log() + gpe_init_ops(
                        block_address,
                        register_count as nat,
                    )
                    &&& block.describes(
                        block_address,
                        register_count as nat,
                        block_base_number as nat,
                    )
                    &&& block.wf()
                },
                Err(e) => {
                    &&& !gpe_block_served(block_address, register_count as nat)
                    &&& e == AcpiSystemError::Unsupported
                    &&& final(self).log() == old(self).log()
                },
            },
    {
        if !gpe_block_fits(&block_address, register_count) {
            return Err(AcpiSystemError::Unsupported);
        }
        let ghost ops = gpe_init_ops(block_address, register_count as nat);
        let ghost count = register_count as nat;
        let ghost base = block_base_number as nat;
        let mut register_info: Vec<GpeRegisterInfo> = Vec::new();
        let mut event_info: Vec<GpeEventInfo> = Vec::new();
        let gpe_count = register_count * GPE_REGISTER_WIDTH;
        let mut i: usize = 0;
        while i < register_count
            invariant
                self.same_setup(old(self)),
                gpe_block_served(block_address, count),
                count == register_count,
                base == block_base_number,
                base + 8 * count <= 0x1_0000,
                ops == gpe_init_ops(block_address, count),
                i <= register_count,
                self.log() == old(self).log() + ops.take(2 * i),
                register_info@.len() == i,
                event_info@.len() == 8 * i,
                forall|j: int|
                    0 <= j < i ==> #[trigger] register_info@[j] == (GpeRegisterInfo {
                        base_gpe_number: (base + 8 * j) as u16,
                        enable_register: gpe_enable_register(block_address, count, j as nat),
                        status_register: gpe_status_register(block_address, j as nat),
                    }),
                forall|k: int|
                    0 <= k < 8 * i ==> #[trigger] event_info@[k] == (GpeEventInfo {
                        gpe_number: (base + k) as u16,
                        register_index: (k / 8) as usize,
                    }),
            decreases register_count - i,
        {
            let base_gpe_number = block_base_number + (i * GPE_REGISTER_WIDTH) as u16;
            let status_register = GenericAddress {
                address: block_address.address + i as u64,
                address_space: block_address.address_space,
                bit_width: GPE_REGISTER_WIDTH as u8,
                bit_offset: 0,
                access_size: AccessSize::Undefined,
            };
            let enable_register = GenericAddress {
                address: block_address.address + i as u64 + register_count as u64,
                address_space: block_address.address_space,
                bit_width: GPE_REGISTER_WIDTH as u8,
                bit_offset: 0,
                access_size: AccessSize::Undefined,
            };
            let mut j: usize = 0;
            while j < GPE_REGISTER_WIDTH
                invariant
                    i < register_count,
                    base + 8 * count <= 0x1_0000,
                    count == register_count,
                    base == block_base_number,
                    base_gpe_number == base + 8 * i,
                    j <= GPE_REGISTER_WIDTH,
                    event_info@.len() == 8 * i + j,
                    forall|k: int|
                        0 <= k < 8 * i + j ==> #[trigger] event_info@[k] == (GpeEventInfo {
                            gpe_number: (base + k) as u16,
                            register_index: (k / 8) as usize,
                        }),
                decreases GPE_REGISTER_WIDTH - j,
            {
                event_info.push(
                    GpeEventInfo { gpe_number: base_gpe_number + j as u16, register_index: i },
                );
                j = j + 1;
            }
            proof {
                lemma_byte_register(enable_register, 0x00);
                lemma_byte_register(status_register, 0xFF);
                assert(0x00u64 & 0xFF == 0x00) by (bit_vector);
                assert(0xFFu64 & 0xFF == 0xFF) by (bit_vector);
            }
            let ghost log0 = self.log();
            // Disable every GPE of this register, then clear any that is pending.
            let r_enable = self.platform.write_address(enable_register, 0x00);
            let r_status = self.platform.write_address(status_register, 0xFF);
            proof {
                assert(r_enable is Ok);
                assert(r_status is Ok);
                assert(ops.take(2 * i + 2) =~= ops.take(2 * i) + seq![ops[2 * i], ops[2 * i + 1]]);
                assert(self.log() =~= old(self).log() + ops.take(2 * (i + 1)));
            }
            register_info.push(GpeRegisterInfo { base_gpe_number, status_register, enable_register });
            i = i + 1;
        }
        proof {
            assert(ops.take(2 * count as int) =~= ops);
        }
        let block = GpeBlock { register_info, event_info, gpe_count };
        proof {
            assert forall|k: int| 0 <= k < block.event_info@.len() implies {
                let e = #[trigger] block.event_info@[k];
                &&& e.register_index < block.register_info@.len()
                &&& e.gpe_number == block.register_info@[e.register_index as int].base_gpe_number
                    + k % 8
            } by {
                let idx = k / 8;
                assert(block.register_info@[idx].base_gpe_number == (base + 8 * idx) as u16);
            }
        }
        Ok(block)
    }

    /// Clears every fixed-event status bit that is set, by writing PM1 Status back with the value
    /// read from it.
    pub fn clear_fixed_events(&mut self) -> (r: Result<(), AcpiSystemError>)
        ensures
            final(self).same_setup(old(self)),
            extends(old(self).log(), final(self).log()),
            match r {
                Ok(()) => {
                    &&& pair_in_space(
                        old(self).register_pair(AcpiRegister::Pm1Status).0,
                        old(self).register_pair(AcpiRegister::Pm1Status).1,
                    )
                    &&& old(self).status_clear_ops(appended(old(self).log(), final(self).log()))
                },
                Err(e) => {
                    &&& !pair_in_space(
                        old(self).register_pair(AcpiRegister::Pm1Status).0,
                        old(self).register_pair(AcpiRegister::Pm1Status).1,
                    )
                    &&& e == AcpiSystemError::Unsupported
                    &&& final(self).log() == old(self).log()
                },
            },
    {
        let ghost l0 = self.log();
        let value = self.read_register(AcpiRegister::Pm1Status)?;
        let ghost l1 = self.log();
        let r = self.write_register(AcpiRegister::Pm1Status, value);
        proof {
            let l2 = self.log();
            let (a, b) = old(self).register_pair(AcpiRegister::Pm1Status);
            let n = pair_access_count(a, b) as int;
            let ops = appended(l0, l2);
            assert(l2.take(l0.len() as int) =~= l0);
            if r is Ok {
                assert(appended(l0, l1).len() == n);
                assert(ops.take(n) =~= appended(l0, l1));
                assert(ops.skip(n) =~= appended(l1, l2));
                assert(appended(l1, l2) =~= crate::hardware::pair_write_ops(
                    a,
                    b,
                    crate::hardware::stored_value(AcpiRegister::Pm1Status, value),
                    crate::hardware::stored_value(AcpiRegister::Pm1Status, value),
                ));
                assert(pair_read_value(a, b, ops.take(n)) == value);
                assert(self.register_pair(AcpiRegister::Pm1Status) == (a, b));
            }
        }
        r
    }

    /// Disables every fixed event, in the order of dispatch, by clearing its enable bit.
    pub fn disable_fixed_events(&mut self) -> (r: Result<(), AcpiSystemError>)
        ensures
            final(self).same_setup(old(self)),
            extends(old(self).log(), final(self).log()),
            match r {
                Ok(()) => {
                    &&& pair_in_space(
                        old(self).register_pair(AcpiRegister::Pm1Enable).0,
                        old(self).register_pair(AcpiRegister::Pm1Enable).1,
                    )
                    &&& enable_rounds(
                        old(self).register_pair(AcpiRegister::Pm1Enable).0,
                        old(self).register_pair(AcpiRegister::Pm1Enable).1,
                        appended(old(self).log(), final(self).log()),
                        FIXED_EVENT_COUNT as nat,
                        false,
                    )
                },
                Err(e) => {
                    &&& !pair_in_space(
                        old(self).register_pair(AcpiRegister::Pm1Enable).0,
                        old(self).register_pair(AcpiRegister::Pm1Enable).1,
                    )
                    &&& e == AcpiSystemError::Unsupported
                    &&& final(self).log() == old(self).log()
                },
            },
    {
        let ghost l0 = self.log();
        let ghost (a, b) = self.register_pair(AcpiRegister::Pm1Enable);
        proof {
            assert(l0.take(l0.len() as int) =~= l0);
            assert(appended(l0, l0) =~= Seq::<PlatformOp>::empty());
        }
        let mut i: usize = 0;
        while i < FIXED_EVENT_COUNT
            invariant
                self.same_setup(old(self)),
                l0 == old(self).log(),
                (a, b) == old(self).register_pair(AcpiRegister::Pm1Enable),
                i <= FIXED_EVENT_COUNT,
                extends(l0, self.log()),
                i > 0 ==> pair_in_space(a, b),
                i == 0 ==> self.log() == l0,
                enable_rounds(a, b, appended(l0, self.log()), i as nat, false),
            decreases FIXED_EVENT_COUNT - i,
        {
            let event = FixedEvent::at(i);
            let ghost before = self.log();
            event.enable_register.set(self, false)?;
            proof {
                let after = self.log();
                let ops = appended(l0, after);
                let round = appended(before, after);
                assert(round.len() == 2 * pair_access_count(a, b));
                assert(ops =~= appended(l0, before) + round);
                assert(ops.take(ops.len() - round.len()) =~= appended(l0, before));
                assert(ops.skip(ops.len() - round.len()) =~= round);
            }
            i = i + 1;
        }
        Ok(())
    }

    /// Installs the SCI handler on the FADT's SCI interrupt.
    pub fn install_sci_handler(&mut self) -> (r: Result<(), AcpiSystemError>)
        ensures
            final(self).same_setup(old(self)),
            final(self).log() == old(self).log().push(
                PlatformOp::InstallInterrupt { irq: old(self).fadt.sci_interrupt as u32, result: r },
            ),
    {
        let sci_interrupt = self.fadt.sci_interrupt as u32;
        self.platform.install_interrupt_handler(sci_interrupt)
    }

    /// Sets up the GPE blocks that the FADT gives: GPE0 numbered from 0, GPE1 from the FADT's
    /// GPE1 base. A block of `L` bytes holds `L / 2` registers.
    pub fn initialize_gpes(&mut self) -> (r: Result<(), AcpiSystemError>)
        ensures
            final(self).fadt == old(self).fadt,
            final(self).pm1_registers == old(self).pm1_registers,
            final(self).aml_context == old(self).aml_context,
            final(self).event_handlers == old(self).event_handlers,
            extends(old(self).log(), final(self).log()),
            r is Ok <==> old(self).fadt.gpe_blocks_served(),
            r is Err ==> r == Err::<(), AcpiSystemError>(AcpiSystemError::Unsupported),
            r is Ok ==> {
                &&& final(self).log() == old(self).log() + old(self).fadt.gpe_blocks_ops()
                &&& match old(self).fadt.gpe0_block {
                    Some(block) => final(self).gpe0_block is Some
                        && final(self).gpe0_block.unwrap().describes(
                        block,
                        gpe_register_count(block),
                        0,
                    ) && final(self).gpe0_block.unwrap().wf(),
                    None => final(self).gpe0_block == old(self).gpe0_block,
                }
                &&& match old(self).fadt.gpe1_block {
                    Some(block) => final(self).gpe1_block is Some
                        && final(self).gpe1_block.unwrap().describes(
                        block,
                        gpe_register_count(block),
                        old(self).fadt.gpe1_base as nat,
                    ) && final(self).gpe1_block.unwrap().wf(),
                    None => final(self).gpe1_block == old(self).gpe1_block,
                }
            },
    {
        let ghost l0 = self.log();
        proof {
            assert(l0.take(l0.len() as int) =~= l0);
        }
        if let Some(gpe0) = self.fadt.gpe0_block {
            let count = (gpe0.bit_width / 16) as usize;
            let block = self.initialize_gpe_block(gpe0, count, 0)?;
            self.gpe0_block = Some(block);
        }
        let ghost l1 = self.log();
        proof {
            assert(l1.take(l0.len() as int) =~= l0);
        }
        if let Some(gpe1) = self.fadt.gpe1_block {
            let count = (gpe1.bit_width / 16) as usize;
            let block = self.initialize_gpe_block(gpe1, count, self.fadt.gpe1_base as u16)?;
            self.gpe1_block = Some(block);
        }
        proof {
            let l2 = self.log();
            assert(l2.take(l0.len() as int) =~= l0);
            assert(l2 =~= l0 + old(self).fadt.gpe_blocks_ops());
        }
        Ok(())
    }

    /// Whether `ops` are what setting up events does: the fixed events disabled, the GPE blocks
    /// set up, then the SCI handler installed, which gave `result`.
    pub open spec fn event_init_ops(&self, ops: Seq<PlatformOp>, result: Result<(), AcpiSystemError>) -> bool {
        let (a, b) = self.register_pair(AcpiRegister::Pm1Enable);
        let n = 10 * pair_access_count(a, b) as int;
        &&& n <= ops.len()
        &&& enable_rounds(a, b, ops.take(n), FIXED_EVENT_COUNT as nat, false)
        &&& ops.skip(n) == self.fadt.gpe_blocks_ops().push(
            PlatformOp::InstallInterrupt { irq: self.fadt.sci_interrupt as u32, result },
        )
    }

    /// Whether the platform serves the PM1 Enable pair and every GPE block: what setting up
    /// events needs.
    pub open spec fn events_served(&self) -> bool {
        &&& pair_in_space(
            self.register_pair(AcpiRegister::Pm1Enable).0,
            self.register_pair(AcpiRegister::Pm1Enable).1,
        )
        &&& self.fadt.gpe_blocks_served()
    }

    /// Sets up events: disables the fixed events, sets up the GPE blocks, and installs the SCI
    /// handler.
    pub fn initialize_events(&mut self) -> (r: Result<(), AcpiSystemError>)
        ensures
            final(self).fadt == old(self).fadt,
            final(self).pm1_registers == old(self).pm1_registers,
            final(self).aml_context == old(self).aml_context,
            final(self).event_handlers == old(self).event_handlers,
            extends(old(self).log(), final(self).log()),
            !old(self).events_served() ==> r == Err::<(), AcpiSystemError>(
                AcpiSystemError::Unsupported,
            ) && final(self).log() == old(self).log(),
            old(self).events_served() ==> old(self).event_init_ops(
                appended(old(self).log(), final(self).log()),
                r,
            ),
    {
        let ghost l0 = self.log();
        proof {
            assert(l0.take(l0.len() as int) =~= l0);
        }
        let enable_a = self.pm1_registers.pm1a_enable;
        let enable_b = self.pm1_registers.pm1b_enable;
        if !Self::pair_served(&enable_a, &enable_b) || !self.gpe_blocks_fit() {
            return Err(AcpiSystemError::Unsupported);
        }
        let d = self.disable_fixed_events();
        proof {
            assert(d is Ok);
        }
        let ghost l1 = self.log();
        let g = self.initialize_gpes();
        proof {
            assert(g is Ok);
        }
        let ghost l2 = self.log();
        let r = self.install_sci_handler();
        proof {
            let l3 = self.log();
            let ops = appended(l0, l3);
            let (a, b) = old(self).register_pair(AcpiRegister::Pm1Enable);
            let n = 10 * pair_access_count(a, b) as int;
            lemma_enable_rounds_len(a, b, appended(l0, l1), FIXED_EVENT_COUNT as nat, false);
            assert(appended(l0, l1).len() == n);
            assert(l3.take(l0.len() as int) =~= l0);
            assert(ops.take(n) =~= appended(l0, l1));
            assert(ops.skip(n) =~= old(self).fadt.gpe_blocks_ops().push(
                PlatformOp::InstallInterrupt { irq: old(self).fadt.sci_interrupt as u32, result: r },
            ));
        }
        r
    }

    /// Whether the platform serves every GPE block that the FADT gives.
    fn gpe_blocks_fit(&self) -> (r: bool)
        ensures
            r == self.fadt.gpe_blocks_served(),
    {
        let fits0 = match self.fadt.gpe0_block {
            Some(block) => gpe_block_fits(&block, (block.bit_width / 16) as usize),
            None => true,
        };
        let fits1 = match self.fadt.gpe1_block {
            Some(block) => gpe_block_fits(&block, (block.bit_width / 16) as usize),
            None => true,
        };
        fits0 && fits1
    }
}

/// Whether fixed event `i` of the order of dispatch is pending: enabled in `enable` and set in
/// `status`.
pub open spec fn fixed_event_pending(status: u32, enable: u32, i: nat) -> bool {
    let bit = EventHandlerId::spec_at(i).spec_bit() as u32;
    bit_of(enable, bit) && bit_of(status, bit)
}

/// The status bit of fixed event `i` of the order of dispatch.
pub open spec fn status_bit_at(i: nat) -> AcpiBitRegister {
    AcpiBitRegister { parent: AcpiRegister::Pm1Status, position: EventHandlerId::spec_at(i).spec_bit() }
}

/// Whether the record `after` of AML calls continues the record `before`.
pub open spec fn calls_extend(before: Seq<AmlCall>, after: Seq<AmlCall>) -> bool {
    &&& before.len() <= after.len()
    &&& after.take(before.len() as int) == before
}

impl<H: Handler, A: AmlInterpreter> AcpiSystem<H, A> {
    /// Whether running `action` made the AML calls `calls` and the platform calls `ops` and gave
    /// `r`: nothing for `Nothing`; entering the sleep state for `EnterSleepState`.
    pub open spec fn action_ran(
        &self,
        action: EventAction,
        calls: Seq<AmlCall>,
        ops: Seq<PlatformOp>,
        r: Result<(), AcpiSystemError>,
    ) -> bool {
        match action {
            EventAction::Nothing => calls.len() == 0 && ops.len() == 0 && r is Ok,
            EventAction::EnterSleepState(state) => self.sleep_entered(state, calls, ops, r),
        }
    }

    /// Whether `ops` and `calls` are the dispatch of fixed event `i` of the order of dispatch,
    /// with PM1 Status and PM1 Enable read as `status` and `enable`: nothing when the event is not
    /// pending; otherwise its status bit set, then, when a handler is installed for it, the
    /// action that the handler returned, run.
    pub open spec fn event_dispatched(
        &self,
        status: u32,
        enable: u32,
        i: nat,
        ops: Seq<PlatformOp>,
        calls: Seq<AmlCall>,
    ) -> bool {
        let (sa, sb) = self.register_pair(AcpiRegister::Pm1Status);
        let n = 2 * pair_access_count(sa, sb) as int;
        if !fixed_event_pending(status, enable, i) {
            ops.len() == 0 && calls.len() == 0
        } else {
            &&& n <= ops.len()
            &&& self.bit_set_ops(status_bit_at(i), true, ops.take(n))
            &&& if self.event_handlers.has_handler(EventHandlerId::spec_at(i)) {
                exists|action: EventAction, r: Result<(), AcpiSystemError>|
                    #[trigger] self.action_ran(action, calls, ops.skip(n), r)
            } else {
                ops.len() == n && calls.len() == 0
            }
        }
    }

    /// Whether `ops` and `calls` are the dispatch, in order, of the first `count` fixed events.
    pub open spec fn events_dispatched(
        &self,
        status: u32,
        enable: u32,
        count: nat,
        ops: Seq<PlatformOp>,
        calls: Seq<AmlCall>,
    ) -> bool
        decreases count,
    {
        if count == 0 {
            ops.len() == 0 && calls.len() == 0
        } else {
            exists|j: int, m: int|
                #![trigger ops.take(j), calls.take(m)]
                0 <= j <= ops.len() && 0 <= m <= calls.len() && self.events_dispatched(
                    status,
                    enable,
                    (count - 1) as nat,
                    ops.take(j),
                    calls.take(m),
                ) && self.event_dispatched(
                    status,
                    enable,
                    (count - 1) as nat,
                    ops.skip(j),
                    calls.skip(m),
                )
        }
    }

    /// Whether `ops` and `calls` are what SCI dispatch does: PM1 Status read, PM1 Enable read,
    /// then every fixed event dispatched in order.
    pub open spec fn sci_dispatch_ops(&self, ops: Seq<PlatformOp>, calls: Seq<AmlCall>) -> bool {
        let (sa, sb) = self.register_pair(AcpiRegister::Pm1Status);
        let (ea, eb) = self.register_pair(AcpiRegister::Pm1Enable);
        let ns = pair_access_count(sa, sb) as int;
        let ne = pair_access_count(ea, eb) as int;
        let status = pair_read_value(sa, sb, ops.take(ns));
        let enable = pair_read_value(ea, eb, ops.subrange(ns, ns + ne));
        &&& ns + ne <= ops.len()
        &&& pair_reads_ok(sa, sb, ops.take(ns))
        &&& pair_reads_ok(ea, eb, ops.subrange(ns, ns + ne))
        &&& self.events_dispatched(
            status,
            enable,
            FIXED_EVENT_COUNT as nat,
            ops.skip(ns + ne),
            calls,
        )
    }

    /// Dispatches the pending fixed events: reads PM1 Status and PM1 Enable, then for each event
    /// in order that is both enabled and set, acknowledges it by writing 1 to its status bit and
    /// runs its handler, if one is installed, and then the action that the handler returns.
    /// Failures of the acknowledgement and of the action are ignored.
    pub fn handle_fixed_event_sci(&mut self) -> (r: Result<(), AcpiSystemError>)
        ensures
            final(self).same_hardware(old(self)),
            extends(old(self).log(), final(self).log()),
            calls_extend(old(self).aml_context.log(), final(self).aml_context.log()),
            ({
                let (sa, sb) = old(self).register_pair(AcpiRegister::Pm1Status);
                let (ea, eb) = old(self).register_pair(AcpiRegister::Pm1Enable);
                &&& r is Ok <==> pair_in_space(sa, sb) && pair_in_space(ea, eb)
                &&& r is Err ==> r == Err::<(), AcpiSystemError>(AcpiSystemError::Unsupported)
                    && final(self).aml_context.log() == old(self).aml_context.log()
                &&& r is Ok ==> old(self).sci_dispatch_ops(
                    appended(old(self).log(), final(self).log()),
                    final(self).aml_context.log().skip(old(self).aml_context.log().len() as int),
                )
            }),
    {
        let ghost l0 = self.log();
        let ghost c0 = self.aml_context.log();
        proof {
            assert(l0.take(l0.len() as int) =~= l0);
            assert(c0.take(c0.len() as int) =~= c0);
        }
        let fixed_sts = match self.read_register(AcpiRegister::Pm1Status) {
            Ok(v) => v,
            Err(e) => return Err(e),
        };
        let ghost l1 = self.log();
        let fixed_en = match self.read_register(AcpiRegister::Pm1Enable) {
            Ok(v) => v,
            Err(e) => {
                proof {
                    let (ea, eb) = old(self).register_pair(AcpiRegister::Pm1Enable);
                    assert(!pair_in_space(ea, eb));
                }
                return Err(e);
            },
        };
        let ghost l2 = self.log();
        proof {
            let (sa, sb) = old(self).register_pair(AcpiRegister::Pm1Status);
            let (ea, eb) = old(self).register_pair(AcpiRegister::Pm1Enable);
            let ns = pair_access_count(sa, sb) as int;
            let ne = pair_access_count(ea, eb) as int;
            let ops = appended(l0, l2);
            assert(l2.take(l0.len() as int) =~= l0);
            assert(ops.take(ns) =~= appended(l0, l1));
            assert(ops.subrange(ns, ns + ne) =~= appended(l1, l2));
            assert(l2.take(l2.len() as int) =~= l2);
            assert(appended(l2, l2) =~= Seq::<PlatformOp>::empty());
            assert(c0.skip(c0.len() as int) =~= Seq::<AmlCall>::empty());
        }
        let ghost (sa, sb) = old(self).register_pair(AcpiRegister::Pm1Status);
        let mut i: usize = 0;
        while i < FIXED_EVENT_COUNT
            invariant
                self.same_hardware(old(self)),
                extends(l2, self.log()),
                extends(l0, l2),
                calls_extend(c0, self.aml_context.log()),
                c0 == old(self).aml_context.log(),
                i <= FIXED_EVENT_COUNT,
                (sa, sb) == old(self).register_pair(AcpiRegister::Pm1Status),
                pair_in_space(sa, sb),
                old(self).events_dispatched(
                    fixed_sts,
                    fixed_en,
                    i as nat,
                    appended(l2, self.log()),
                    self.aml_context.log().skip(c0.len() as int),
                ),
            decreases FIXED_EVENT_COUNT - i,
        {
            let ghost start = self.log();
            let ghost c_start = self.aml_context.log();
            let event = FixedEvent::at(i);
            let pending = event.enable_register.get_from_raw(fixed_en)
                && event.status_register.get_from_raw(fixed_sts);
            proof {
                assert(pending == fixed_event_pending(fixed_sts, fixed_en, i as nat));
            }
            if pending {
                // Acknowledge the event by writing 1 to its status bit.
                let _ = event.status_register.set(self, true);
                let ghost acked = self.log();
                let action = match self.event_handlers.get(event.handler_id) {
                    Some(handler) => Some(handler.handle(&self.fadt)),
                    None => None,
                };
                proof {
                    assert(event.status_register == status_bit_at(i as nat));
                    assert(acked.take(start.len() as int) == start);
                }
                if let Some(action) = action {
                    let r = self.handle_event_action(action);
                    proof {
                        let now = self.log();
                        let n = 2 * pair_access_count(sa, sb) as int;
                        let seg = appended(start, now);
                        let cseg = self.aml_context.log().skip(c_start.len() as int);
                        assert(now.take(acked.len() as int) == acked);
                        assert(seg.take(n) =~= appended(start, acked));
                        assert(seg.skip(n) =~= appended(acked, now));
                        assert(old(self).action_ran(action, cseg, seg.skip(n), r));
                        assert(old(self).event_dispatched(fixed_sts, fixed_en, i as nat, seg, cseg));
                    }
                } else {
                    proof {
                        let n = 2 * pair_access_count(sa, sb) as int;
                        let seg = appended(start, acked);
                        assert(seg.take(n) =~= seg);
                        assert(self.aml_context.log().skip(c_start.len() as int) =~= Seq::<AmlCall>::empty());
                        assert(old(self).event_dispatched(
                            fixed_sts,
                            fixed_en,
                            i as nat,
                            seg,
                            self.aml_context.log().skip(c_start.len() as int),
                        ));
                    }
                }
            } else {
                proof {
                    assert(appended(start, start) =~= Seq::<PlatformOp>::empty());
                    assert(c_start.skip(c_start.len() as int) =~= Seq::<AmlCall>::empty());
                    assert(start.take(start.len() as int) =~= start);
                    assert(c_start.take(c_start.len() as int) =~= c_start);
                }
            }
            proof {
                let now = self.log();
                let c_now = self.aml_context.log();
                let prev = appended(l2, start);
                let seg = appended(start, now);
                let cprev = c_start.skip(c0.len() as int);
                let cseg = c_now.skip(c_start.len() as int);
                assert(now.take(start.len() as int) == start);
                assert(c_now.take(c_start.len() as int) == c_start);
                assert(now.take(l2.len() as int) =~= l2);
                assert(c_now.take(c0.len() as int) =~= c0);
                let all = appended(l2, now);
                let call_all = c_now.skip(c0.len() as int);
                assert(all =~= prev + seg);
                assert(call_all =~= cprev + cseg);
                assert(all.take(prev.len() as int) =~= prev);
                assert(all.skip(prev.len() as int) =~= seg);
                assert(call_all.take(cprev.len() as int) =~= cprev);
                assert(call_all.skip(cprev.len() as int) =~= cseg);
                assert(old(self).event_dispatched(fixed_sts, fixed_en, i as nat, seg, cseg));
            }
            i = i + 1;
        }
        proof {
            let l3 = self.log();
            let (ea, eb) = old(self).register_pair(AcpiRegister::Pm1Enable);
            let ns = pair_access_count(sa, sb) as int;
            let ne = pair_access_count(ea, eb) as int;
            let ops2 = appended(l0, l2);
            let ops3 = appended(l0, l3);
            assert(l3.take(l0.len() as int) =~= l0);
            assert(l3.take(l2.len() as int) == l2);
            assert(ops3.take(ns) =~= ops2.take(ns));
            assert(ops3.subrange(ns, ns + ne) =~= ops2.subrange(ns, ns + ne));
            assert(ops3.skip(ns + ne) =~= appended(l2, l3));
            assert(pair_read_value(sa, sb, ops3.take(ns)) == fixed_sts);
            assert(pair_read_value(ea, eb, ops3.subrange(ns, ns + ne)) == fixed_en);
        }
        Ok(())
    }
}

/// Whether `ops` are `count` rounds, one per fixed event in the order of dispatch, that each set
/// the event's enable bit, in the PM1 Enable pair `a`, `b`, to `value`.
pub open spec fn enable_rounds(
    a: GenericAddress,
    b: Option<GenericAddress>,
    ops: Seq<PlatformOp>,
    count: nat,
    value: bool,
) -> bool
    decreases count,
{
    if count == 0 {
        ops.len() == 0
    } else {
        let round = 2 * pair_access_count(a, b) as int;
        let id = EventHandlerId::spec_at((count - 1) as nat);
        &&& ops.len() >= round
        &&& enable_rounds(a, b, ops.take(ops.len() - round), (count - 1) as nat, value)
        &&& pair_bit_set_ops(
            a,
            b,
            AcpiBitRegister { parent: AcpiRegister::Pm1Enable, position: id.spec_bit() },
            value,
            ops.skip(ops.len() - round),
        )
    }
}

proof fn lemma_enable_rounds_len(
    a: GenericAddress,
    b: Option<GenericAddress>,
    ops: Seq<PlatformOp>,
    count: nat,
    value: bool,
)
    requires
        enable_rounds(a, b, ops, count, value),
    ensures
        ops.len() == count * 2 * pair_access_count(a, b),
    decreases count,
{
    let p = pair_access_count(a, b) as int;
    let c = count as int;
    if count > 0 {
        let round = 2 * p;
        lemma_enable_rounds_len(a, b, ops.take(ops.len() - round), (count - 1) as nat, value);
        assert(ops.take(ops.len() - round).len() == ops.len() - round);
        assert(c * 2 * p == (c - 1) * 2 * p + 2 * p) by (nonlinear_arith);
    } else {
        assert(0 * 2 * p == 0) by (nonlinear_arith);
    }
}

/// How many registers a GPE block holds: half its length in bytes.
pub open spec fn gpe_register_count(block: GenericAddress) -> nat {
    block.bit_width as nat / 16
}

impl FadtInfo {
    /// Whether the platform serves every GPE block that the FADT gives.
    pub open spec fn gpe_blocks_served(&self) -> bool {
        &&& self.gpe0_block is Some ==> gpe_block_served(
            self.gpe0_block.unwrap(),
            gpe_register_count(self.gpe0_block.unwrap()),
        )
        &&& self.gpe1_block is Some ==> gpe_block_served(
            self.gpe1_block.unwrap(),
            gpe_register_count(self.gpe1_block.unwrap()),
        )
    }

    /// The writes that setting up the FADT's GPE blocks makes: GPE0's, then GPE1's.
    pub open spec fn gpe_blocks_ops(&self) -> Seq<PlatformOp> {
        let ops0 = match self.gpe0_block {
            Some(block) => gpe_init_ops(block, gpe_register_count(block)),
            None => Seq::empty(),
        };
        let ops1 = match self.gpe1_block {
            Some(block) => gpe_init_ops(block, gpe_register_count(block)),
            None => Seq::empty(),
        };
        ops0 + ops1
    }
}

} // verus!
