//! Generic addresses and the choice of access width for them.
use vstd::prelude::*;

verus! {

/// The address space in which a register lives.
#[derive(Clone, Copy, PartialEq, Eq, Debug, Structural)]
pub enum AddressSpace {
    SystemMemory,
    SystemIo,
    PciConfigSpace,
    EmbeddedController,
    SMBus,
    SystemCmos,
    PciBarTarget,
    Ipmi,
    GeneralIo,
    GenericSerialBus,
    PlatformCommunicationsChannel,
    FunctionalFixedHardware,
    OemDefined(u8),
}

/// The access size that a generic address asks for.
#[derive(Clone, Copy, PartialEq, Eq, Debug, Structural)]
pub enum AccessSize {
    Undefined,
    ByteAccess,
    WordAccess,
    DWordAccess,
    QWordAccess,
}

/// A register location: address space, address, and the bit field of the register there.
#[derive(Clone, Copy, PartialEq, Eq, Debug, Structural)]
pub struct GenericAddress {
    pub address_space: AddressSpace,
    pub bit_width: u8,
    pub bit_offset: u8,
    pub access_size: AccessSize,
    pub address: u64,
}

/// A power of two from 1 to 512.
pub open spec fn is_small_power_of_two(n: nat) -> bool {
    n == 1 || n == 2 || n == 4 || n == 8 || n == 16 || n == 32 || n == 64 || n == 128 || n == 256
        || n == 512
}

/// A width in bits at which the platform can be accessed.
pub open spec fn is_access_width(w: nat) -> bool {
    w == 8 || w == 16 || w == 32 || w == 64
}

/// The least power of two, `p` or `p` doubled some times, that is at least `n`.
pub open spec fn power_of_two_from(n: nat, p: nat) -> nat
    decreases 2 * n - p,
    when p >= 1
{
    if p >= n {
        p
    } else {
        power_of_two_from(n, 2 * p)
    }
}

/// The least power of two that is at least `n`.
pub open spec fn next_power_of_two(n: nat) -> nat {
    power_of_two_from(n, 1)
}

/// `width` halved until the address is a multiple of its size in bytes (a byte always is).
pub open spec fn aligned_width(address: u64, width: nat) -> nat
    decreases width,
{
    if width <= 8 || address as nat % (width / 8) == 0 {
        width
    } else {
        aligned_width(address, width / 2)
    }
}

/// The width that a register's own description gives, before any cap.
pub open spec fn natural_access_width(reg: GenericAddress, address: u64) -> nat {
    if reg.bit_offset == 0 && reg.bit_width != 0 && is_small_power_of_two(reg.bit_width as nat)
        && reg.bit_width % 8 == 0 {
        reg.bit_width as nat
    } else {
        match reg.access_size {
            AccessSize::ByteAccess => 8,
            AccessSize::WordAccess => 16,
            AccessSize::DWordAccess => 32,
            AccessSize::QWordAccess => 64,
            AccessSize::Undefined => {
                let w = next_power_of_two(reg.bit_offset as nat + reg.bit_width as nat);
                if w < 8 {
                    8
                } else {
                    aligned_width(address, w)
                }
            },
        }
    }
}

/// The width of each access to a register: its natural width, at most 32 in I/O space, and at
/// most `maximum`.
pub open spec fn spec_access_bit_width(reg: GenericAddress, address: u64, maximum: u8) -> nat {
    let w = natural_access_width(reg, address);
    let capped = if reg.address_space == AddressSpace::SystemIo && w > 32 {
        32
    } else {
        w
    };
    if capped > maximum {
        maximum as nat
    } else {
        capped
    }
}

proof fn lemma_power_of_two_from(n: nat, p: nat)
    requires
        n <= 512,
        is_small_power_of_two(p),
    ensures
        is_small_power_of_two(power_of_two_from(n, p)),
        power_of_two_from(n, p) >= n,
        power_of_two_from(n, p) >= p,
    decreases 2 * n - p,
{
    if p < n {
        lemma_power_of_two_from(n, 2 * p);
    }
}

proof fn lemma_aligned_width(address: u64, w: nat)
    requires
        is_small_power_of_two(w),
        w >= 8,
    ensures
        is_small_power_of_two(aligned_width(address, w)),
        8 <= aligned_width(address, w) <= w,
    decreases w,
{
    if !(w <= 8 || address as nat % (w / 8) == 0) {
        lemma_aligned_width(address, w / 2);
    }
}

/// The least power of two that is at least `n`.
fn next_power_of_two_u32(n: u32) -> (r: u32)
    requires
        n <= 512,
    ensures
        r as nat == next_power_of_two(n as nat),
        is_small_power_of_two(r as nat),
{
    proof {
        lemma_power_of_two_from(n as nat, 1);
    }
    let mut p: u32 = 1;
    while p < n
        invariant
            n <= 512,
            is_small_power_of_two(p as nat),
            power_of_two_from(n as nat, p as nat) == next_power_of_two(n as nat),
        decreases 2 * n - p,
    {
        p = p * 2;
    }
    p
}

/// The width in bits of each platform access made for `register`.
pub fn access_bit_width(register: &GenericAddress, address: u64, maximum_width: u8) -> (r: u8)
    requires
        maximum_width >= 8,
    ensures
        r as nat == spec_access_bit_width(*register, address, maximum_width),
        r >= 8,
        maximum_width == 64 ==> is_access_width(r as nat),
        register.address_space == AddressSpace::SystemIo ==> r <= 32,
{
    let width: u32 = if register.bit_offset == 0 && register.bit_width != 0 && (
    register.bit_width == 8 || register.bit_width == 16 || register.bit_width == 32
        || register.bit_width == 64 || register.bit_width == 128) {
        register.bit_width as u32
    } else {
        match register.access_size {
            AccessSize::ByteAccess => 8,
            AccessSize::WordAccess => 16,
            AccessSize::DWordAccess => 32,
            AccessSize::QWordAccess => 64,
            AccessSize::Undefined => {
                let mut width = next_power_of_two_u32(
                    register.bit_offset as u32 + register.bit_width as u32,
                );
                if width < 8 {
                    width = 8;
                } else {
                    proof {
                        lemma_aligned_width(address, width as nat);
                    }
                    while address % (width / 8) as u64 != 0
                        invariant
                            is_small_power_of_two(width as nat),
                            width >= 8,
                            aligned_width(address, width as nat) == aligned_width(
                                address,
                                next_power_of_two(
                                    register.bit_offset as nat + register.bit_width as nat,
                                ),
                            ),
                        decreases width,
                    {
                        width = width / 2;
                    }
                }
                width
            },
        }
    };
    let capped: u32 = if register.address_space == AddressSpace::SystemIo && width > 32 {
        32
    } else {
        width
    };
    if capped > maximum_width as u32 {
        maximum_width
    } else {
        capped as u8
    }
}

} // verus!
