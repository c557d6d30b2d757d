//! The errors of the library.
use vstd::prelude::*;

verus! {

/// How a call into the AML interpreter failed.
#[derive(PartialEq, Eq, Debug)]
pub enum AmlFault {
    /// The named object is not in the namespace.
    ValueDoesNotExist,
    /// Any other failure, as the interpreter described it.
    Other(String),
}

#[derive(Debug)]
pub enum AcpiSystemError {
    AcpiError(acpi::AcpiError),
    AmlError(AmlFault),
    EnableTimeout,
    ModeTransitionNotSupported,
    InvalidSleepValues(u8, u8),
    InvalidSleepMethod(&'static str),
    MissingSleepMethod(&'static str),
    /// A register lies in an address space, or at an address, that the platform does not serve.
    Unsupported,
}

#[verifier::external_type_specification]
#[verifier::external_body]
pub struct ExAcpiError(acpi::AcpiError);

} // verus!
