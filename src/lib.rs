//! The core of an ACPI subsystem: hardware registers, ACPI mode control, fixed events and GPE
//! blocks, and sleep-state transitions.
use vstd::prelude::*;

mod address;
mod aml;
mod bits;
mod error;
mod event;
mod hardware;
mod platform;
mod sleep;

pub use address::{access_bit_width, AccessSize, AddressSpace, GenericAddress};
pub use aml::{AmlCall, AmlInterpreter, AmlObject, AmlSession};
pub use error::{AcpiSystemError, AmlFault};
pub use event::{
    EventAction, EventHandler, EventHandlerId, EventHandlers, FixedEvent, GpeBlock, GpeEventInfo,
    GpeRegisterInfo, FIXED_EVENT_COUNT, GPE_REGISTER_WIDTH,
};
pub use hardware::{
    AcpiBitRangeRegister, AcpiBitRegister, AcpiRegister, Pm1Registers, PM1_STATUS_PRESERVED_BITS,
};
pub use platform::{Handler, Platform, PlatformOp};
pub use sleep::{optional_method_result, sleep_types_from_object, AcpiSleepState};

use hardware::{enable_half, pair_in_space, poll_finds_enabled, poll_len, poll_ops_ok, status_half};
use platform::{appended, extends, lemma_extends_trans};
use sleep::spec_optional_method;

verus! {

broadcast use lemma_extends_trans;

/// The interrupt model that the operating system reports to the firmware through `\_PIC`.
#[derive(Clone, Copy, Debug, PartialEq, Eq, Structural)]
pub enum AcpiInterruptMethod {
    Pic,
    Apic,
    SApic,
}

/// The fields of the FADT that this library reads.
#[derive(Clone, Copy, Debug, PartialEq, Eq, Structural)]
pub struct FadtInfo {
    pub sci_interrupt: u16,
    pub smi_cmd_port: u32,
    pub acpi_enable: u8,
    pub acpi_disable: u8,
    pub pm1a_event_block: GenericAddress,
    pub pm1b_event_block: Option<GenericAddress>,
    pub pm1a_control_block: GenericAddress,
    pub pm1b_control_block: Option<GenericAddress>,
    pub gpe0_block: Option<GenericAddress>,
    pub gpe1_block: Option<GenericAddress>,
    pub gpe1_base: u8,
}

/// The ACPI subsystem: the platform `H`, the AML interpreter `A`, and what was read from the FADT.
#[verifier::reject_recursive_types(H)]
#[verifier::reject_recursive_types(A)]
pub struct AcpiSystem<H: Handler, A: AmlInterpreter> {
    pub fadt: FadtInfo,
    pub pm1_registers: Pm1Registers,
    pub platform: Platform<H>,
    pub aml_context: AmlSession<A>,
    pub gpe0_block: Option<GpeBlock>,
    pub gpe1_block: Option<GpeBlock>,
    pub event_handlers: EventHandlers,
}

impl AcpiInterruptMethod {
    /// The argument of `\_PIC` for this model.
    pub open spec fn spec_value(self) -> u64 {
        match self {
            AcpiInterruptMethod::Pic => 0,
            AcpiInterruptMethod::Apic => 1,
            AcpiInterruptMethod::SApic => 2,
        }
    }

    pub fn value(&self) -> (r: u64)
        ensures
            r == self.spec_value(),
    {
        match self {
            AcpiInterruptMethod::Pic => 0,
            AcpiInterruptMethod::Apic => 1,
            AcpiInterruptMethod::SApic => 2,
        }
    }
}

/// What the installation of an interrupt handler returned.
pub open spec fn install_result(op: PlatformOp) -> Result<(), AcpiSystemError> {
    match op {
        PlatformOp::InstallInterrupt { result, .. } => result,
        _ => Ok(()),
    }
}

/// The bytes of a table, when there is one.
pub open spec fn stream_of(table: Option<&[u8]>) -> Option<Seq<u8>> {
    match table {
        Some(bytes) => Some(bytes@),
        None => None,
    }
}

/// The error that a failed AML call becomes.
pub open spec fn aml_failure(outcome: Result<(), AmlFault>) -> Result<(), AcpiSystemError> {
    match outcome {
        Ok(()) => Ok(()),
        Err(fault) => Err(AcpiSystemError::AmlError(fault)),
    }
}

/// The method that tells the firmware which interrupt model is in use.
pub const PATH_PIC: &'static str = "\\_PIC";

impl<H: Handler, A: AmlInterpreter> AcpiSystem<H, A> {
    /// Builds the subsystem from the FADT and an AML interpreter. No register is touched. Fails
    /// when the enable half of a PM1 event block would lie past the end of the address range.
    pub fn new(fadt: FadtInfo, aml_context: A) -> (r: Result<Self, AcpiSystemError>)
        ensures
            match r {
                Ok(system) => {
                    &&& system.fadt == fadt
                    &&& system.pm1_registers.pm1a_status == status_half(fadt.pm1a_event_block)
                    &&& system.pm1_registers.pm1a_enable == enable_half(fadt.pm1a_event_block)
                    &&& system.pm1_registers.pm1b_status == match fadt.pm1b_event_block {
                        Some(b) => Some(status_half(b)),
                        None => None,
                    }
                    &&& system.pm1_registers.pm1b_enable == match fadt.pm1b_event_block {
                        Some(b) => Some(enable_half(b)),
                        None => None,
                    }
                    &&& system.aml_context.inner() == aml_context
                    &&& system.aml_context.log() == Seq::<AmlCall>::empty()
                    &&& system.gpe0_block is None
                    &&& system.gpe1_block is None
                    &&& forall|id: EventHandlerId| !system.event_handlers.has_handler(id)
                    &&& system.log() == Seq::<PlatformOp>::empty()
                },
                Err(e) => {
                    &&& e == AcpiSystemError::Unsupported
                    &&& (fadt.pm1a_event_block.address + fadt.pm1a_event_block.bit_width / 16
                        > u64::MAX || (fadt.pm1b_event_block is Some
                        && fadt.pm1b_event_block.unwrap().address
                        + fadt.pm1b_event_block.unwrap().bit_width / 16 > u64::MAX))
                },
            },
    {
        let pm1_registers = match Pm1Registers::from_event_blocks(
            fadt.pm1a_event_block,
            fadt.pm1b_event_block,
        ) {
            Some(registers) => registers,
            None => return Err(AcpiSystemError::Unsupported),
        };
        let event_handlers = EventHandlers::new();
        Ok(
            AcpiSystem {
                fadt,
                pm1_registers,
                platform: Platform::new(),
                aml_context: AmlSession::new(aml_context),
                gpe0_block: None,
                gpe1_block: None,
                event_handlers,
            },
        )
    }

    /// Whether `ops` and `r` are what moving into ACPI mode unless already in it does: one poll of
    /// SCI_EN; if it finds ACPI mode, success and nothing more; otherwise the mode change.
    pub open spec fn acpi_enable_ops(&self, ops: Seq<PlatformOp>, r: Result<(), AcpiSystemError>) -> bool {
        let n = poll_len(self.fadt) as int;
        let poll = ops.take(n);
        &&& n <= ops.len()
        &&& poll_ops_ok(self.fadt, poll)
        &&& poll_finds_enabled(self.fadt, poll) ==> r is Ok && ops.len() == n
        &&& !poll_finds_enabled(self.fadt, poll) ==> self.acpi_mode_set(ops.skip(n), r)
    }

    /// Whether bringing the subsystem up made the platform calls `ops` and the AML calls `calls`
    /// and gave `r`, when moving into ACPI mode made the first `k` of `ops` and gave `enabled`.
    /// The steps run in order, and the first that fails ends the run with its error: moving into
    /// ACPI mode; parsing the DSDT, when there is one; setting up events; initializing the
    /// namespace's objects; telling `\_PIC` the interrupt model, which may be missing.
    pub open spec fn initialize_ran(
        &self,
        dsdt: Option<Seq<u8>>,
        interrupt_method: AcpiInterruptMethod,
        ops: Seq<PlatformOp>,
        calls: Seq<AmlCall>,
        k: int,
        enabled: Result<(), AcpiSystemError>,
        r: Result<(), AcpiSystemError>,
    ) -> bool {
        let rest = ops.skip(k);
        let first: int = if dsdt is Some {
            1
        } else {
            0
        };
        let installed = install_result(rest.last());
        &&& 0 <= k <= ops.len()
        &&& self.acpi_enable_ops(ops.take(k), enabled)
        &&& enabled is Err ==> r == enabled && k == ops.len() && calls.len() == 0
        &&& enabled is Ok ==> {
            &&& dsdt is Some ==> calls.len() >= 1 && aml::is_parse_of(calls[0], dsdt.unwrap())
            &&& dsdt is Some && aml::outcome(calls[0]) is Err ==> r == aml_failure(
                aml::outcome(calls[0]),
            ) && rest.len() == 0 && calls.len() == 1
            &&& (dsdt is None || aml::outcome(calls[0]) is Ok) ==> {
                &&& !self.events_served() ==> r == Err::<(), AcpiSystemError>(
                    AcpiSystemError::Unsupported,
                ) && rest.len() == 0 && calls.len() == first
                &&& self.events_served() ==> {
                    &&& self.event_init_ops(rest, installed)
                    &&& installed is Err ==> r == installed && calls.len() == first
                    &&& installed is Ok ==> {
                        &&& calls.len() >= first + 1
                        &&& calls[first] is InitializeObjects
                        &&& aml::outcome(calls[first]) is Err ==> r == aml_failure(
                            aml::outcome(calls[first]),
                        ) && calls.len() == first + 1
                        &&& aml::outcome(calls[first]) is Ok ==> {
                            &&& calls.len() == first + 2
                            &&& aml::is_invocation_of(
                                calls[first + 1],
                                PATH_PIC,
                                seq![interrupt_method.spec_value()],
                            )
                            &&& r == spec_optional_method(aml::outcome(calls[first + 1]))
                        }
                    }
                }
            }
        }
    }

    /// Brings the subsystem up: ACPI mode, the DSDT parsed into the namespace when one is given,
    /// the events set up, the namespace's objects initialized, and `\_PIC` told the interrupt
    /// model (a missing `\_PIC` is no error). The first step that fails ends it with its error.
    pub fn initialize(
        &mut self,
        dsdt: Option<&[u8]>,
        interrupt_method: AcpiInterruptMethod,
    ) -> (r: Result<(), AcpiSystemError>)
        ensures
            final(self).fadt == old(self).fadt,
            final(self).pm1_registers == old(self).pm1_registers,
            final(self).event_handlers == old(self).event_handlers,
            extends(old(self).log(), final(self).log()),
            old(self).aml_context.log().len() <= final(self).aml_context.log().len(),
            final(self).aml_context.log().take(old(self).aml_context.log().len() as int) == old(
                self,
            ).aml_context.log(),
            exists|k: int, enabled: Result<(), AcpiSystemError>|
                #[trigger] old(self).initialize_ran(
                    stream_of(dsdt),
                    interrupt_method,
                    appended(old(self).log(), final(self).log()),
                    final(self).aml_context.log().skip(old(self).aml_context.log().len() as int),
                    k,
                    enabled,
                    r,
                ),
    {
        let ghost l0 = self.log();
        let ghost c0 = self.aml_context.log();
        let ghost stream = stream_of(dsdt);
        proof {
            assert(c0.take(c0.len() as int) =~= c0);
        }
        let enabled = self.enable_acpi();
        let ghost l1 = self.log();
        let ghost k = (l1.len() - l0.len()) as int;
        proof {
            assert(appended(l0, l1).take(k) =~= appended(l0, l1));
            assert(self.aml_context.log().skip(c0.len() as int) =~= Seq::<AmlCall>::empty());
        }
        if let Err(e) = enabled {
            proof {
                assert(old(self).initialize_ran(stream, interrupt_method, appended(l0, l1),
                    Seq::<AmlCall>::empty(), k, enabled, Err(e)));
            }
            return Err(e);
        }
        if let Some(table) = dsdt {
            let parsed = self.aml_context.parse_table(table);
            if let Err(fault) = parsed {
                proof {
                    let c1 = self.aml_context.log();
                    assert(c1.take(c0.len() as int) =~= c0);
                    assert(c1.skip(c0.len() as int) =~= seq![c1.last()]);
                    assert(appended(l0, l1).skip(k) =~= Seq::<PlatformOp>::empty());
                    assert(self.log() == l1);
                    assert(old(self).initialize_ran(stream, interrupt_method, appended(l0, l1),
                        c1.skip(c0.len() as int), k, enabled, Err(AcpiSystemError::AmlError(fault))));
                }
                return Err(AcpiSystemError::AmlError(fault));
            }
        }
        let ghost c1 = self.aml_context.log();
        proof {
            assert(c1.take(c0.len() as int) =~= c0);
        }
        let events = self.initialize_events();
        let ghost l2 = self.log();
        proof {
            assert(l2.take(l0.len() as int) =~= l0);
            assert(appended(l0, l2).take(k) =~= appended(l0, l1));
            assert(appended(l0, l2).skip(k) =~= appended(l1, l2));
            if old(self).events_served() {
                let (ea, eb) = old(self).register_pair(AcpiRegister::Pm1Enable);
                let n = 10 * hardware::pair_access_count(ea, eb) as int;
                assert(appended(l1, l2).last() == appended(l1, l2).skip(n).last());
                assert(appended(l1, l2).last() == PlatformOp::InstallInterrupt {
                    irq: old(self).fadt.sci_interrupt as u32,
                    result: events,
                });
            }
        }
        if let Err(e) = events {
            proof {
                if dsdt is Some {
                    assert(c1.skip(c0.len() as int) =~= seq![c1.last()]);
                } else {
                    assert(c1.skip(c0.len() as int) =~= Seq::<AmlCall>::empty());
                }
                assert(old(self).initialize_ran(stream, interrupt_method, appended(l0, l2),
                    c1.skip(c0.len() as int), k, enabled, Err(e)));
            }
            return Err(e);
        }
        let objects = self.aml_context.initialize_objects();
        let ghost c2 = self.aml_context.log();
        if let Err(fault) = objects {
            proof {
                assert(c2.take(c0.len() as int) =~= c0);
                assert(self.log() == l2);
                if dsdt is Some {
                    assert(c2.skip(c0.len() as int) =~= seq![c1.last(), c2.last()]);
                } else {
                    assert(c2.skip(c0.len() as int) =~= seq![c2.last()]);
                }
                assert(old(self).initialize_ran(stream, interrupt_method, appended(l0, l2),
                    c2.skip(c0.len() as int), k, enabled, Err(AcpiSystemError::AmlError(fault))));
            }
            return Err(AcpiSystemError::AmlError(fault));
        }
        let r = self.configure_aml_interrupt_method(interrupt_method);
        proof {
            let c3 = self.aml_context.log();
            assert(c3.take(c0.len() as int) =~= c0);
            if dsdt is Some {
                assert(c3.skip(c0.len() as int) =~= seq![c1.last(), c2.last(), c3.last()]);
            } else {
                assert(c3.skip(c0.len() as int) =~= seq![c2.last(), c3.last()]);
            }
            assert(old(self).initialize_ran(stream, interrupt_method, appended(l0, l2),
                c3.skip(c0.len() as int), k, enabled, r));
        }
        r
    }

    /// Moves the platform into ACPI mode unless it is in it already.
    pub fn enable_acpi(&mut self) -> (r: Result<(), AcpiSystemError>)
        ensures
            final(self).same_setup(old(self)),
            extends(old(self).log(), final(self).log()),
            old(self).acpi_enable_ops(appended(old(self).log(), final(self).log()), r),
    {
        let ghost l0 = self.log();
        let state = self.is_acpi_enabled();
        let ghost l1 = self.log();
        proof {
            assert(appended(l0, l1).take(appended(l0, l1).len() as int) =~= appended(l0, l1));
        }
        if !state {
            let r = self.set_acpi_mode(true);
            proof {
                let l2 = self.log();
                let ops = appended(l0, l2);
                let k = poll_len(old(self).fadt) as int;
                assert(l2.take(l0.len() as int) =~= l0);
                assert(ops.take(k) =~= appended(l0, l1));
                assert(ops.skip(k) =~= appended(l1, l2));
            }
            r
        } else {
            Ok(())
        }
    }

    /// Installs `handler` for `event`, then sets the event's enable bit.
    pub fn enable_fixed_event(
        &mut self,
        event: &FixedEvent,
        handler: Box<dyn EventHandler>,
    ) -> (r: Result<(), AcpiSystemError>)
        requires
            event.is_fixed_event(),
        ensures
            final(self).fadt == old(self).fadt,
            final(self).pm1_registers == old(self).pm1_registers,
            final(self).aml_context == old(self).aml_context,
            final(self).gpe0_block == old(self).gpe0_block,
            final(self).gpe1_block == old(self).gpe1_block,
            final(self).event_handlers.has_handler(event.handler_id),
            forall|id: EventHandlerId|
                id != event.handler_id ==> (final(self).event_handlers.has_handler(id)
                    <==> old(self).event_handlers.has_handler(id)),
            extends(old(self).log(), final(self).log()),
            r is Ok <==> pair_in_space(
                old(self).register_pair(AcpiRegister::Pm1Enable).0,
                old(self).register_pair(AcpiRegister::Pm1Enable).1,
            ),
            r is Err ==> r == Err::<(), AcpiSystemError>(AcpiSystemError::Unsupported)
                && final(self).log() == old(self).log(),
            r is Ok ==> old(self).bit_set_ops(
                event.enable_register,
                true,
                appended(old(self).log(), final(self).log()),
            ),
    {
        self.event_handlers.install(event.handler_id, handler);
        event.enable_register.set(self, true)
    }

    /// Handles the SCI: dispatches the pending fixed events. Failures are dropped, since an
    /// interrupt handler has nobody to report them to.
    pub fn handle_sci(&mut self)
        ensures
            final(self).same_hardware(old(self)),
            extends(old(self).log(), final(self).log()),
            pair_in_space(
                old(self).register_pair(AcpiRegister::Pm1Status).0,
                old(self).register_pair(AcpiRegister::Pm1Status).1,
            ) && pair_in_space(
                old(self).register_pair(AcpiRegister::Pm1Enable).0,
                old(self).register_pair(AcpiRegister::Pm1Enable).1,
            ) ==> old(self).sci_dispatch_ops(
                appended(old(self).log(), final(self).log()),
                final(self).aml_context.log().skip(old(self).aml_context.log().len() as int),
            ),
    {
        let _ = self.handle_fixed_event_sci();
    }

    fn configure_aml_interrupt_method(&mut self, interrupt_method: AcpiInterruptMethod) -> (r:
        Result<(), AcpiSystemError>)
        ensures
            final(self).same_hardware(old(self)),
            final(self).log() == old(self).log(),
            ({
                let call = final(self).aml_context.log().last();
                &&& final(self).aml_context.log() == old(self).aml_context.log().push(call)
                &&& aml::is_invocation_of(call, PATH_PIC, seq![interrupt_method.spec_value()])
                &&& r == spec_optional_method(aml::outcome(call))
            }),
    {
        let args = vec![interrupt_method.value()];
        proof {
            assert(args@ =~= seq![interrupt_method.spec_value()]);
        }
        let outcome = self.aml_context.invoke_method(PATH_PIC, args);
        optional_method_result(outcome)
    }

    /// Carries out what a fixed-event handler asked for.
    pub fn handle_event_action(&mut self, action: EventAction) -> (r: Result<(), AcpiSystemError>)
        ensures
            final(self).same_hardware(old(self)),
            extends(old(self).log(), final(self).log()),
            action == EventAction::Nothing ==> r is Ok && final(self).log() == old(self).log()
                && final(self).aml_context == old(self).aml_context,
            match action {
                EventAction::EnterSleepState(state) => {
                    let before = old(self).aml_context.log();
                    let after = final(self).aml_context.log();
                    &&& before.len() <= after.len()
                    &&& after.take(before.len() as int) == before
                    &&& old(self).sleep_entered(
                        state,
                        after.skip(before.len() as int),
                        appended(old(self).log(), final(self).log()),
                        r,
                    )
                },
                EventAction::Nothing => true,
            },
    {
        match action {
            EventAction::Nothing => {
                proof {
                    let l = self.log();
                    assert(l.take(l.len() as int) =~= l);
                }
                Ok(())
            },
            EventAction::EnterSleepState(state) => self.enter_sleep_state(state),
        }
    }
}

} // verus!
