//! Sleep states and the transition into them.
use crate::bits::{with_bit, with_field};
use crate::error::{AcpiSystemError, AmlFault};
use crate::hardware::{
    pair_access_count, pair_read_value, pair_reads_ok, pair_write_ops, stored_value,
    AcpiBitRangeRegister, AcpiBitRegister, AcpiRegister,
};
use crate::platform::{appended, extends, lemma_extends_trans, Handler, PlatformOp};
use crate::aml::{evaluated, is_evaluation_of, is_invocation_of, outcome, AmlCall, AmlInterpreter, AmlObject};
use crate::AcpiSystem;
use vstd::prelude::*;

verus! {

/// A system sleep state.
#[derive(Clone, Copy, Debug, PartialEq, Eq, Structural)]
pub enum AcpiSleepState {
    S0,
    S1,
    S2,
    S3,
    S4,
    S5,
}

/// The method that prepares the platform for a sleep state.
pub const PATH_PREPARE_TO_SLEEP: &'static str = "\\_PTS";

/// The method that sets the system status indicator.
pub const PATH_SYSTEM_STATUS: &'static str = "\\_SI._SST";

impl AcpiSleepState {
    /// The number of the state: 0 for S0 up to 5 for S5.
    pub open spec fn spec_number(self) -> u64 {
        match self {
            AcpiSleepState::S0 => 0,
            AcpiSleepState::S1 => 1,
            AcpiSleepState::S2 => 2,
            AcpiSleepState::S3 => 3,
            AcpiSleepState::S4 => 4,
            AcpiSleepState::S5 => 5,
        }
    }

    /// The system status indicator for the state: working for S0, sleeping for S1 to S3, sleeping
    /// with the context saved for S4, and off for S5.
    pub open spec fn spec_status_indicator(self) -> u64 {
        match self {
            AcpiSleepState::S0 => 1,
            AcpiSleepState::S1 | AcpiSleepState::S2 | AcpiSleepState::S3 => 3,
            AcpiSleepState::S4 => 4,
            AcpiSleepState::S5 => 0,
        }
    }

    pub fn number(&self) -> (r: u64)
        ensures
            r == self.spec_number(),
    {
        match self {
            AcpiSleepState::S0 => 0,
            AcpiSleepState::S1 => 1,
            AcpiSleepState::S2 => 2,
            AcpiSleepState::S3 => 3,
            AcpiSleepState::S4 => 4,
            AcpiSleepState::S5 => 5,
        }
    }

    pub fn status_indicator(&self) -> (r: u64)
        ensures
            r == self.spec_status_indicator(),
    {
        match self {
            AcpiSleepState::S0 => 1,
            AcpiSleepState::S1 | AcpiSleepState::S2 | AcpiSleepState::S3 => 3,
            AcpiSleepState::S4 => 4,
            AcpiSleepState::S5 => 0,
        }
    }

    /// The namespace path of the `\_Sx` object that gives the state's sleep types.
    pub fn object_name(&self) -> (r: &'static str)
        ensures
            r == sleep_object_name(*self),
    {
        match self {
            AcpiSleepState::S0 => "\\_S0_",
            AcpiSleepState::S1 => "\\_S1_",
            AcpiSleepState::S2 => "\\_S2_",
            AcpiSleepState::S3 => "\\_S3_",
            AcpiSleepState::S4 => "\\_S4_",
            AcpiSleepState::S5 => "\\_S5_",
        }
    }
}

/// The namespace path of the `\_Sx` object of a sleep state.
pub open spec fn sleep_object_name(state: AcpiSleepState) -> &'static str {
    match state {
        AcpiSleepState::S0 => "\\_S0_",
        AcpiSleepState::S1 => "\\_S1_",
        AcpiSleepState::S2 => "\\_S2_",
        AcpiSleepState::S3 => "\\_S3_",
        AcpiSleepState::S4 => "\\_S4_",
        AcpiSleepState::S5 => "\\_S5_",
    }
}

/// The sleep types that the evaluation of the `\_Sx` object `name` gives: the low bytes of the
/// first two elements of its package. A missing object, another kind of object, a package of
/// fewer than two elements or an element without an integer value is an error.
pub open spec fn spec_sleep_types(
    name: &'static str,
    object: Result<AmlObject, AmlFault>,
) -> Result<(u8, u8), AcpiSystemError> {
    match object {
        Err(AmlFault::ValueDoesNotExist) => Err(AcpiSystemError::MissingSleepMethod(name)),
        Err(fault) => Err(AcpiSystemError::AmlError(fault)),
        Ok(AmlObject::Package(elements)) => {
            if elements@.len() >= 2 && elements@[0] is Some && elements@[1] is Some {
                Ok((elements@[0].unwrap() as u8, elements@[1].unwrap() as u8))
            } else {
                Err(AcpiSystemError::InvalidSleepMethod(name))
            }
        },
        Ok(AmlObject::Other) => Err(AcpiSystemError::InvalidSleepMethod(name)),
    }
}

/// The outcome of an optional method: a missing method is no error.
pub open spec fn spec_optional_method(outcome: Result<(), AmlFault>) -> Result<(), AcpiSystemError> {
    match outcome {
        Ok(()) => Ok(()),
        Err(AmlFault::ValueDoesNotExist) => Ok(()),
        Err(fault) => Err(AcpiSystemError::AmlError(fault)),
    }
}

/// Whether `calls` are the calls that preparing for `state` makes: the evaluation of its `\_Sx`
/// object, then, as long as nothing failed, `\_PTS` with the state's number and `\_SI._SST` with
/// its status indicator.
pub open spec fn preparation_calls(state: AcpiSleepState, calls: Seq<AmlCall>) -> bool {
    let types = spec_sleep_types(sleep_object_name(state), evaluated(calls[0]));
    &&& calls.len() >= 1
    &&& is_evaluation_of(calls[0], sleep_object_name(state))
    &&& types is Err ==> calls.len() == 1
    &&& types is Ok ==> calls.len() >= 2 && is_invocation_of(
        calls[1],
        PATH_PREPARE_TO_SLEEP,
        seq![state.spec_number()],
    )
    &&& types is Ok && spec_optional_method(outcome(calls[1])) is Err ==> calls.len() == 2
    &&& types is Ok && spec_optional_method(outcome(calls[1])) is Ok ==> calls.len() == 3
        && is_invocation_of(calls[2], PATH_SYSTEM_STATUS, seq![state.spec_status_indicator()])
}

/// What preparing for `state` gives, when its calls into the interpreter returned what `calls`
/// records: the sleep types, or the first error.
pub open spec fn spec_prepared(state: AcpiSleepState, calls: Seq<AmlCall>) -> Result<
    (u8, u8),
    AcpiSystemError,
> {
    match spec_sleep_types(sleep_object_name(state), evaluated(calls[0])) {
        Err(e) => Err(e),
        Ok(types) => match spec_optional_method(outcome(calls[1])) {
            Err(e) => Err(e),
            Ok(()) => match spec_optional_method(outcome(calls[2])) {
                Err(e) => Err(e),
                Ok(()) => Ok(types),
            },
        },
    }
}

/// The sleep types that the evaluation of the `\_Sx` object `name` gives.
pub fn sleep_types_from_object(
    name: &'static str,
    object: Result<AmlObject, AmlFault>,
) -> (r: Result<(u8, u8), AcpiSystemError>)
    ensures
        r == spec_sleep_types(name, object),
{
    match object {
        Err(AmlFault::ValueDoesNotExist) => Err(AcpiSystemError::MissingSleepMethod(name)),
        Err(fault) => Err(AcpiSystemError::AmlError(fault)),
        Ok(AmlObject::Package(elements)) => {
            if elements.len() >= 2 {
                match (elements[0], elements[1]) {
                    (Some(a), Some(b)) => Ok((a as u8, b as u8)),
                    _ => Err(AcpiSystemError::InvalidSleepMethod(name)),
                }
            } else {
                Err(AcpiSystemError::InvalidSleepMethod(name))
            }
        },
        Ok(AmlObject::Other) => Err(AcpiSystemError::InvalidSleepMethod(name)),
    }
}

/// The outcome of an optional method: a missing method is no error.
pub fn optional_method_result(outcome: Result<(), AmlFault>) -> (r: Result<(), AcpiSystemError>)
    ensures
        r == spec_optional_method(outcome),
{
    match outcome {
        Ok(()) => Ok(()),
        Err(AmlFault::ValueDoesNotExist) => Ok(()),
        Err(fault) => Err(AcpiSystemError::AmlError(fault)),
    }
}

broadcast use {lemma_extends_trans, crate::hardware::lemma_pair_write_ops_len};

impl<H: Handler, A: AmlInterpreter> AcpiSystem<H, A> {
    /// Whether `ops` read PM1 Status and wrote the value read back, which clears every status bit
    /// that was set.
    pub open spec fn status_clear_ops(&self, ops: Seq<PlatformOp>) -> bool {
        let (a, b) = self.register_pair(AcpiRegister::Pm1Status);
        let n = pair_access_count(a, b) as int;
        let value = pair_read_value(a, b, ops.take(n));
        &&& n <= ops.len()
        &&& pair_reads_ok(a, b, ops.take(n))
        &&& ops.skip(n) == pair_write_ops(
            a,
            b,
            stored_value(AcpiRegister::Pm1Status, value),
            stored_value(AcpiRegister::Pm1Status, value),
        )
    }

    /// Whether `ops` are the legacy sleep sequence with sleep types `a` and `b`: clear the status
    /// bits; set WAK_STS; read PM1 Control; write it with SLP_EN clear and each half's sleep type;
    /// flush the caches; write the same values with SLP_EN set; halt.
    pub open spec fn legacy_sleep_ops(&self, a: u8, b: u8, ops: Seq<PlatformOp>) -> bool {
        let (sa, sb) = self.register_pair(AcpiRegister::Pm1Status);
        let (ca, cb) = self.register_pair(AcpiRegister::Pm1Control);
        let ns = pair_access_count(sa, sb) as int;
        let nc = pair_access_count(ca, cb) as int;
        let reads = ops.subrange(4 * ns, 4 * ns + nc);
        let control = with_bit(pair_read_value(ca, cb, reads), 13, false);
        let type_a = with_field(control, 10, 13, a as u32);
        let type_b = with_field(control, 10, 13, b as u32);
        &&& ops.len() == 4 * ns + 3 * nc + 2
        &&& self.status_clear_ops(ops.subrange(0, 2 * ns))
        &&& self.bit_set_ops(
            AcpiBitRegister { parent: AcpiRegister::Pm1Status, position: 15 },
            true,
            ops.subrange(2 * ns, 4 * ns),
        )
        &&& pair_reads_ok(ca, cb, reads)
        &&& ops.subrange(4 * ns + nc, 4 * ns + 2 * nc) == pair_write_ops(ca, cb, type_a, type_b)
        &&& ops[4 * ns + 2 * nc] == PlatformOp::FlushCache
        &&& ops.subrange(4 * ns + 2 * nc + 1, 4 * ns + 3 * nc + 1) == pair_write_ops(
            ca,
            cb,
            with_bit(type_a, 13, true),
            with_bit(type_b, 13, true),
        )
        &&& ops[4 * ns + 3 * nc + 1] == PlatformOp::Halt
    }

    /// The sleep types of `state`, from its `\_Sx` object.
    fn sleep_type_data(&mut self, state: AcpiSleepState) -> (r: Result<(u8, u8), AcpiSystemError>)
        ensures
            final(self).same_hardware(old(self)),
            final(self).log() == old(self).log(),
            ({
                let calls = final(self).aml_context.log();
                let call = calls.last();
                &&& calls == old(self).aml_context.log().push(call)
                &&& is_evaluation_of(call, sleep_object_name(state))
                &&& r == spec_sleep_types(sleep_object_name(state), evaluated(call))
            }),
    {
        let name = state.object_name();
        let object = self.aml_context.evaluate(name);
        sleep_types_from_object(name, object)
    }

    /// Prepares the firmware for `state`: finds its sleep types, then invokes `\_PTS` with the
    /// state's number and `\_SI._SST` with its status indicator. Either method may be missing.
    /// No register is touched.
    pub fn prepare_sleep_state(&mut self, state: AcpiSleepState) -> (r: Result<
        (u8, u8),
        AcpiSystemError,
    >)
        ensures
            final(self).same_hardware(old(self)),
            final(self).log() == old(self).log(),
            ({
                let before = old(self).aml_context.log();
                let after = final(self).aml_context.log();
                let calls = after.skip(before.len() as int);
                &&& before.len() <= after.len()
                &&& after.take(before.len() as int) == before
                &&& preparation_calls(state, calls)
                &&& r == spec_prepared(state, calls)
            }),
    {
        let ghost before = self.aml_context.log();
        let sleep_types = self.sleep_type_data(state);
        let ghost after_evaluation = self.aml_context.log();
        proof {
            assert(after_evaluation.skip(before.len() as int) =~= seq![after_evaluation.last()]);
            assert(after_evaluation.take(before.len() as int) =~= before);
        }
        let sleep_types = match sleep_types {
            Ok(types) => types,
            Err(e) => return Err(e),
        };
        let pts_args = vec![state.number()];
        proof {
            assert(pts_args@ =~= seq![state.spec_number()]);
        }
        let pts = self.aml_context.invoke_method(PATH_PREPARE_TO_SLEEP, pts_args);
        let ghost after_pts = self.aml_context.log();
        proof {
            assert(after_pts.skip(before.len() as int) =~= seq![after_evaluation.last(), after_pts.last()]);
            assert(after_pts.take(before.len() as int) =~= before);
        }
        if let Err(e) = optional_method_result(pts) {
            return Err(e);
        }
        let sst_args = vec![state.status_indicator()];
        proof {
            assert(sst_args@ =~= seq![state.spec_status_indicator()]);
        }
        let sst = self.aml_context.invoke_method(PATH_SYSTEM_STATUS, sst_args);
        proof {
            let after = self.aml_context.log();
            assert(after.skip(before.len() as int) =~= seq![
                after_evaluation.last(),
                after_pts.last(),
                after.last(),
            ]);
            assert(after.take(before.len() as int) =~= before);
        }
        if let Err(e) = optional_method_result(sst) {
            return Err(e);
        }
        Ok(sleep_types)
    }

    /// The legacy sleep sequence, which ends by halting the processor. The halt does not return;
    /// the contract makes no promise of what follows it, only of the calls up to it.
    #[verifier::rlimit(60)]
    fn acpi_hw_legacy_sleep(&mut self, sleep_type_a: u8, sleep_type_b: u8) -> (r: Result<
        (),
        AcpiSystemError,
    >)
        requires
            sleep_type_a <= 7,
            sleep_type_b <= 7,
        ensures
            final(self).same_setup(old(self)),
            extends(old(self).log(), final(self).log()),
            ({
                let (sa, sb) = old(self).register_pair(AcpiRegister::Pm1Status);
                let (ca, cb) = old(self).register_pair(AcpiRegister::Pm1Control);
                let served = crate::hardware::pair_in_space(sa, sb)
                    && crate::hardware::pair_in_space(ca, cb);
                &&& !served ==> r == Err::<(), AcpiSystemError>(AcpiSystemError::Unsupported)
                &&& r is Err ==> r == Err::<(), AcpiSystemError>(AcpiSystemError::Unsupported)
                &&& served ==> old(self).legacy_sleep_ops(
                    sleep_type_a,
                    sleep_type_b,
                    appended(old(self).log(), final(self).log()),
                )
            }),
    {
        let sleep_type_reg = AcpiBitRangeRegister::sleep_type();
        let sleep_enable_reg = AcpiBitRegister::sleep_enable();
        let ghost l0 = self.log();
        self.clear_fixed_events()?;
        let ghost l1 = self.log();
        // Clear the wake status.
        AcpiBitRegister::wake_status().set(self, true)?;
        let ghost l2 = self.log();
        let mut pm1_control = self.read_register(AcpiRegister::Pm1Control)?;
        let ghost l3 = self.log();
        let ghost read_value = pm1_control;
        pm1_control = sleep_enable_reg.set_raw(pm1_control, false);
        proof {
            assert(crate::bits::low_mask_u32(3) == 7) by (bit_vector);
        }
        let pm1a_control = sleep_type_reg.set_raw(pm1_control, sleep_type_a as u32);
        let pm1b_control = sleep_type_reg.set_raw(pm1_control, sleep_type_b as u32);
        // SLP_TYP first, with SLP_EN clear.
        self.write_pm1_control(pm1a_control, pm1b_control)?;
        let ghost l4 = self.log();
        self.platform.flush_cpu_cache();
        let ghost l5 = self.log();
        // Then SLP_EN.
        self.write_pm1_control(
            sleep_enable_reg.set_raw(pm1a_control, true),
            sleep_enable_reg.set_raw(pm1b_control, true),
        )?;
        let ghost l6 = self.log();
        self.platform.halt();
        proof {
            let l7 = self.log();
            let ops = appended(l0, l7);
            let (sa, sb) = old(self).register_pair(AcpiRegister::Pm1Status);
            let (ca, cb) = old(self).register_pair(AcpiRegister::Pm1Control);
            let ns = pair_access_count(sa, sb) as int;
            let nc = pair_access_count(ca, cb) as int;
            assert(appended(l0, l1).len() == 2 * ns);
            assert(appended(l1, l2).len() == 2 * ns);
            assert(appended(l2, l3).len() == nc);
            assert(appended(l3, l4).len() == nc);
            assert(appended(l5, l6).len() == nc);
            assert(l1.take(l0.len() as int) =~= l0);
            assert(l2.take(l1.len() as int) =~= l1);
            assert(l3.take(l2.len() as int) =~= l2);
            assert(l4 =~= l3 + appended(l3, l4));
            assert(l6 =~= l5 + appended(l5, l6));
            assert(l7.take(l0.len() as int) =~= l0);
            assert(ops.subrange(0, 2 * ns) =~= appended(l0, l1));
            assert(ops.subrange(2 * ns, 4 * ns) =~= appended(l1, l2));
            assert(ops.subrange(4 * ns, 4 * ns + nc) =~= appended(l2, l3));
            assert(ops.subrange(4 * ns + nc, 4 * ns + 2 * nc) =~= appended(l3, l4));
            assert(ops[4 * ns + 2 * nc] == PlatformOp::FlushCache);
            assert(ops.subrange(4 * ns + 2 * nc + 1, 4 * ns + 3 * nc + 1) =~= appended(l5, l6));
            assert(ops[4 * ns + 3 * nc + 1] == PlatformOp::Halt);
            assert(ops.len() == 4 * ns + 3 * nc + 2);
            assert(old(self).status_clear_ops(ops.subrange(0, 2 * ns)));
            assert(old(self).bit_set_ops(
                AcpiBitRegister { parent: AcpiRegister::Pm1Status, position: 15 },
                true,
                ops.subrange(2 * ns, 4 * ns),
            ));
            let reads = ops.subrange(4 * ns, 4 * ns + nc);
            assert(pair_reads_ok(ca, cb, reads));
            assert(pair_read_value(ca, cb, reads) == read_value);
            let control = with_bit(pair_read_value(ca, cb, reads), 13, false);
            assert(control == pm1_control);
            let type_a = with_field(control, 10, 13, sleep_type_a as u32);
            let type_b = with_field(control, 10, 13, sleep_type_b as u32);
            assert(type_a == pm1a_control);
            assert(ops.subrange(4 * ns + nc, 4 * ns + 2 * nc) == pair_write_ops(ca, cb, type_a, type_b));
            assert(ops.subrange(4 * ns + 2 * nc + 1, 4 * ns + 3 * nc + 1) == pair_write_ops(
                ca,
                cb,
                with_bit(type_a, 13, true),
                with_bit(type_b, 13, true),
            ));
        }
        Ok(())
    }

    /// Enters the sleep state with sleep types `sleep_type_a` and `sleep_type_b`, which must fit
    /// in the three bits of SLP_TYP.
    pub fn dispatch_sleep_command(&mut self, sleep_type_a: u8, sleep_type_b: u8) -> (r: Result<
        (),
        AcpiSystemError,
    >)
        ensures
            final(self).same_setup(old(self)),
            extends(old(self).log(), final(self).log()),
            sleep_type_a > 7 || sleep_type_b > 7 ==> {
                &&& r == Err::<(), AcpiSystemError>(
                    AcpiSystemError::InvalidSleepValues(sleep_type_a, sleep_type_b),
                )
                &&& final(self).log() == old(self).log()
            },
            sleep_type_a <= 7 && sleep_type_b <= 7 ==> ({
                let (sa, sb) = old(self).register_pair(AcpiRegister::Pm1Status);
                let (ca, cb) = old(self).register_pair(AcpiRegister::Pm1Control);
                let served = crate::hardware::pair_in_space(sa, sb)
                    && crate::hardware::pair_in_space(ca, cb);
                &&& !served ==> r == Err::<(), AcpiSystemError>(AcpiSystemError::Unsupported)
                &&& r is Err ==> r == Err::<(), AcpiSystemError>(AcpiSystemError::Unsupported)
                &&& served ==> old(self).legacy_sleep_ops(
                    sleep_type_a,
                    sleep_type_b,
                    appended(old(self).log(), final(self).log()),
                )
            }),
    {
        if sleep_type_a > 7 || sleep_type_b > 7 {
            proof {
                let l = self.log();
                assert(l.take(l.len() as int) =~= l);
            }
            return Err(AcpiSystemError::InvalidSleepValues(sleep_type_a, sleep_type_b));
        }
        self.acpi_hw_legacy_sleep(sleep_type_a, sleep_type_b)
    }

    /// Whether entering `state` made the AML calls `calls` and the platform calls `ops` and gave
    /// `r`: the preparation's error if it failed; an error for sleep types that do not fit in
    /// SLP_TYP; an error for registers that are not served; otherwise the legacy sleep sequence
    /// with the sleep types found, up to the halt.
    pub open spec fn sleep_entered(
        &self,
        state: AcpiSleepState,
        calls: Seq<AmlCall>,
        ops: Seq<PlatformOp>,
        r: Result<(), AcpiSystemError>,
    ) -> bool {
        let (sa, sb) = self.register_pair(AcpiRegister::Pm1Status);
        let (ca, cb) = self.register_pair(AcpiRegister::Pm1Control);
        &&& preparation_calls(state, calls)
        &&& match spec_prepared(state, calls) {
            Err(e) => r == Err::<(), AcpiSystemError>(e) && ops.len() == 0,
            Ok((a, b)) => if a > 7 || b > 7 {
                r == Err::<(), AcpiSystemError>(AcpiSystemError::InvalidSleepValues(a, b))
                    && ops.len() == 0
            } else {
                let served = crate::hardware::pair_in_space(sa, sb)
                    && crate::hardware::pair_in_space(ca, cb);
                &&& !served ==> r == Err::<(), AcpiSystemError>(AcpiSystemError::Unsupported)
                &&& r is Err ==> r == Err::<(), AcpiSystemError>(AcpiSystemError::Unsupported)
                &&& served ==> self.legacy_sleep_ops(a, b, ops)
            },
        }
    }

    /// Enters `state`: prepares the firmware, then runs the legacy sleep sequence with the
    /// state's sleep types.
    pub fn enter_sleep_state(&mut self, state: AcpiSleepState) -> (r: Result<(), AcpiSystemError>)
        ensures
            final(self).same_hardware(old(self)),
            extends(old(self).log(), final(self).log()),
            old(self).aml_context.log().len() <= final(self).aml_context.log().len(),
            final(self).aml_context.log().take(old(self).aml_context.log().len() as int) == old(
                self,
            ).aml_context.log(),
            old(self).sleep_entered(
                state,
                final(self).aml_context.log().skip(old(self).aml_context.log().len() as int),
                appended(old(self).log(), final(self).log()),
                r,
            ),
    {
        let ghost l0 = self.log();
        proof {
            assert(l0.take(l0.len() as int) =~= l0);
        }
        let (sleep_type_a, sleep_type_b) = self.prepare_sleep_state(state)?;
        self.dispatch_sleep_command(sleep_type_a, sleep_type_b)
    }
}

} // verus!
