use std::collections::HashMap;
use std::sync::{Mutex, MutexGuard};

use acpi_system::{
    access_bit_width, optional_method_result, sleep_types_from_object, AccessSize,
    AcpiBitRangeRegister, AcpiBitRegister, AcpiInterruptMethod, AcpiRegister, AcpiSleepState,
    AcpiSystem, AcpiSystemError, AddressSpace, AmlFault, AmlInterpreter, AmlObject, EventAction,
    EventHandler, EventHandlerId, FadtInfo, FixedEvent, GenericAddress, Handler, Platform,
    PM1_STATUS_PRESERVED_BITS,
};

#[derive(Clone, Debug, PartialEq)]
enum Call {
    IoRead(u16, u32),
    IoWrite(u16, u32, u32),
    MemRead(u64, u32),
    MemWrite(u64, u32, u64),
    Stall(u64),
    Flush,
    Halt,
    Install(u32),
}

#[derive(Default)]
struct Hardware {
    io: HashMap<u16, u8>,
    mem: HashMap<u64, u8>,
    calls: Vec<Call>,
    // When set, a write of this byte to this port sets SCI_EN in the PM1 Control byte at the port.
    smi_enables: Option<(u16, u8, u16)>,
}

static HW: Mutex<Option<Hardware>> = Mutex::new(None);
static SERIAL: Mutex<()> = Mutex::new(());

// The mock hardware is shared: each test holds this guard while it runs.
fn serial() -> MutexGuard<'static, ()> {
    SERIAL.lock().unwrap_or_else(|e| e.into_inner())
}

fn with_hw<R>(f: impl FnOnce(&mut Hardware) -> R) -> R {
    let mut guard = HW.lock().unwrap_or_else(|e| e.into_inner());
    f(guard.get_or_insert_with(Hardware::default))
}

fn reset() {
    with_hw(|h| *h = Hardware::default());
}

fn calls() -> Vec<Call> {
    with_hw(|h| h.calls.clone())
}

fn writes() -> Vec<Call> {
    calls()
        .into_iter()
        .filter(|c| matches!(c, Call::IoWrite(..) | Call::MemWrite(..)))
        .collect()
}

fn set_io(port: u16, bytes: &[u8]) {
    with_hw(|h| {
        for (i, b) in bytes.iter().enumerate() {
            h.io.insert(port + i as u16, *b);
        }
    });
}

fn set_mem(address: u64, bytes: &[u8]) {
    with_hw(|h| {
        for (i, b) in bytes.iter().enumerate() {
            h.mem.insert(address + i as u64, *b);
        }
    });
}

fn io_read(port: u16, bytes: u16) -> u64 {
    with_hw(|h| {
        h.calls.push(Call::IoRead(port, bytes as u32 * 8));
        let mut v = 0u64;
        for i in 0..bytes {
            v |= (*h.io.get(&(port + i)).unwrap_or(&0) as u64) << (8 * i);
        }
        v
    })
}

fn io_write(port: u16, bytes: u16, value: u32) {
    with_hw(|h| {
        h.calls.push(Call::IoWrite(port, bytes as u32 * 8, value));
        for i in 0..bytes {
            h.io.insert(port + i, (value >> (8 * i)) as u8);
        }
        if let Some((smi, enable, control)) = h.smi_enables {
            if port == smi && value as u8 == enable {
                let old = *h.io.get(&control).unwrap_or(&0);
                h.io.insert(control, old | 1);
            }
        }
    })
}

fn mem_read(address: u64, bytes: u64) -> u64 {
    with_hw(|h| {
        h.calls.push(Call::MemRead(address, bytes as u32 * 8));
        let mut v = 0u64;
        for i in 0..bytes {
            v |= (*h.mem.get(&(address + i)).unwrap_or(&0) as u64) << (8 * i);
        }
        v
    })
}

fn mem_write(address: u64, bytes: u64, value: u64) {
    with_hw(|h| {
        h.calls.push(Call::MemWrite(address, bytes as u32 * 8, value));
        for i in 0..bytes {
            h.mem.insert(address + i, (value >> (8 * i)) as u8);
        }
    })
}

struct MockPlatform;

impl Handler for MockPlatform {
    fn install_interrupt_handler(irq: u32) -> Result<(), AcpiSystemError> {
        with_hw(|h| h.calls.push(Call::Install(irq)));
        Ok(())
    }
    fn io_read_u8(port: u16) -> u8 {
        io_read(port, 1) as u8
    }
    fn io_read_u16(port: u16) -> u16 {
        io_read(port, 2) as u16
    }
    fn io_read_u32(port: u16) -> u32 {
        io_read(port, 4) as u32
    }
    fn io_write_u8(port: u16, value: u8) {
        io_write(port, 1, value as u32)
    }
    fn io_write_u16(port: u16, value: u16) {
        io_write(port, 2, value as u32)
    }
    fn io_write_u32(port: u16, value: u32) {
        io_write(port, 4, value)
    }
    fn mem_read_u8(address: u64) -> u8 {
        mem_read(address, 1) as u8
    }
    fn mem_read_u16(address: u64) -> u16 {
        mem_read(address, 2) as u16
    }
    fn mem_read_u32(address: u64) -> u32 {
        mem_read(address, 4) as u32
    }
    fn mem_read_u64(address: u64) -> u64 {
        mem_read(address, 8)
    }
    fn mem_write_u8(address: u64, value: u8) {
        mem_write(address, 1, value as u64)
    }
    fn mem_write_u16(address: u64, value: u16) {
        mem_write(address, 2, value as u64)
    }
    fn mem_write_u32(address: u64, value: u32) {
        mem_write(address, 4, value as u64)
    }
    fn mem_write_u64(address: u64, value: u64) {
        mem_write(address, 8, value)
    }
    fn stall(microseconds: u64) {
        with_hw(|h| h.calls.push(Call::Stall(microseconds)));
    }
    fn flush_cpu_cache() {
        with_hw(|h| h.calls.push(Call::Flush));
    }
    fn halt() {
        with_hw(|h| h.calls.push(Call::Halt));
    }
}

#[derive(Default)]
struct MockAml {
    packages: HashMap<String, Vec<Option<u64>>>,
    others: Vec<String>,
    failing_methods: Vec<String>,
    present_methods: Vec<String>,
    invoked: Vec<(String, Vec<u64>)>,
    parsed: usize,
}

impl AmlInterpreter for MockAml {
    fn parse_table(&mut self, stream: &[u8]) -> Result<(), AmlFault> {
        if stream.is_empty() {
            return Err(AmlFault::Other("empty table".to_string()));
        }
        self.parsed += 1;
        Ok(())
    }
    fn initialize_objects(&mut self) -> Result<(), AmlFault> {
        Ok(())
    }
    fn evaluate(&self, path: &str) -> Result<AmlObject, AmlFault> {
        if let Some(p) = self.packages.get(path) {
            return Ok(AmlObject::Package(p.clone()));
        }
        if self.others.iter().any(|o| o == path) {
            return Ok(AmlObject::Other);
        }
        Err(AmlFault::ValueDoesNotExist)
    }
    fn invoke_method(&mut self, path: &str, args: Vec<u64>) -> Result<(), AmlFault> {
        self.invoked.push((path.to_string(), args));
        if self.failing_methods.iter().any(|m| m == path) {
            return Err(AmlFault::Other("method failed".to_string()));
        }
        if self.present_methods.iter().any(|m| m == path) {
            return Ok(());
        }
        Err(AmlFault::ValueDoesNotExist)
    }
}

fn io_register(address: u64, bit_width: u8) -> GenericAddress {
    GenericAddress {
        address_space: AddressSpace::SystemIo,
        bit_width,
        bit_offset: 0,
        access_size: AccessSize::Undefined,
        address,
    }
}

// PM1a event block at 0x400 (status 0x400, enable 0x400 + width/16), PM1a control at 0x404.
fn fadt(event_block_width: u8) -> FadtInfo {
    FadtInfo {
        sci_interrupt: 9,
        smi_cmd_port: 0xB2,
        acpi_enable: 0xA1,
        acpi_disable: 0xA0,
        pm1a_event_block: io_register(0x400, event_block_width),
        pm1b_event_block: None,
        pm1a_control_block: io_register(0x408, 16),
        pm1b_control_block: None,
        gpe0_block: None,
        gpe1_block: None,
        gpe1_base: 0,
    }
}

fn system(fadt: FadtInfo, aml: MockAml) -> AcpiSystem<MockPlatform, MockAml> {
    reset();
    match AcpiSystem::new(fadt, aml) {
        Ok(s) => s,
        Err(e) => panic!("new failed: {:?}", e),
    }
}

struct SleepS5;

impl EventHandler for SleepS5 {
    fn handle(&self, _fadt: &FadtInfo) -> EventAction {
        EventAction::EnterSleepState(AcpiSleepState::S5)
    }
}

struct DoNothing;

impl EventHandler for DoNothing {
    fn handle(&self, _fadt: &FadtInfo) -> EventAction {
        EventAction::Nothing
    }
}

fn s5_aml() -> MockAml {
    let mut aml = MockAml::default();
    aml.packages.insert("\\_S5_".to_string(), vec![Some(5), Some(5)]);
    aml
}

#[test]
fn mode_enable_succeeds_on_first_poll() {
    let _serial = serial();
    let mut sys = system(fadt(32), MockAml::default());
    with_hw(|h| h.smi_enables = Some((0xB2, 0xA1, 0x408)));
    let r = sys.set_acpi_mode(true);
    assert!(r.is_ok());
    assert_eq!(calls(), vec![Call::IoWrite(0xB2, 8, 0xA1), Call::IoRead(0x408, 16)]);
}

#[test]
fn enable_acpi_skips_transition_when_already_enabled() {
    let _serial = serial();
    let mut sys = system(fadt(32), MockAml::default());
    set_io(0x408, &[0x01, 0x00]);
    assert!(sys.enable_acpi().is_ok());
    assert_eq!(calls(), vec![Call::IoRead(0x408, 16)]);
}

#[test]
fn enable_acpi_without_smi_port_touches_nothing() {
    let _serial = serial();
    let mut f = fadt(32);
    f.smi_cmd_port = 0;
    let mut sys = system(f, MockAml::default());
    assert!(sys.enable_acpi().is_ok());
    assert!(calls().is_empty());
}

#[test]
fn mode_transition_not_supported_writes_nothing() {
    let _serial = serial();
    let mut f = fadt(32);
    f.acpi_enable = 0;
    f.acpi_disable = 0;
    let mut sys = system(f, MockAml::default());
    let r = sys.set_acpi_mode(true);
    assert!(matches!(r, Err(AcpiSystemError::ModeTransitionNotSupported)));
    assert!(calls().is_empty());
}

#[test]
fn mode_enable_times_out_after_all_polls() {
    let _serial = serial();
    let mut sys = system(fadt(32), MockAml::default());
    let r = sys.set_acpi_mode(true);
    assert!(matches!(r, Err(AcpiSystemError::EnableTimeout)));
    let c = calls();
    assert_eq!(c[0], Call::IoWrite(0xB2, 8, 0xA1));
    let reads = c.iter().filter(|x| **x == Call::IoRead(0x408, 16)).count();
    let stalls = c.iter().filter(|x| matches!(x, Call::Stall(_))).count();
    assert_eq!(reads, 3000);
    assert_eq!(stalls, 3000);
    assert_eq!(c.len(), 1 + 3000 + 3000);
}

#[test]
fn smi_port_beyond_io_space_is_unsupported() {
    let _serial = serial();
    let mut f = fadt(32);
    f.smi_cmd_port = 0x1_0000;
    let mut sys = system(f, MockAml::default());
    assert!(matches!(sys.set_acpi_mode(true), Err(AcpiSystemError::Unsupported)));
    assert!(calls().is_empty());
}

#[test]
fn leaving_acpi_mode_is_not_supported() {
    let _serial = serial();
    let mut sys = system(fadt(32), MockAml::default());
    assert!(matches!(sys.set_acpi_mode(false), Err(AcpiSystemError::ModeTransitionNotSupported)));
    assert!(calls().is_empty());
}

#[test]
fn power_button_event_drives_s5() {
    let _serial = serial();
    let mut sys = system(fadt(32), s5_aml());
    // PM1 Status (0x400) and PM1 Enable (0x402) both hold the power button bit.
    set_io(0x400, &[0x00, 0x01]);
    set_io(0x402, &[0x00, 0x01]);
    assert!(sys.enable_fixed_event(&FixedEvent::power_button(), Box::new(SleepS5)).is_ok());
    with_hw(|h| h.calls.clear());
    sys.handle_sci();
    let c = calls();
    assert_eq!(
        c,
        vec![
            Call::IoRead(0x400, 16),
            Call::IoRead(0x402, 16),
            // Acknowledge the power button.
            Call::IoRead(0x400, 16),
            Call::IoWrite(0x400, 16, 0x0100),
            // Clear the fixed-event status bits.
            Call::IoRead(0x400, 16),
            Call::IoWrite(0x400, 16, 0x0100),
            // Set WAK_STS.
            Call::IoRead(0x400, 16),
            Call::IoWrite(0x400, 16, 0x8100),
            Call::IoRead(0x408, 16),
            Call::IoWrite(0x408, 16, 0x1400),
            Call::Flush,
            Call::IoWrite(0x408, 16, 0x3400),
            Call::Halt,
        ]
    );
    let invoked = &sys.aml_context.interpreter.invoked;
    assert_eq!(invoked[0], ("\\_PTS".to_string(), vec![5]));
    assert_eq!(invoked[1], ("\\_SI._SST".to_string(), vec![0]));
}

#[test]
fn sci_without_pending_event_only_reads() {
    let _serial = serial();
    let mut sys = system(fadt(32), s5_aml());
    set_io(0x400, &[0x00, 0x01]);
    set_io(0x402, &[0x00, 0x02]);
    sys.handle_sci();
    assert_eq!(calls(), vec![Call::IoRead(0x400, 16), Call::IoRead(0x402, 16)]);
}

#[test]
fn sci_with_handler_returning_nothing_only_acknowledges() {
    let _serial = serial();
    let mut sys = system(fadt(32), s5_aml());
    set_io(0x400, &[0x01, 0x00]);
    set_io(0x402, &[0x01, 0x00]);
    assert!(sys.enable_fixed_event(&FixedEvent::timer(), Box::new(DoNothing)).is_ok());
    with_hw(|h| h.calls.clear());
    sys.handle_sci();
    assert_eq!(
        calls(),
        vec![
            Call::IoRead(0x400, 16),
            Call::IoRead(0x402, 16),
            Call::IoRead(0x400, 16),
            Call::IoWrite(0x400, 16, 0x0001),
        ]
    );
}

#[test]
fn gpe0_block_init() {
    let _serial = serial();
    let mut f = fadt(32);
    f.gpe0_block = Some(io_register(0x1000, 64));
    let mut sys = system(f, MockAml::default());
    assert!(sys.initialize_gpes().is_ok());
    let w = writes();
    assert_eq!(w.len(), 8);
    for i in 0..4u16 {
        assert_eq!(w[2 * i as usize], Call::IoWrite(0x1004 + i, 8, 0x00));
        assert_eq!(w[2 * i as usize + 1], Call::IoWrite(0x1000 + i, 8, 0xFF));
    }
    let block = sys.gpe0_block.as_ref().unwrap();
    assert_eq!(block.gpe_count, 32);
    assert_eq!(block.event_info.len(), 32);
    assert_eq!(block.register_info.len(), 4);
    assert_eq!(block.event_info[17].gpe_number, 17);
    assert_eq!(block.event_info[17].register_index, 2);
    assert_eq!(block.register_info[2].base_gpe_number, 16);
    assert_eq!(block.register_info[2].status_register.address, 0x1002);
    assert_eq!(block.register_info[2].enable_register.address, 0x1006);
    assert!(sys.gpe1_block.is_none());
}

#[test]
fn gpe1_block_numbered_from_its_base() {
    let _serial = serial();
    let mut f = fadt(32);
    f.gpe1_block = Some(io_register(0x1100, 32));
    f.gpe1_base = 64;
    let mut sys = system(f, MockAml::default());
    assert!(sys.initialize_gpes().is_ok());
    let block = sys.gpe1_block.as_ref().unwrap();
    assert_eq!(block.gpe_count, 16);
    assert_eq!(block.event_info[9].gpe_number, 73);
    assert_eq!(block.event_info[9].register_index, 1);
    assert_eq!(
        writes(),
        vec![
            Call::IoWrite(0x1102, 8, 0x00),
            Call::IoWrite(0x1100, 8, 0xFF),
            Call::IoWrite(0x1103, 8, 0x00),
            Call::IoWrite(0x1101, 8, 0xFF),
        ]
    );
}

#[test]
fn gpe_block_outside_io_space_is_unsupported() {
    let _serial = serial();
    let mut f = fadt(32);
    f.gpe0_block = Some(io_register(0xFFFE, 64));
    let mut sys = system(f, MockAml::default());
    assert!(matches!(sys.initialize_gpes(), Err(AcpiSystemError::Unsupported)));
    assert!(calls().is_empty());
    assert!(sys.gpe0_block.is_none());
}

#[test]
fn pm1_status_preserved_bit() {
    let _serial = serial();
    let mut sys = system(fadt(64), MockAml::default());
    assert!(sys.write_register(AcpiRegister::Pm1Status, 0xFFFF_FFFF).is_ok());
    assert_eq!(calls(), vec![Call::IoWrite(0x400, 32, 0xFFFF_F7FF)]);
    assert_eq!(PM1_STATUS_PRESERVED_BITS, 1 << 11);
}

#[test]
fn pm1_status_write_never_sets_bit_11() {
    let _serial = serial();
    let mut f = fadt(32);
    f.pm1b_event_block = Some(io_register(0x500, 32));
    let mut sys = system(f, MockAml::default());
    for v in [0x0800u32, 0x0FFF, 0xFFFF, 0x8800] {
        with_hw(|h| h.calls.clear());
        assert!(sys.write_register(AcpiRegister::Pm1Status, v).is_ok());
        for c in calls() {
            match c {
                Call::IoWrite(_, _, value) => assert_eq!(value & (1 << 11), 0),
                other => panic!("unexpected call {:?}", other),
            }
        }
    }
}

#[test]
fn missing_pts_during_sleep_prep() {
    let _serial = serial();
    let mut sys = system(fadt(32), s5_aml());
    let r = sys.prepare_sleep_state(AcpiSleepState::S5);
    assert_eq!(r.ok(), Some((5, 5)));
    assert!(calls().is_empty());
}

#[test]
fn failing_pts_during_sleep_prep_propagates() {
    let _serial = serial();
    let mut aml = s5_aml();
    aml.failing_methods.push("\\_PTS".to_string());
    let mut sys = system(fadt(32), aml);
    let r = sys.prepare_sleep_state(AcpiSleepState::S5);
    assert!(matches!(r, Err(AcpiSystemError::AmlError(AmlFault::Other(_)))));
    // The status indicator is not set once `\_PTS` has failed.
    assert_eq!(sys.aml_context.interpreter.invoked, vec![("\\_PTS".to_string(), vec![5])]);
}

#[test]
fn sleep_status_indicators() {
    let _serial = serial();
    for (state, number, indicator) in [
        (AcpiSleepState::S0, 0, 1),
        (AcpiSleepState::S1, 1, 3),
        (AcpiSleepState::S3, 3, 3),
        (AcpiSleepState::S4, 4, 4),
        (AcpiSleepState::S5, 5, 0),
    ] {
        let mut aml = MockAml::default();
        aml.packages.insert(state.object_name().to_string(), vec![Some(1), Some(2)]);
        aml.present_methods.push("\\_PTS".to_string());
        let mut sys = system(fadt(32), aml);
        assert_eq!(sys.prepare_sleep_state(state).ok(), Some((1, 2)));
        assert_eq!(sys.aml_context.interpreter.invoked[0], ("\\_PTS".to_string(), vec![number]));
        assert_eq!(sys.aml_context.interpreter.invoked[1], ("\\_SI._SST".to_string(), vec![indicator]));
    }
}

#[test]
fn missing_sleep_object() {
    let _serial = serial();
    let mut sys = system(fadt(32), MockAml::default());
    let r = sys.prepare_sleep_state(AcpiSleepState::S3);
    assert!(matches!(r, Err(AcpiSystemError::MissingSleepMethod("\\_S3_"))));
}

#[test]
fn sleep_object_that_is_no_package() {
    let _serial = serial();
    let mut aml = MockAml::default();
    aml.others.push("\\_S5_".to_string());
    let mut sys = system(fadt(32), aml);
    let r = sys.prepare_sleep_state(AcpiSleepState::S5);
    assert!(matches!(r, Err(AcpiSystemError::InvalidSleepMethod("\\_S5_"))));
}

#[test]
fn sleep_package_with_one_element_fails_deterministically() {
    let _serial = serial();
    for _ in 0..2 {
        let mut aml = MockAml::default();
        aml.packages.insert("\\_S5_".to_string(), vec![Some(5)]);
        let mut sys = system(fadt(32), aml);
        let r = sys.prepare_sleep_state(AcpiSleepState::S5);
        assert!(matches!(r, Err(AcpiSystemError::InvalidSleepMethod("\\_S5_"))));
    }
    let empty = sleep_types_from_object("\\_S1_", Ok(AmlObject::Package(vec![])));
    assert!(matches!(empty, Err(AcpiSystemError::InvalidSleepMethod("\\_S1_"))));
}

#[test]
fn sleep_types_from_object_cases() {
    let _serial = serial();
    let ok = sleep_types_from_object("\\_S5_", Ok(AmlObject::Package(vec![Some(0x107), Some(3), None])));
    assert_eq!(ok.ok(), Some((0x07, 3)));
    let non_integer = sleep_types_from_object("\\_S5_", Ok(AmlObject::Package(vec![Some(5), None])));
    assert!(matches!(non_integer, Err(AcpiSystemError::InvalidSleepMethod("\\_S5_"))));
    let missing = sleep_types_from_object("\\_S2_", Err(AmlFault::ValueDoesNotExist));
    assert!(matches!(missing, Err(AcpiSystemError::MissingSleepMethod("\\_S2_"))));
    let failed = sleep_types_from_object("\\_S2_", Err(AmlFault::Other("x".to_string())));
    assert!(matches!(failed, Err(AcpiSystemError::AmlError(AmlFault::Other(_)))));
}

#[test]
fn optional_method_outcomes() {
    let _serial = serial();
    assert!(optional_method_result(Ok(())).is_ok());
    assert!(optional_method_result(Err(AmlFault::ValueDoesNotExist)).is_ok());
    assert!(matches!(
        optional_method_result(Err(AmlFault::Other("bad".to_string()))),
        Err(AcpiSystemError::AmlError(AmlFault::Other(_)))
    ));
}

#[test]
fn invalid_sleep_values_write_nothing() {
    let _serial = serial();
    let mut sys = system(fadt(32), s5_aml());
    let r = sys.dispatch_sleep_command(8, 0);
    assert!(matches!(r, Err(AcpiSystemError::InvalidSleepValues(8, 0))));
    let r = sys.dispatch_sleep_command(0, 9);
    assert!(matches!(r, Err(AcpiSystemError::InvalidSleepValues(0, 9))));
    assert!(calls().is_empty());
}

#[test]
fn pm1_control_written_per_half() {
    let _serial = serial();
    let mut f = fadt(32);
    f.pm1b_control_block = Some(io_register(0x508, 16));
    let mut sys = system(f, MockAml::default());
    assert!(sys.write_pm1_control(0x1400, 0x0C00).is_ok());
    assert_eq!(calls(), vec![Call::IoWrite(0x408, 16, 0x1400), Call::IoWrite(0x508, 16, 0x0C00)]);
}

#[test]
fn legacy_sleep_with_distinct_sleep_types() {
    let _serial = serial();
    let mut f = fadt(32);
    f.pm1b_control_block = Some(io_register(0x508, 16));
    let mut sys = system(f, MockAml::default());
    set_io(0x408, &[0x01, 0x20]);
    // The sequence ends in the halt; what follows it is left open.
    let _ = sys.dispatch_sleep_command(5, 3);
    let w: Vec<Call> = writes().into_iter().filter(|c| !matches!(c, Call::IoWrite(0x400, _, _))).collect();
    // Control read is 0x2001 | 0 = 0x2001; SLP_EN cleared, then each half's SLP_TYP.
    assert_eq!(
        w,
        vec![
            Call::IoWrite(0x408, 16, 0x1401),
            Call::IoWrite(0x508, 16, 0x0C01),
            Call::IoWrite(0x408, 16, 0x3401),
            Call::IoWrite(0x508, 16, 0x2C01),
        ]
    );
    assert_eq!(calls().last(), Some(&Call::Halt));
}

#[test]
fn enable_fixed_event_sets_enable_bit_and_handler() {
    let _serial = serial();
    let mut sys = system(fadt(32), MockAml::default());
    set_io(0x402, &[0x01, 0x00]);
    assert!(sys.enable_fixed_event(&FixedEvent::sleep_button(), Box::new(DoNothing)).is_ok());
    assert!(sys.event_handlers.get(EventHandlerId::SleepButton).is_some());
    assert!(sys.event_handlers.get(EventHandlerId::PowerButton).is_none());
    let v = sys.read_register(AcpiRegister::Pm1Enable).unwrap();
    assert_ne!(v & (1 << 9), 0);
    assert_eq!(v, 0x0201);
}

#[test]
fn pm1_enable_write_then_read_round_trips() {
    let _serial = serial();
    let mut f = fadt(32);
    f.pm1b_event_block = Some(io_register(0x500, 32));
    let mut sys = system(f, MockAml::default());
    for v in [0u32, 1, 0x0120, 0xFFFF, 0x8001] {
        assert!(sys.write_register(AcpiRegister::Pm1Enable, v).is_ok());
        assert_eq!(sys.read_register(AcpiRegister::Pm1Enable).unwrap(), v);
    }
}

#[test]
fn register_pair_reads_or_halves() {
    let _serial = serial();
    let mut f = fadt(32);
    f.pm1b_event_block = Some(io_register(0x500, 32));
    let mut sys = system(f, MockAml::default());
    set_io(0x400, &[0x01, 0x00]);
    set_io(0x500, &[0x00, 0x80]);
    assert_eq!(sys.read_register(AcpiRegister::Pm1Status).unwrap(), 0x8001);
    assert_eq!(calls(), vec![Call::IoRead(0x400, 16), Call::IoRead(0x500, 16)]);
}

#[test]
fn register_in_unserved_space_is_unsupported() {
    let _serial = serial();
    let mut f = fadt(32);
    f.pm1a_control_block.address_space = AddressSpace::PciConfigSpace;
    let mut sys = system(f, MockAml::default());
    assert!(matches!(sys.read_register(AcpiRegister::Pm1Control), Err(AcpiSystemError::Unsupported)));
    assert!(matches!(sys.write_pm1_control(1, 1), Err(AcpiSystemError::Unsupported)));
    assert!(calls().is_empty());
}

#[test]
fn field_read_across_two_word_accesses() {
    let _serial = serial();
    reset();
    set_mem(0x2000, &[0x11, 0x22, 0x33, 0x00]);
    let reg = GenericAddress {
        address_space: AddressSpace::SystemMemory,
        bit_width: 24,
        bit_offset: 0,
        access_size: AccessSize::WordAccess,
        address: 0x2000,
    };
    let mut platform: Platform<MockPlatform> = Platform::new();
    let v = platform.read_address(reg).unwrap();
    assert_eq!(v, 0x33_2211);
    assert_eq!(calls(), vec![Call::MemRead(0x2000, 16), Call::MemRead(0x2002, 16)]);
}

#[test]
fn field_write_skips_slots_inside_the_offset() {
    let _serial = serial();
    reset();
    let reg = GenericAddress {
        address_space: AddressSpace::SystemMemory,
        bit_width: 8,
        bit_offset: 16,
        access_size: AccessSize::ByteAccess,
        address: 0x3000,
    };
    let mut platform: Platform<MockPlatform> = Platform::new();
    assert!(platform.write_address(reg, 0x00AA_BBCC).is_ok());
    assert_eq!(calls(), vec![Call::MemWrite(0x3002, 8, 0xAA)]);
    assert_eq!(platform.read_address(reg).unwrap(), 0x00AA_0000);
}

#[test]
fn qword_memory_register_round_trips() {
    let _serial = serial();
    reset();
    let reg = GenericAddress {
        address_space: AddressSpace::SystemMemory,
        bit_width: 64,
        bit_offset: 0,
        access_size: AccessSize::Undefined,
        address: 0x4000,
    };
    let mut platform: Platform<MockPlatform> = Platform::new();
    assert!(platform.write_address(reg, 0x0123_4567_89AB_CDEF).is_ok());
    assert_eq!(platform.read_address(reg).unwrap(), 0x0123_4567_89AB_CDEF);
    assert_eq!(calls()[0], Call::MemWrite(0x4000, 64, 0x0123_4567_89AB_CDEF));
}

#[test]
fn io_register_of_dwords_split_in_io_space() {
    let _serial = serial();
    reset();
    set_io(0x600, &[1, 2, 3, 4, 5, 6, 7, 8]);
    let reg = io_register(0x600, 64);
    let mut platform: Platform<MockPlatform> = Platform::new();
    assert_eq!(platform.read_address(reg).unwrap(), 0x0807_0605_0403_0201);
    assert_eq!(calls(), vec![Call::IoRead(0x600, 32), Call::IoRead(0x604, 32)]);
}

#[test]
fn access_width_matches_full_width_fields() {
    let _serial = serial();
    for (w, size) in [(8u8, AccessSize::QWordAccess), (16, AccessSize::ByteAccess), (32, AccessSize::Undefined), (64, AccessSize::WordAccess)] {
        let reg = GenericAddress {
            address_space: AddressSpace::SystemMemory,
            bit_width: w,
            bit_offset: 0,
            access_size: size,
            address: 0x1001,
        };
        assert_eq!(access_bit_width(&reg, reg.address, 64), w);
    }
}

#[test]
fn access_width_in_io_space_is_at_most_32() {
    let _serial = serial();
    for (w, off, size) in [
        (64u8, 0u8, AccessSize::Undefined),
        (8, 0, AccessSize::QWordAccess),
        (24, 8, AccessSize::Undefined),
        (3, 5, AccessSize::QWordAccess),
    ] {
        let reg = GenericAddress {
            address_space: AddressSpace::SystemIo,
            bit_width: w,
            bit_offset: off,
            access_size: size,
            address: 0x400,
        };
        assert!(access_bit_width(&reg, reg.address, 64) <= 32);
    }
}

#[test]
fn access_width_from_size_and_alignment() {
    let _serial = serial();
    let mut reg = GenericAddress {
        address_space: AddressSpace::SystemMemory,
        bit_width: 24,
        bit_offset: 0,
        access_size: AccessSize::DWordAccess,
        address: 0x1000,
    };
    assert_eq!(access_bit_width(&reg, reg.address, 64), 32);
    reg.access_size = AccessSize::Undefined;
    // 24 bits round up to 32; 0x1002 is only 2-byte aligned.
    assert_eq!(access_bit_width(&reg, 0x1002, 64), 16);
    assert_eq!(access_bit_width(&reg, 0x1000, 64), 32);
    assert_eq!(access_bit_width(&reg, 0x1001, 64), 8);
    reg.bit_width = 3;
    reg.bit_offset = 1;
    assert_eq!(access_bit_width(&reg, 0x1001, 64), 8);
    reg.bit_width = 0;
    reg.bit_offset = 0;
    assert_eq!(access_bit_width(&reg, 0x1000, 64), 8);
    reg.bit_width = 200;
    reg.bit_offset = 100;
    assert_eq!(access_bit_width(&reg, 0x1000, 64), 64);
    assert_eq!(access_bit_width(&reg, 0x1000, 16), 16);
}

#[test]
fn bit_register_set_then_get_round_trips() {
    let _serial = serial();
    for position in [0usize, 5, 11, 15, 31] {
        let bit = AcpiBitRegister::new(AcpiRegister::Pm1Status, position);
        for raw in [0u32, 0xFFFF_FFFF, 0x1234_5678] {
            for value in [true, false] {
                let set = bit.set_raw(raw, value);
                assert_eq!(bit.get_from_raw(set), value);
                assert_eq!(set & !(1 << position), raw & !(1 << position));
            }
        }
    }
    assert!(AcpiBitRegister::sci_enable().get_from_raw(0x0001));
    assert!(!AcpiBitRegister::sci_enable().get_from_raw(0xFFFE));
    assert_eq!(AcpiBitRegister::wake_status().set_raw(0, true), 0x8000);
    assert_eq!(AcpiBitRegister::sleep_enable().set_raw(0xFFFF, false), 0xDFFF);
}

#[test]
fn sleep_type_field_touches_only_its_bits() {
    let _serial = serial();
    let slp_typ = AcpiBitRangeRegister::sleep_type();
    for c in [0u32, 0xFFFF_FFFF, 0x0000_2001, 0xDEAD_BEEF] {
        for v in 0..=7u32 {
            let r = slp_typ.set_raw(c, v);
            assert_eq!(r & !0x1C00, c & !0x1C00);
            assert_eq!((r >> 10) & 7, v);
        }
    }
    assert_eq!(slp_typ.set_raw(0, 5), 0x1400);
}

#[test]
fn fixed_event_table() {
    let _serial = serial();
    let expected = [
        (FixedEvent::timer(), 0usize, EventHandlerId::Timer, "Timer"),
        (FixedEvent::global_lock(), 5, EventHandlerId::GlobalLock, "Global Lock"),
        (FixedEvent::power_button(), 8, EventHandlerId::PowerButton, "Power Button"),
        (FixedEvent::sleep_button(), 9, EventHandlerId::SleepButton, "Sleep Button"),
        (FixedEvent::rtc(), 10, EventHandlerId::Rtc, "RTC"),
    ];
    for (i, (event, bit, id, name)) in expected.into_iter().enumerate() {
        assert_eq!(event.enable_register, AcpiBitRegister::new(AcpiRegister::Pm1Enable, bit));
        assert_eq!(event.status_register, AcpiBitRegister::new(AcpiRegister::Pm1Status, bit));
        assert_eq!(event.handler_id, id);
        assert_eq!(event.name, name);
        assert_eq!(FixedEvent::at(i).handler_id, id);
        assert_eq!(id.index(), i);
    }
}

#[test]
fn new_splits_event_blocks() {
    let _serial = serial();
    let mut f = fadt(32);
    f.pm1b_event_block = Some(io_register(0x500, 64));
    let sys = system(f, MockAml::default());
    assert_eq!(sys.pm1_registers.pm1a_status, io_register(0x400, 16));
    assert_eq!(sys.pm1_registers.pm1a_enable, io_register(0x402, 16));
    assert_eq!(sys.pm1_registers.pm1b_status, Some(io_register(0x500, 32)));
    assert_eq!(sys.pm1_registers.pm1b_enable, Some(io_register(0x504, 32)));
    assert!(calls().is_empty());
}

#[test]
fn new_refuses_event_block_past_address_range() {
    let _serial = serial();
    let mut f = fadt(32);
    f.pm1a_event_block.address = u64::MAX;
    reset();
    let r = AcpiSystem::<MockPlatform, MockAml>::new(f, MockAml::default());
    assert!(matches!(r, Err(AcpiSystemError::Unsupported)));
}

#[test]
fn initialize_runs_in_order() {
    let _serial = serial();
    let mut f = fadt(32);
    f.gpe0_block = Some(io_register(0x1000, 32));
    let mut aml = MockAml::default();
    aml.present_methods.push("\\_PIC".to_string());
    let mut sys = system(f, aml);
    set_io(0x408, &[0x01, 0x00]);
    set_io(0x402, &[0xFF, 0xFF]);
    let dsdt = [0x10u8, 0x20];
    assert!(sys.initialize(Some(&dsdt), AcpiInterruptMethod::Apic).is_ok());
    assert_eq!(sys.aml_context.interpreter.parsed, 1);
    assert_eq!(sys.aml_context.interpreter.invoked, vec![("\\_PIC".to_string(), vec![1])]);
    let c = calls();
    // SCI_EN poll, five read-modify-writes of PM1 Enable, the GPE block, the SCI handler.
    assert_eq!(c[0], Call::IoRead(0x408, 16));
    assert_eq!(c[1], Call::IoRead(0x402, 16));
    assert_eq!(c[2], Call::IoWrite(0x402, 16, 0xFFFE));
    assert_eq!(c[10], Call::IoWrite(0x402, 16, 0xF8DE));
    assert_eq!(
        &c[11..],
        &[
            Call::IoWrite(0x1002, 8, 0x00),
            Call::IoWrite(0x1000, 8, 0xFF),
            Call::IoWrite(0x1003, 8, 0x00),
            Call::IoWrite(0x1001, 8, 0xFF),
            Call::Install(9),
        ]
    );
    assert_eq!(sys.gpe0_block.as_ref().unwrap().gpe_count, 16);
}

#[test]
fn initialize_reports_dsdt_parse_failure() {
    let _serial = serial();
    let mut sys = system(fadt(32), MockAml::default());
    set_io(0x408, &[0x01, 0x00]);
    let empty: [u8; 0] = [];
    let r = sys.initialize(Some(&empty), AcpiInterruptMethod::Pic);
    assert!(matches!(r, Err(AcpiSystemError::AmlError(AmlFault::Other(_)))));
}

#[test]
fn interrupt_method_values() {
    let _serial = serial();
    assert_eq!(AcpiInterruptMethod::Pic.value(), 0);
    assert_eq!(AcpiInterruptMethod::Apic.value(), 1);
    assert_eq!(AcpiInterruptMethod::SApic.value(), 2);
}

#[test]
fn handle_event_action_nothing_is_no_op() {
    let _serial = serial();
    let mut sys = system(fadt(32), s5_aml());
    assert!(sys.handle_event_action(EventAction::Nothing).is_ok());
    assert!(calls().is_empty());
}

#[test]
fn enter_sleep_state_runs_the_sequence() {
    let _serial = serial();
    let mut sys = system(fadt(32), s5_aml());
    let _ = sys.enter_sleep_state(AcpiSleepState::S5);
    let c = calls();
    assert_eq!(c[c.len() - 4], Call::IoWrite(0x408, 16, 0x1400));
    assert_eq!(c[c.len() - 3], Call::Flush);
    assert_eq!(c[c.len() - 2], Call::IoWrite(0x408, 16, 0x3400));
    assert_eq!(c[c.len() - 1], Call::Halt);
}

#[test]
fn acpi_error_variant_carries_table_errors() {
    let _serial = serial();
    let e = AcpiSystemError::AcpiError(acpi::AcpiError::TableMissing(acpi::sdt::Signature::FADT));
    assert!(matches!(e, AcpiSystemError::AcpiError(_)));
}

#[test]
fn bit_range_may_end_at_bit_32() {
    let _serial = serial();
    let high_half = AcpiBitRangeRegister { low: 16, high: 32 };
    assert_eq!(high_half.set_raw(0x1234_5678, 0xABCD), 0xABCD_5678);
    let whole = AcpiBitRangeRegister { low: 0, high: 32 };
    assert_eq!(whole.set_raw(0x1234_5678, 0xFFFF_0000), 0xFFFF_0000);
}

#[test]
fn sleep_on_unserved_control_register_is_unsupported() {
    let _serial = serial();
    let mut f = fadt(32);
    f.pm1a_control_block.address_space = AddressSpace::SMBus;
    let mut sys = system(f, MockAml::default());
    assert!(matches!(sys.dispatch_sleep_command(5, 5), Err(AcpiSystemError::Unsupported)));
    assert!(!calls().contains(&Call::Halt));
}

#[test]
fn initialize_stops_at_unserved_gpe_block() {
    let _serial = serial();
    let mut f = fadt(32);
    f.gpe0_block = Some(io_register(0xFFFE, 64));
    let mut aml = MockAml::default();
    aml.present_methods.push("\\_PIC".to_string());
    let mut sys = system(f, aml);
    set_io(0x408, &[0x01, 0x00]);
    let r = sys.initialize(None, AcpiInterruptMethod::Pic);
    assert!(matches!(r, Err(AcpiSystemError::Unsupported)));
    // Only the SCI_EN poll was made: no fixed event was touched and no AML call followed.
    assert_eq!(calls(), vec![Call::IoRead(0x408, 16)]);
    assert!(sys.aml_context.interpreter.invoked.is_empty());
}

#[test]
fn initialize_stops_at_mode_timeout() {
    let _serial = serial();
    let mut aml = MockAml::default();
    aml.present_methods.push("\\_PIC".to_string());
    let mut sys = system(fadt(32), aml);
    let dsdt = [0x10u8];
    let r = sys.initialize(Some(&dsdt), AcpiInterruptMethod::Pic);
    assert!(matches!(r, Err(AcpiSystemError::EnableTimeout)));
    assert_eq!(sys.aml_context.interpreter.parsed, 0);
    assert!(sys.aml_context.interpreter.invoked.is_empty());
    assert!(!calls().iter().any(|c| matches!(c, Call::Install(_))));
}

#[test]
fn mode_change_without_smi_port_succeeds_after_the_write() {
    let _serial = serial();
    let mut f = fadt(32);
    f.smi_cmd_port = 0;
    let mut sys = system(f, MockAml::default());
    assert!(sys.set_acpi_mode(true).is_ok());
    assert_eq!(calls(), vec![Call::IoWrite(0, 8, 0xA1)]);
}

#[test]
fn sci_dispatches_every_pending_event_in_order() {
    let _serial = serial();
    let mut sys = system(fadt(32), s5_aml());
    // Timer and sleep button pending and enabled; only the sleep button has a handler.
    set_io(0x400, &[0x01, 0x02]);
    set_io(0x402, &[0x01, 0x02]);
    assert!(sys.enable_fixed_event(&FixedEvent::sleep_button(), Box::new(DoNothing)).is_ok());
    with_hw(|h| h.calls.clear());
    sys.handle_sci();
    assert_eq!(
        calls(),
        vec![
            Call::IoRead(0x400, 16),
            Call::IoRead(0x402, 16),
            Call::IoRead(0x400, 16),
            Call::IoWrite(0x400, 16, 0x0201),
            Call::IoRead(0x400, 16),
            Call::IoWrite(0x400, 16, 0x0201),
        ]
    );
}
