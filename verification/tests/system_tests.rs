use neuro_symbolic_emulator::bus::{ExecStatus, MoveOp, SystemBus};
use neuro_symbolic_emulator::fu::{ConsoleFU, FunctionalUnit, ProgramCounterFU};
use neuro_symbolic_emulator::fx::FX_ONE;
use neuro_symbolic_emulator::system::SystemEmulator;

#[test]
fn test_emulator_termination() {
    let mut sys = SystemEmulator::default();
    sys.load_program(vec![
        MoveOp { src: 0, dest: 1, guard: None },
        MoveOp { src: 1, dest: 2, guard: None },
    ]);
    // step returns false exactly once the index reaches the program length,
    // and never advances it past that point.
    assert!(sys.step());
    assert_eq!(sys.pc, 1);
    assert!(sys.step());
    assert_eq!(sys.pc, 2);
    assert!(!sys.step());
    assert_eq!(sys.pc, 2);
    assert!(!sys.step());
    assert_eq!(sys.pc, 2);
    assert_eq!(sys.total_steps, 2);
    assert_eq!(sys.logs.len(), 2);
}

#[test]
fn test_default_system_layout() {
    let sys = SystemEmulator::default();
    for a in 0..16u32 {
        assert!(sys.bus.registers.contains_key(a));
    }
    assert!(sys.bus.mmio.contains_key(0x8000));
    assert_eq!(sys.pc, 0);
    assert_eq!(sys.total_steps, 0);
}

#[test]
fn test_empty_program_never_runs() {
    let mut sys = SystemEmulator::default();
    assert!(!sys.step());
    assert_eq!(sys.pc, 0);
    assert_eq!(sys.logs.len(), 0);
}

#[test]
fn test_program_writes_console() {
    let mut bus = SystemBus::new();
    bus.add_register(0, 8);
    bus.add_mmio(0x8000, FunctionalUnit::Console(ConsoleFU::new()));
    let mut sys = SystemEmulator::new(bus);
    // Put 'A' (65) into register 0, then move it to the console.
    sys.bus.write_mem(0, &byte_vec(65));
    sys.load_program(vec![MoveOp { src: 0, dest: 0x8000, guard: None }]);
    assert!(sys.step());
    assert!(!sys.step());
    let written = sys
        .bus
        .mmio
        .entries
        .iter()
        .find_map(|(addr, unit)| match unit {
            FunctionalUnit::Console(c) if *addr == 0x8000 => Some(c.written.clone()),
            _ => None,
        })
        .expect("console device present");
    assert_eq!(written, vec![65]);
}

#[test]
fn test_jump_is_data_not_control() {
    // Moving a value into the program-counter unit's trigger changes the
    // simulated counter, never the fetch index.
    let mut bus = SystemBus::new();
    bus.add_register(0, 8);
    bus.add_unit(0x1000, FunctionalUnit::Counter(ProgramCounterFU::new()));
    let mut sys = SystemEmulator::new(bus);
    sys.bus.write_mem(0, &byte_vec(9));
    sys.load_program(vec![MoveOp { src: 0, dest: 0x1000, guard: None }]);
    assert!(sys.step());
    assert_eq!(sys.pc, 1);
    let pc_value = sys
        .bus
        .units
        .entries
        .iter()
        .find_map(|(addr, unit)| match unit {
            FunctionalUnit::Counter(c) if *addr == 0x1000 => Some(c.pc),
            _ => None,
        })
        .expect("program counter unit present");
    // The unit jumped to 9 on the move, then ticked once.
    assert_eq!(pc_value, 10);
}

#[test]
fn test_step_log_records_status() {
    let mut sys = SystemEmulator::default();
    sys.load_program(vec![MoveOp { src: 0, dest: 1, guard: None }]);
    assert!(sys.step());
    assert_eq!(sys.logs.len(), 1);
    assert_eq!(sys.logs[0].step, 0);
    assert_eq!(sys.logs[0].pc, 0);
    assert!(matches!(sys.logs[0].status, ExecStatus::Moved(_)));
}

fn byte_vec(byte: u8) -> Vec<i32> {
    (0..8)
        .map(|i| if (byte >> i) & 1 == 1 { FX_ONE } else { 0 })
        .collect()
}
