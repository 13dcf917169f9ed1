use neuro_symbolic_emulator::bus::{ExecStatus, MoveOp, SystemBus, WriteTarget};
use neuro_symbolic_emulator::fu::{FunctionalUnit, LoadStoreFU};
use neuro_symbolic_emulator::fx::FX_ONE;

#[test]
fn test_bus_memory_map() {
    let mut bus = SystemBus::new();
    bus.add_register(0, 8);
    bus.add_unit(0x1000, FunctionalUnit::LoadStore(LoadStoreFU::new(8)));
    bus.ram.insert(0x2000, vec![42 * FX_ONE]);

    // Register write and read back.
    let data = vec![FX_ONE, 0, FX_ONE, 0, 0, 0, 0, 0];
    bus.write_mem(0, &data);
    let read_back = bus.read_mem(0);
    assert_eq!(read_back, data);

    // RAM write and read back (99.9 in Q16.16).
    let ram_data = vec![99 * FX_ONE + 58982];
    bus.write_mem(0x2000, &ram_data);
    let ram_read = bus.read_mem(0x2000);
    assert_eq!(ram_read, ram_data);
}

#[test]
fn test_guard_logic() {
    let mut bus = SystemBus::new();
    bus.add_register(0, 1); // Source
    bus.add_register(1, 1); // Dest
    bus.add_register(2, 1); // Guard

    // Source reads 1.0, destination starts at 0.0.
    bus.write_mem(0, &vec![FX_ONE]);
    bus.write_mem(1, &vec![0]);

    // Guard low: no move.
    bus.write_mem(2, &vec![0]);
    let op = MoveOp { src: 0, dest: 1, guard: Some(2) };
    let res = bus.execute(&op);
    assert!(matches!(res, ExecStatus::Skipped));
    assert_eq!(bus.read_mem(1)[0], 0);

    // Guard high: the move happens.
    bus.write_mem(2, &vec![FX_ONE]);
    let res = bus.execute(&op);
    assert!(!matches!(res, ExecStatus::Skipped));
    assert_eq!(bus.read_mem(1)[0], FX_ONE);
}

#[test]
fn test_address_region_boundaries() {
    let mut bus = SystemBus::new();
    bus.add_register(0x0FFF, 1);
    bus.add_unit(0x1000, FunctionalUnit::LoadStore(LoadStoreFU::new(4)));
    bus.add_unit(0x1FFF, FunctionalUnit::LoadStore(LoadStoreFU::new(4)));
    bus.add_mmio(0x8000, FunctionalUnit::LoadStore(LoadStoreFU::new(4)));
    bus.add_mmio(0xFFFF, FunctionalUnit::LoadStore(LoadStoreFU::new(4)));

    let one = vec![FX_ONE];
    assert_eq!(bus.write_mem(0x0FFF, &one), WriteTarget::Register(0x0FFF));
    assert_eq!(bus.write_mem(0x1000, &one), WriteTarget::Unit(0x1000));
    assert_eq!(bus.write_mem(0x1FFF, &one), WriteTarget::Unit(0x1FFF));
    assert_eq!(bus.write_mem(0x2000, &one), WriteTarget::Ram(0x2000));
    assert_eq!(bus.write_mem(0x7FFF, &one), WriteTarget::Ram(0x7FFF));
    assert_eq!(bus.write_mem(0x8000, &one), WriteTarget::Mmio(0x8000));
    assert_eq!(bus.write_mem(0xFFFF, &one), WriteTarget::Mmio(0xFFFF));

    // Unpopulated addresses are reported unknown and read as zeros.
    assert_eq!(bus.write_mem(0x0000, &one), WriteTarget::Unknown(0x0000));
    assert_eq!(bus.read_mem(0x0000), vec![0; 8]);
    assert_eq!(bus.read_mem(0x1000), vec![0; 8]);
}

#[test]
fn test_register_write_size_mismatch() {
    let mut bus = SystemBus::new();
    bus.add_register(3, 4);
    bus.write_mem(3, &vec![FX_ONE, FX_ONE, FX_ONE, FX_ONE]);
    // A write of the wrong width is reported and changes nothing.
    let t = bus.write_mem(3, &vec![0, 0]);
    assert_eq!(t, WriteTarget::RegisterSizeMismatch(3));
    assert_eq!(bus.read_mem(3), vec![FX_ONE, FX_ONE, FX_ONE, FX_ONE]);
}

#[test]
fn test_unit_trigger_caches_io() {
    let mut bus = SystemBus::new();
    let mut ls = LoadStoreFU::new(2);
    ls.memory.insert(3, vec![FX_ONE, 0]);
    bus.add_unit(0x1000, FunctionalUnit::LoadStore(ls));

    // Trigger the unit with an input decoding address 3.
    let input = vec![FX_ONE, FX_ONE];
    assert_eq!(bus.write_mem(0x1000, &input), WriteTarget::Unit(0x1000));
    let io = bus.cached_io(0x1000).expect("trigger caches the input/output pair");
    assert_eq!(io.0, input);
    assert_eq!(io.1, vec![FX_ONE, 0]);
}
