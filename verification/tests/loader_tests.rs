use neuro_symbolic_emulator::fu::FunctionalUnit;
use neuro_symbolic_emulator::fx::FX_ONE;
use neuro_symbolic_emulator::loader::{build_system, Manifest, UnitConfig, UnitKind};

#[test]
fn test_manifest_system_build() {
    // The same configuration the manifest file format describes: a console
    // device at 32768 (0x8000) and a comparator unit at 4096 (0x1000).
    let manifest = Manifest {
        ram_size: 1024,
        units: vec![
            UnitConfig {
                name: String::from("TestUART"),
                address: 32768,
                unit_type: UnitKind::Console,
                weights_path: None,
            },
            UnitConfig {
                name: String::from("TestCmp"),
                address: 4096,
                unit_type: UnitKind::Comparator,
                weights_path: None,
            },
        ],
        program_path: None,
        ram_init: Vec::new(),
    };

    let sys = build_system(&manifest);

    // The device landed in the MMIO region, the unit in the unit region.
    assert!(sys.bus.mmio.contains_key(32768));
    assert!(sys.bus.units.contains_key(4096));
    // Registers 0 through 15 are pre-allocated at width 8.
    assert!(sys.bus.registers.contains_key(0));
    assert!(sys.bus.registers.contains_key(15));

    let is_console = sys.bus.mmio.entries.iter().any(|(addr, unit)| {
        *addr == 32768 && matches!(unit, FunctionalUnit::Console(_))
    });
    assert!(is_console);
    let is_comparator = sys.bus.units.entries.iter().any(|(addr, unit)| match unit {
        FunctionalUnit::Trainable(b) => *addr == 4096 && b.w2.len() == 3,
        _ => false,
    });
    assert!(is_comparator);
}

#[test]
fn test_manifest_ram_init() {
    let manifest = Manifest {
        ram_size: 64,
        units: Vec::new(),
        program_path: None,
        ram_init: vec![(0x2000, vec![FX_ONE, 0]), (0x2004, vec![0, FX_ONE])],
    };
    let sys = build_system(&manifest);
    assert_eq!(sys.bus.read_mem(0x2000), vec![FX_ONE, 0]);
    assert_eq!(sys.bus.read_mem(0x2004), vec![0, FX_ONE]);
    // An address the image does not mention reads as the zero default.
    assert_eq!(sys.bus.read_mem(0x2008), vec![0; 8]);
}
