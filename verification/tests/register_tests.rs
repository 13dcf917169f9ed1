use neuro_symbolic_emulator::fx::{FX_HALF, FX_ONE};
use neuro_symbolic_emulator::register::NeuralRegister;

#[test]
fn test_symbolic_roundtrip() {
    for val in [0u32, 1, 2, 5, 37, 128, 200, 255] {
        let reg = NeuralRegister::from_symbolic(8, val);
        assert_eq!(reg.to_symbolic(), val);
    }
    let reg = NeuralRegister::from_symbolic(32, 0xDEAD_BEEF);
    assert_eq!(reg.to_symbolic(), 0xDEAD_BEEF);
    let reg = NeuralRegister::from_symbolic(0, 0);
    assert_eq!(reg.to_symbolic(), 0);
}

#[test]
fn test_cleanup_property() {
    let fuzz: Vec<i32> = vec![
        0,
        100,
        FX_HALF - 1,
        FX_HALF,
        FX_HALF + 1,
        FX_ONE - 3,
        FX_ONE,
        2 * FX_ONE,
    ];
    let mut reg = NeuralRegister::new(8);
    assert!(reg.write(&fuzz));

    reg.cleanup();

    for (i, &v) in reg.state.iter().enumerate() {
        assert!(v == 0 || v == FX_ONE);
        // Each activation snapped to the side of the threshold it was on.
        if fuzz[i] > FX_HALF {
            assert_eq!(v, FX_ONE);
        } else {
            assert_eq!(v, 0);
        }
    }

    // Cleaning up a second time changes nothing.
    let once = reg.state.clone();
    reg.cleanup();
    assert_eq!(reg.state, once);
}

#[test]
fn test_write_size_mismatch_rejected() {
    let mut reg = NeuralRegister::new(4);
    assert!(reg.write(&vec![FX_ONE, 0, FX_ONE, 0]));
    assert!(!reg.write(&vec![FX_ONE]));
    assert_eq!(reg.read(), vec![FX_ONE, 0, FX_ONE, 0]);
}

#[test]
fn test_read_is_a_copy() {
    let reg = NeuralRegister::from_symbolic(8, 0b1010_0110);
    let copy = reg.read();
    assert_eq!(copy.len(), 8);
    for i in 0..8 {
        let expected = if (0b1010_0110 >> i) & 1 == 1 { FX_ONE } else { 0 };
        assert_eq!(copy[i], expected);
    }
}
