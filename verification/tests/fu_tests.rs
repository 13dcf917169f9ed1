use neuro_symbolic_emulator::fu::{
    Activation, BaseFU, ConsoleFU, FunctionalUnit, LoadStoreFU, ProgramCounterFU, StackPointerFU,
};
use neuro_symbolic_emulator::fx::{FX_HALF, FX_ONE, FX_QUARTER};

#[test]
fn test_activation_apply_values() {
    let pre = vec![-2 * FX_ONE, -FX_ONE, 0, FX_HALF, FX_ONE, 3 * FX_ONE];
    assert_eq!(
        Activation::ReLU.apply(&pre),
        vec![0, 0, 0, FX_HALF, FX_ONE, 3 * FX_ONE]
    );
    assert_eq!(
        Activation::Identity.apply(&pre),
        pre
    );
    // Hard tanh clamps into [-1, 1].
    assert_eq!(
        Activation::Tanh.apply(&pre),
        vec![-FX_ONE, -FX_ONE, 0, FX_HALF, FX_ONE, FX_ONE]
    );
    // Hard sigmoid: clamp(0.5 + x/4, 0, 1).
    assert_eq!(
        Activation::Sigmoid.apply(&pre),
        vec![0, FX_HALF - FX_QUARTER, FX_HALF, FX_HALF + FX_HALF / 4, FX_HALF + FX_QUARTER, FX_ONE]
    );
}

#[test]
fn test_activation_derivative_values() {
    let pre = vec![-3 * FX_ONE, -FX_ONE / 2, FX_ONE / 2, 3 * FX_ONE];
    assert_eq!(Activation::ReLU.derivative(&pre), vec![0, 0, FX_ONE, FX_ONE]);
    assert_eq!(
        Activation::Identity.derivative(&pre),
        vec![FX_ONE, FX_ONE, FX_ONE, FX_ONE]
    );
    assert_eq!(
        Activation::Sigmoid.derivative(&pre),
        vec![0, FX_QUARTER, FX_QUARTER, 0]
    );
    assert_eq!(
        Activation::Tanh.derivative(&pre),
        vec![0, FX_ONE, FX_ONE, 0]
    );
}

/// A trivial 1-1-1 identity network.
fn identity_unit() -> BaseFU {
    BaseFU::new(
        vec![vec![FX_ONE]],
        vec![0],
        vec![vec![FX_ONE]],
        vec![0],
        Activation::Identity,
        Activation::Identity,
    )
}

#[test]
fn test_base_fu_forward_exact() {
    let fu = BaseFU::new(
        vec![vec![FX_ONE, FX_ONE], vec![FX_ONE, -FX_ONE]],
        vec![0, 0],
        vec![vec![FX_ONE, FX_ONE]],
        vec![FX_HALF],
        Activation::Identity,
        Activation::Identity,
    );
    // h = [a + b, a - b]; y = h1 + h2 + 0.5 = 2a + 0.5.
    let out = fu.forward(&vec![FX_ONE, FX_ONE]);
    assert_eq!(out, vec![2 * FX_ONE + FX_HALF]);
}

#[test]
fn test_train_step_exact_update() {
    let mut fu = identity_unit();
    // Forward: y = x.  On input 1.0 with target 0.0 and lr 0.5 the
    // gradient step moves every weight and bias by exactly -0.5.
    fu.train_step(&vec![FX_ONE], &vec![0], FX_HALF);
    assert_eq!(fu.w2, vec![vec![FX_HALF]]);
    assert_eq!(fu.b2, vec![-FX_HALF]);
    assert_eq!(fu.w1, vec![vec![FX_HALF]]);
    assert_eq!(fu.b1, vec![-FX_HALF]);
}

#[test]
fn test_train_step_reduces_error() {
    let mut fu = identity_unit();
    let input = vec![FX_ONE];
    let target = vec![0];
    let before = fu.forward(&input)[0];
    for _ in 0..8 {
        fu.train_step(&input, &target, FX_HALF / 4);
    }
    let after = fu.forward(&input)[0];
    assert!(after.abs() < before.abs());
}

#[test]
fn test_perturb_stays_within_bound() {
    let mut fu = BaseFU::create_adder();
    let w1_before = fu.w1.clone();
    let w2_before = fu.w2.clone();
    let b1_before = fu.b1.clone();
    let amount = FX_ONE / 16;
    fu.perturb(amount);
    assert_eq!(fu.b1, b1_before);
    for (row_new, row_old) in fu.w1.iter().zip(w1_before.iter()) {
        for (&n, &o) in row_new.iter().zip(row_old.iter()) {
            assert!((n as i64 - o as i64).abs() <= amount as i64);
        }
    }
    for (row_new, row_old) in fu.w2.iter().zip(w2_before.iter()) {
        for (&n, &o) in row_new.iter().zip(row_old.iter()) {
            assert!((n as i64 - o as i64).abs() <= amount as i64);
        }
    }
}

#[test]
fn test_create_presets_shapes() {
    let adder = BaseFU::create_adder();
    assert_eq!(adder.w1.len(), 32);
    assert_eq!(adder.w1[0].len(), 16);
    assert_eq!(adder.w2.len(), 9);
    let cmp = BaseFU::create_comparator();
    assert_eq!(cmp.w1.len(), 24);
    assert_eq!(cmp.w2.len(), 3);
    let bw = BaseFU::create_bitwise();
    assert_eq!(bw.w1[0].len(), 19);
    assert_eq!(bw.w2.len(), 8);
}

#[test]
fn test_program_counter_unit() {
    let mut pc = ProgramCounterFU::new();
    assert_eq!(pc.pc, 0);
    pc.tick();
    pc.tick();
    assert_eq!(pc.pc, 2);
    // A write is a jump: the input decodes as the new counter value.
    let out = pc.forward(&vec![FX_ONE, 0, FX_ONE]); // binary 101
    assert_eq!(pc.pc, 5);
    // The output is the low byte of the counter as bit planes.
    assert_eq!(out, vec![FX_ONE, 0, FX_ONE, 0, 0, 0, 0, 0]);
}

#[test]
fn test_load_store_unit() {
    let mut ls = LoadStoreFU::new(3);
    ls.memory.insert(2, vec![FX_ONE, 0, FX_ONE]);
    // Address 2 is mapped.
    assert_eq!(ls.forward(&vec![0, FX_ONE]), vec![FX_ONE, 0, FX_ONE]);
    // An unmapped address reads as all zeros at the declared width.
    assert_eq!(ls.forward(&vec![FX_ONE, FX_ONE]), vec![0, 0, 0]);
}

#[test]
fn test_stack_pointer_unit() {
    let mut sp = StackPointerFU::new(2);
    assert_eq!(sp.sp, 0xFF);
    let data = vec![FX_ONE, 0];
    // Every trigger is a push: decrement, store, pass through.
    let out = sp.forward(&data);
    assert_eq!(out, data);
    assert_eq!(sp.sp, 0xFE);
    let stored = sp.stack.get_copy(0xFE).expect("pushed value is stored");
    assert_eq!(stored, data);
}

#[test]
fn test_console_device_decodes_bytes() {
    let mut console = ConsoleFU::new();
    // 'H' = 72, 'i' = 105, written as bit planes.
    for byte in [72u8, 105] {
        let mut v = Vec::new();
        for i in 0..8 {
            v.push(if (byte >> i) & 1 == 1 { FX_ONE } else { 0 });
        }
        console.forward(&v);
    }
    assert_eq!(console.written, vec![72, 105]);
}

#[test]
fn test_unit_dispatch_rejects_wrong_width() {
    let mut unit = FunctionalUnit::Trainable(identity_unit());
    assert!(unit.forward(&vec![FX_ONE]).is_some());
    assert!(unit.forward(&vec![FX_ONE, FX_ONE]).is_none());
}
