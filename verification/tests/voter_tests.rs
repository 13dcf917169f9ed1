use neuro_symbolic_emulator::fx::{FX_HALF, FX_ONE};
use neuro_symbolic_emulator::voter::VoterBlock;

#[test]
fn test_vote_empty_is_error() {
    let (value, drift) = VoterBlock::vote(&Vec::new(), FX_ONE);
    assert!(value.is_empty());
    assert!(drift);
}

#[test]
fn test_vote_agreeing_pair() {
    let outputs = vec![vec![FX_ONE, 0], vec![FX_ONE, 0]];
    let (value, drift) = VoterBlock::vote(&outputs, 100);
    assert_eq!(value, vec![FX_ONE, 0]);
    assert!(!drift);
}

#[test]
fn test_vote_drifting_pair_returns_mean() {
    // One output is all ones, the other all zeros: mean squared error is
    // exactly 1.0, above a threshold of 0.5, so drift is flagged and the
    // mean (0.5 each) comes back.
    let outputs = vec![vec![FX_ONE, FX_ONE], vec![0, 0]];
    let (value, drift) = VoterBlock::vote(&outputs, FX_HALF);
    assert!(drift);
    assert_eq!(value, vec![FX_HALF, FX_HALF]);
}

#[test]
fn test_vote_threshold_boundary() {
    // Mean squared error exactly equal to the threshold is not drift.
    let outputs = vec![vec![FX_ONE], vec![0]];
    let (value, drift) = VoterBlock::vote(&outputs, FX_ONE);
    assert!(!drift);
    assert_eq!(value, vec![FX_ONE]);
}

#[test]
fn test_vote_other_counts_return_first() {
    let outputs = vec![vec![42], vec![1], vec![2]];
    let (value, drift) = VoterBlock::vote(&outputs, 0);
    assert_eq!(value, vec![42]);
    assert!(!drift);
}
