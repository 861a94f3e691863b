use crypto_common::core_wrapper::CoreWrapper;
use crypto_common::ct_output::CtOutput;
use crypto_common::init::{InvalidLength, KeyInit};
use crypto_common::xor_core::XorCore;
use crypto_common::{AlgorithmName, FixedOutput, FixedOutputReset, Reset, Update};

fn fresh() -> CoreWrapper<XorCore> {
    CoreWrapper::from_core(XorCore::default())
}

#[test]
fn xor_scenario_single_update() {
    let mut h = fresh();
    h.update(&[1, 2, 3, 4, 5, 6]);
    assert_eq!(h.finalize_fixed(), vec![1 ^ 5, 2 ^ 6, 3, 4]);
}

#[test]
fn xor_scenario_two_updates() {
    let mut a = fresh();
    a.update(&[1, 2, 3, 4, 5, 6]);
    let mut b = fresh();
    b.update(&[1, 2, 3]);
    b.update(&[4, 5, 6]);
    assert_eq!(a.finalize_fixed(), b.finalize_fixed());
}

#[test]
fn chunking_byte_at_a_time() {
    let data: Vec<u8> = (0u8..23).collect();
    let mut whole = fresh();
    whole.update(&data);
    let mut bytes = fresh();
    for b in &data {
        bytes.update(&[*b]);
    }
    let mut uneven = fresh();
    uneven.update(&data[..5]);
    uneven.update(&data[5..6]);
    uneven.update(&[]);
    uneven.update(&data[6..]);
    let expected = whole.finalize_fixed();
    assert_eq!(bytes.finalize_fixed(), expected);
    assert_eq!(uneven.finalize_fixed(), expected);
}

#[test]
fn reset_after_finalize_matches_fresh() {
    let mut h = fresh();
    h.update(&[9, 8, 7, 6, 5, 4, 3]);
    let first = h.finalize_fixed_reset();
    assert_eq!(first, vec![9 ^ 5, 8 ^ 4, 7 ^ 3, 6]);
    assert_eq!(h.buffered_len(), 0);
    h.update(&[1, 2, 3, 4, 5, 6]);
    let mut f = fresh();
    f.update(&[1, 2, 3, 4, 5, 6]);
    assert_eq!(h.finalize_fixed(), f.finalize_fixed());
}

#[test]
fn finalize_into_reset_writes_output() {
    let mut h = fresh();
    h.update(&[1, 1, 1, 1, 2]);
    let mut out = vec![0u8; 4];
    h.finalize_into_reset(&mut out);
    assert_eq!(out, vec![3, 1, 1, 1]);
    let mut out2 = vec![0u8; 4];
    h.finalize_into(&mut out2);
    assert_eq!(out2, vec![0, 0, 0, 0]);
}

#[test]
fn reset_clears_buffer_and_state() {
    let mut h = fresh();
    h.update(&[5, 5, 5, 5, 5, 5]);
    h.reset();
    assert_eq!(h.buffered_len(), 0);
    assert_eq!(h.finalize_fixed(), vec![0, 0, 0, 0]);
}

#[test]
fn keyed_reset_returns_to_key() {
    let mut h = <CoreWrapper<XorCore> as KeyInit>::new(&[1, 2, 3, 4]).unwrap();
    h.update(&[1, 1, 1, 1, 1]);
    let first = h.finalize_fixed_reset();
    assert_eq!(first, vec![1 ^ 1 ^ 1, 2 ^ 1, 3 ^ 1, 4 ^ 1]);
    assert_eq!(h.finalize_fixed_reset(), vec![1, 2, 3, 4]);
}

#[test]
fn key_length_rejected() {
    assert_eq!(XorCore::new(&[1, 2, 3]).err(), Some(InvalidLength));
    assert_eq!(XorCore::new(&[1, 2, 3, 4, 5]).err(), Some(InvalidLength));
    assert_eq!(XorCore::new(&[]).err(), Some(InvalidLength));
    assert!(<CoreWrapper<XorCore> as KeyInit>::new(&[0; 3]).is_err());
    assert!(XorCore::new(&[1, 2, 3, 4]).is_ok());
}

#[test]
fn buffer_stays_below_block() {
    let mut h = fresh();
    for n in 0..20usize {
        let piece = vec![0xAAu8; n];
        h.update(&piece);
        assert!(h.buffered_len() < 4);
    }
    h.update(&[1, 2, 3]);
    assert_eq!(h.buffered_len(), (190 + 3) % 4);
}

#[test]
fn ct_output_equality() {
    let a = CtOutput::new(vec![1, 2, 3, 4]);
    let b = CtOutput::new(vec![1, 2, 3, 4]);
    let first = CtOutput::new(vec![0, 2, 3, 4]);
    let last = CtOutput::new(vec![1, 2, 3, 5]);
    let short = CtOutput::new(vec![1, 2, 3]);
    assert!(a == b);
    assert!(a != first);
    assert!(a != last);
    assert!(a != short);
    assert_eq!(a.into_bytes(), vec![1, 2, 3, 4]);
}

#[test]
fn algorithm_name() {
    assert_eq!(<CoreWrapper<XorCore> as AlgorithmName>::alg_name(), "Xor4");
}
