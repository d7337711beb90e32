use std::collections::BTreeMap;

use snarkvm_curves::bls12_377::{G1Affine, G2Affine};
use snarkvm_curves::AffineCurve;
use snarkvm_parameters::codec::{append_decoded_powers, decode_powers, G1Point};
use snarkvm_parameters::constants::{MAX_NUM_POWERS, NUM_POWERS_15};
use snarkvm_parameters::errors::PowersError;
use snarkvm_parameters::powers_of_beta_g::PowersOfBetaG;
use snarkvm_parameters::powers_of_g::PowersOfG;
use snarkvm_utilities::serialize::CanonicalSerialize;

fn encode<T: CanonicalSerialize>(value: &T) -> Vec<u8> {
    let mut bytes = Vec::new();
    value.serialize_uncompressed(&mut bytes).unwrap();
    bytes
}

fn block(len: usize) -> Vec<u8> {
    encode(&vec![G1Affine::prime_subgroup_generator(); len])
}

#[test]
fn decode_block_of_points() {
    let bytes = block(3);
    assert_eq!(&bytes[..8], &3u64.to_le_bytes());
    let points = decode_powers(&bytes).unwrap();
    assert_eq!(points.len(), 3);
    assert_eq!(points[2].0, G1Affine::prime_subgroup_generator());
}

#[test]
fn decode_rejects_truncated_bytes() {
    let bytes = block(3);
    assert_eq!(decode_powers(&bytes[..bytes.len() - 1]).err(), Some(PowersError::Deserialization));
    assert_eq!(decode_powers(&bytes[..5]).err(), Some(PowersError::Deserialization));
}

#[test]
fn append_decoded_blocks() {
    let mut gathered = Vec::new();
    append_decoded_powers(&mut gathered, &block(2)).unwrap();
    append_decoded_powers(&mut gathered, &block(4)).unwrap();
    assert_eq!(gathered.len(), 6);
    assert_eq!(append_decoded_powers(&mut gathered, &[1, 2, 3]), Err(PowersError::Deserialization));
    assert_eq!(gathered.len(), 6);
}

#[test]
fn load_shipped_blocks() {
    let p = PowersOfBetaG::from_bytes(&block(NUM_POWERS_15), &block(NUM_POWERS_15)).unwrap();
    assert_eq!(p.num_powers(), NUM_POWERS_15);
    let (_, shifted) = p.available_powers();
    assert_eq!(shifted, MAX_NUM_POWERS - NUM_POWERS_15..MAX_NUM_POWERS);
}

#[test]
fn loaded_runs_are_the_decoded_blocks() {
    let normal: Vec<G1Affine> = (0..NUM_POWERS_15).map(|i| if i % 2 == 0 { G1Affine::prime_subgroup_generator() } else { G1Affine::default() }).collect();
    let shifted = vec![G1Affine::default(); NUM_POWERS_15];
    let p = PowersOfBetaG::from_bytes(&encode(&normal), &encode(&shifted)).unwrap();
    let (n, s) = p.parts();
    assert!(n.iter().zip(normal.iter()).all(|(a, b)| a.0 == *b));
    assert!(s.iter().all(|a| a.0 == G1Affine::default()));
}

#[test]
fn load_rejects_wrong_lengths_and_bad_bytes() {
    let good = block(NUM_POWERS_15);
    let short = block(NUM_POWERS_15 - 1);
    assert_eq!(PowersOfBetaG::from_bytes(&short, &good).err(), Some(PowersError::IncorrectNumberOfPowers));
    assert_eq!(PowersOfBetaG::from_bytes(&good, &short).err(), Some(PowersError::IncorrectNumberOfPowers));
    assert_eq!(PowersOfBetaG::from_bytes(&[0u8; 4], &good).err(), Some(PowersError::Deserialization));
    assert_eq!(PowersOfBetaG::from_bytes(&good, &[0u8; 4]).err(), Some(PowersError::Deserialization));
    assert_eq!(PowersOfBetaG::from_bytes(&short, &[0u8; 4]).err(), Some(PowersError::IncorrectNumberOfPowers));
}

#[test]
fn extend_with_decoded_block() {
    let mut p = PowersOfBetaG::from_bytes(&block(NUM_POWERS_15), &block(NUM_POWERS_15)).unwrap();
    p.extend_powers_from_bytes(&block(NUM_POWERS_15)).unwrap();
    assert_eq!(p.num_powers(), 2 * NUM_POWERS_15);
    assert_eq!(p.extend_powers_from_bytes(&[9u8; 3]), Err(PowersError::Deserialization));
    assert_eq!(p.num_powers(), 2 * NUM_POWERS_15);
}

fn srs_parts() -> (Vec<u8>, Vec<u8>, Vec<u8>) {
    let mut gamma = BTreeMap::new();
    gamma.insert(0usize, G1Affine::prime_subgroup_generator());
    gamma.insert(1usize, G1Affine::prime_subgroup_generator());
    let mut negative = BTreeMap::new();
    negative.insert(1usize, G2Affine::prime_subgroup_generator());
    (encode(&gamma), encode(&negative), encode(&G2Affine::prime_subgroup_generator()))
}

#[test]
fn load_srs() {
    let (gamma, negative, beta_h) = srs_parts();
    let mut srs = PowersOfG::from_bytes(&block(NUM_POWERS_15), &block(NUM_POWERS_15), &gamma, &negative, &beta_h).unwrap();
    assert_eq!(srs.num_powers(), NUM_POWERS_15);
    assert_eq!(srs.max_num_powers(), MAX_NUM_POWERS);
    assert_eq!(srs.powers_of_beta_gamma_g().len(), 2);
    assert_eq!(srs.negative_powers_of_beta_h().len(), 1);
    assert_eq!(srs.beta_h().0, G2Affine::prime_subgroup_generator());
    srs.beta_g_powers_mut().extend_powers(vec![G1Point(G1Affine::prime_subgroup_generator()); NUM_POWERS_15]);
    assert_eq!(srs.num_powers(), 2 * NUM_POWERS_15);
    assert_eq!(srs.beta_g_powers().num_powers(), 2 * NUM_POWERS_15);
}

#[test]
fn load_srs_rejects_bad_parts() {
    let (gamma, negative, beta_h) = srs_parts();
    let good = block(NUM_POWERS_15);
    assert_eq!(PowersOfG::from_bytes(&good, &good, &[1u8], &negative, &beta_h).err(), Some(PowersError::Deserialization));
    assert_eq!(PowersOfG::from_bytes(&good, &good, &gamma, &[1u8], &beta_h).err(), Some(PowersError::Deserialization));
    assert_eq!(PowersOfG::from_bytes(&good, &good, &gamma, &negative, &[1u8]).err(), Some(PowersError::Deserialization));
    assert_eq!(PowersOfG::from_bytes(&block(1), &good, &gamma, &negative, &beta_h).err(), Some(PowersError::IncorrectNumberOfPowers));
}

#[test]
fn srs_of_plain_parts() {
    let inner: PowersOfBetaG<u8> = PowersOfBetaG::new(vec![1, 2, 3], vec![4]);
    let srs: PowersOfG<u8, u16> = PowersOfG::new(inner, BTreeMap::new(), BTreeMap::new(), 7u16);
    assert_eq!(srs.beta_h(), 7);
    assert_eq!(srs.num_powers(), 3);
    assert_eq!(srs.beta_g_powers().parts().1, &[4]);
}
