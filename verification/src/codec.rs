//! Decoding of the published blocks of powers (little-endian, uncompressed,
//! unchecked encoding of snarkVM) into group elements of BLS12-377.

use std::collections::BTreeMap;

use snarkvm_curves::bls12_377::{G1Affine, G2Affine};
use snarkvm_utilities::serialize::{CanonicalDeserialize, SerializationError};
use vstd::bytes::spec_u64_from_le_bytes;
use vstd::prelude::*;

use crate::constants::NUM_POWERS_15;
use crate::errors::PowersError;
use crate::powers_of_beta_g::{check_shipped_block, PowersOfBetaG};

verus! {

/// A point of the G1 group of BLS12-377, in affine coordinates. The library
/// moves points around without looking into them.
#[verifier::external_body]
#[derive(Copy)]
pub struct G1Point(pub G1Affine);

/// A point of the G2 group of BLS12-377, in affine coordinates. The library
/// moves points around without looking into them.
#[verifier::external_body]
#[derive(Copy)]
pub struct G2Point(pub G2Affine);

impl Clone for G1Point {
    /// A copy of the point.
    #[verifier::external_body]
    fn clone(&self) -> (r: Self)
        ensures
            r == *self,
    {
        *self
    }
}

impl Clone for G2Point {
    /// A copy of the point.
    #[verifier::external_body]
    fn clone(&self) -> (r: Self)
        ensures
            r == *self,
    {
        *self
    }
}

/// The error that snarkVM's decoding reports.
#[verifier::external_type_specification]
#[verifier::external_body]
pub struct ExSerializationError(SerializationError);

/// The number that the first eight bytes of an encoding state, little-endian:
/// the length of the encoded vector or map.
pub open spec fn length_prefix(bytes: Seq<u8>) -> nat {
    spec_u64_from_le_bytes(bytes.subrange(0, 8)) as nat
}

/// The vector of G1 points that the bytes decode to, if they decode.
pub uninterp spec fn decoded_g1_powers(bytes: Seq<u8>) -> Option<Seq<G1Point>>;

/// The map from indices to G1 points that the bytes decode to, if they decode.
/// Keys are read as `u64` and converted to `usize`, so the name fixes the
/// pointer width of the target (64 bits for the published files).
pub uninterp spec fn decoded_g1_map(bytes: Seq<u8>) -> Option<Map<usize, G1Point>>;

/// The map from indices to G2 points that the bytes decode to, if they decode.
/// Keys are read as in `decoded_g1_map`.
pub uninterp spec fn decoded_g2_map(bytes: Seq<u8>) -> Option<Map<usize, G2Point>>;

/// The G2 point that the bytes decode to, if they decode.
pub uninterp spec fn decoded_g2_point(bytes: Seq<u8>) -> Option<G2Point>;

/// `Vec::<G1Affine>::deserialize_uncompressed_unchecked` on the bytes, each
/// point wrapped as it comes. The outcome is a function of the bytes (named);
/// on success the bytes start with the little-endian `u64` length of the
/// vector, which is the length of the result.
#[verifier::external_body]
fn deserialize_g1_vec(bytes: &[u8]) -> (r: Result<Vec<G1Point>, SerializationError>)
    ensures
        match r {
            Ok(v) => decoded_g1_powers(bytes@) == Some(v@),
            Err(_) => decoded_g1_powers(bytes@) is None,
        },
        r matches Ok(v) ==> bytes@.len() >= 8 && v@.len() == length_prefix(bytes@),
{
    Vec::<G1Affine>::deserialize_uncompressed_unchecked(bytes).map(
        |v| v.into_iter().map(G1Point).collect(),
    )
}

/// `BTreeMap::<usize, G1Affine>::deserialize_uncompressed_unchecked` on the
/// bytes, each point wrapped as it comes. The outcome is a function of the bytes
/// (named); on success the bytes start with the little-endian `u64` number of
/// entries read, which bounds the number of keys.
#[verifier::external_body]
pub(crate) fn deserialize_g1_map(bytes: &[u8]) -> (r: Result<
    BTreeMap<usize, G1Point>,
    SerializationError,
>)
    ensures
        match r {
            Ok(m) => decoded_g1_map(bytes@) == Some(m@),
            Err(_) => decoded_g1_map(bytes@) is None,
        },
        r matches Ok(m) ==> bytes@.len() >= 8 && m@.dom().len() <= length_prefix(bytes@),
{
    BTreeMap::<usize, G1Affine>::deserialize_uncompressed_unchecked(bytes).map(
        |m| m.into_iter().map(|(k, v)| (k, G1Point(v))).collect(),
    )
}

/// `BTreeMap::<usize, G2Affine>::deserialize_uncompressed_unchecked` on the
/// bytes, each point wrapped as it comes. The outcome is a function of the bytes
/// (named); on success the bytes start with the little-endian `u64` number of
/// entries read, which bounds the number of keys.
#[verifier::external_body]
pub(crate) fn deserialize_g2_map(bytes: &[u8]) -> (r: Result<
    BTreeMap<usize, G2Point>,
    SerializationError,
>)
    ensures
        match r {
            Ok(m) => decoded_g2_map(bytes@) == Some(m@),
            Err(_) => decoded_g2_map(bytes@) is None,
        },
        r matches Ok(m) ==> bytes@.len() >= 8 && m@.dom().len() <= length_prefix(bytes@),
{
    BTreeMap::<usize, G2Affine>::deserialize_uncompressed_unchecked(bytes).map(
        |m| m.into_iter().map(|(k, v)| (k, G2Point(v))).collect(),
    )
}

/// `G2Affine::deserialize_uncompressed_unchecked` on the bytes, the point
/// wrapped. The outcome is a function of the bytes (named).
#[verifier::external_body]
pub(crate) fn deserialize_g2_point(bytes: &[u8]) -> (r: Result<G2Point, SerializationError>)
    ensures
        match r {
            Ok(p) => decoded_g2_point(bytes@) == Some(p),
            Err(_) => decoded_g2_point(bytes@) is None,
        },
{
    G2Affine::deserialize_uncompressed_unchecked(bytes).map(G2Point)
}

/// Decodes a block of powers.
pub fn decode_powers(bytes: &[u8]) -> (r: Result<Vec<G1Point>, PowersError>)
    ensures
        match r {
            Ok(v) => decoded_g1_powers(bytes@) == Some(v@),
            Err(e) => decoded_g1_powers(bytes@) is None && e == PowersError::Deserialization,
        },
        r matches Ok(v) ==> bytes@.len() >= 8 && v@.len() == length_prefix(bytes@),
{
    match deserialize_g1_vec(bytes) {
        Ok(v) => Ok(v),
        Err(_) => Err(PowersError::Deserialization),
    }
}

/// Appends a decoded block of shifted powers to the blocks gathered so far.
pub fn append_decoded_powers(gathered: &mut Vec<G1Point>, bytes: &[u8]) -> (r: Result<
    (),
    PowersError,
>)
    ensures
        match r {
            Ok(_) => decoded_g1_powers(bytes@) is Some && final(gathered)@ == old(gathered)@
                + decoded_g1_powers(bytes@).unwrap(),
            Err(e) => decoded_g1_powers(bytes@) is None && e == PowersError::Deserialization
                && final(gathered)@ == old(gathered)@,
        },
{
    let mut additional = decode_powers(bytes)?;
    gathered.append(&mut additional);
    Ok(())
}

/// The error that loading the two shipped blocks reports, if any: each block
/// must decode and hold exactly 2^15 powers, the normal block checked first.
pub open spec fn load_error(powers_bytes: Seq<u8>, shifted_bytes: Seq<u8>) -> Option<PowersError> {
    if decoded_g1_powers(powers_bytes) is None {
        Some(PowersError::Deserialization)
    } else if decoded_g1_powers(powers_bytes).unwrap().len() != NUM_POWERS_15 {
        Some(PowersError::IncorrectNumberOfPowers)
    } else if decoded_g1_powers(shifted_bytes) is None {
        Some(PowersError::Deserialization)
    } else if decoded_g1_powers(shifted_bytes).unwrap().len() != NUM_POWERS_15 {
        Some(PowersError::IncorrectNumberOfPowers)
    } else {
        None
    }
}

impl PowersOfBetaG<G1Point> {
    /// Builds the powers from the two shipped blocks: the first 2^15 normal
    /// powers and the last 2^15 shifted powers.
    pub fn from_bytes(powers_bytes: &[u8], shifted_bytes: &[u8]) -> (r: Result<Self, PowersError>)
        ensures
            match r {
                Ok(p) => load_error(powers_bytes@, shifted_bytes@) is None && p@.normal
                    == decoded_g1_powers(powers_bytes@).unwrap() && p@.shifted == decoded_g1_powers(
                    shifted_bytes@,
                ).unwrap(),
                Err(e) => load_error(powers_bytes@, shifted_bytes@) == Some(e),
            },
            r matches Ok(p) ==> p@.normal.len() == NUM_POWERS_15 && p@.shifted.len()
                == NUM_POWERS_15,
    {
        let powers_of_beta_g = check_shipped_block(decode_powers(powers_bytes)?)?;
        let shifted_powers_of_beta_g = check_shipped_block(decode_powers(shifted_bytes)?)?;
        Ok(PowersOfBetaG::new(powers_of_beta_g, shifted_powers_of_beta_g))
    }

    /// Decodes a downloaded block of normal powers and appends it.
    pub fn extend_powers_from_bytes(&mut self, bytes: &[u8]) -> (r: Result<(), PowersError>)
        ensures
            match r {
                Ok(_) => decoded_g1_powers(bytes@) is Some && final(self)@.normal == old(
                    self,
                )@.normal + decoded_g1_powers(bytes@).unwrap() && final(self)@.shifted == old(
                    self,
                )@.shifted,
                Err(e) => decoded_g1_powers(bytes@) is None && e == PowersError::Deserialization
                    && final(self)@ == old(self)@,
            },
            r is Ok ==> bytes@.len() >= 8 && final(self)@.normal.len() == old(self)@.normal.len()
                + length_prefix(bytes@),
    {
        let additional = decode_powers(bytes)?;
        self.extend_powers(additional);
        Ok(())
    }
}

} // verus!
