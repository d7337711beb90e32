//! The universal SRS: the powers of beta times G, with the powers of beta
//! times gamma G that are used for hiding, the negative powers of beta times H,
//! and beta times H.

use std::collections::BTreeMap;

use vstd::prelude::*;

use crate::codec::{
    decoded_g1_map,
    decoded_g1_powers,
    decoded_g2_map,
    decoded_g2_point,
    deserialize_g1_map,
    deserialize_g2_map,
    deserialize_g2_point,
    load_error,
    G1Point,
    G2Point,
};
use crate::constants::{MAX_NUM_POWERS, NUM_POWERS_15};
use crate::errors::PowersError;
use crate::powers_of_beta_g::{PowersOfBetaG, PowersOfBetaGView};

verus! {

/// The powers of the SRS.
#[derive(Clone, Debug)]
pub struct PowersOfG<G1, G2> {
    /// The powers of beta G.
    powers_of_beta_g: PowersOfBetaG<G1>,
    /// Group elements of form `{ beta^i gamma G }`, where `i` is from 0 to
    /// `degree`. This is used for hiding.
    powers_of_beta_times_gamma_g: BTreeMap<usize, G1>,
    /// Group elements of form `{ beta^{max_degree - i} H }`, where `i` is of the
    /// form `2^k - 1` for `k` in `1` to `log_2(max_degree)`.
    negative_powers_of_beta_h: BTreeMap<usize, G2>,
    /// beta * H.
    beta_h: G2,
}

/// The parts of the SRS.
pub struct PowersOfGView<G1, G2> {
    pub powers_of_beta_g: PowersOfBetaGView<G1>,
    pub powers_of_beta_times_gamma_g: Map<usize, G1>,
    pub negative_powers_of_beta_h: Map<usize, G2>,
    pub beta_h: G2,
}

impl<G1, G2> View for PowersOfG<G1, G2> {
    type V = PowersOfGView<G1, G2>;

    closed spec fn view(&self) -> PowersOfGView<G1, G2> {
        PowersOfGView {
            powers_of_beta_g: self.powers_of_beta_g@,
            powers_of_beta_times_gamma_g: self.powers_of_beta_times_gamma_g@,
            negative_powers_of_beta_h: self.negative_powers_of_beta_h@,
            beta_h: self.beta_h,
        }
    }
}

impl<G1, G2> PowersOfG<G1, G2> {
    /// Builds the SRS from its parts.
    pub fn new(
        powers_of_beta_g: PowersOfBetaG<G1>,
        powers_of_beta_times_gamma_g: BTreeMap<usize, G1>,
        negative_powers_of_beta_h: BTreeMap<usize, G2>,
        beta_h: G2,
    ) -> (r: Self)
        ensures
            r@.powers_of_beta_g == powers_of_beta_g@,
            r@.powers_of_beta_times_gamma_g == powers_of_beta_times_gamma_g@,
            r@.negative_powers_of_beta_h == negative_powers_of_beta_h@,
            r@.beta_h == beta_h,
    {
        PowersOfG {
            powers_of_beta_g,
            powers_of_beta_times_gamma_g,
            negative_powers_of_beta_h,
            beta_h,
        }
    }

    /// Returns the number of contiguous powers of beta G starting from the 0-th power.
    pub fn num_powers(&self) -> (r: usize)
        ensures
            r == self@.powers_of_beta_g.normal.len(),
    {
        self.powers_of_beta_g.num_powers()
    }

    /// Returns the maximum possible number of contiguous powers of beta G
    /// starting from the 0-th power.
    pub fn max_num_powers(&self) -> (r: usize)
        ensures
            r == MAX_NUM_POWERS,
    {
        MAX_NUM_POWERS
    }

    /// Returns the powers of beta * gamma G.
    pub fn powers_of_beta_gamma_g(&self) -> (r: &BTreeMap<usize, G1>)
        ensures
            r@ == self@.powers_of_beta_times_gamma_g,
    {
        &self.powers_of_beta_times_gamma_g
    }

    /// Returns the negative powers of beta * H.
    pub fn negative_powers_of_beta_h(&self) -> (r: &BTreeMap<usize, G2>)
        ensures
            r@ == self@.negative_powers_of_beta_h,
    {
        &self.negative_powers_of_beta_h
    }

    /// Returns beta * H.
    pub fn beta_h(&self) -> (r: G2) where G2: Copy
        ensures
            r == self@.beta_h,
    {
        self.beta_h
    }

    /// The held powers of beta G.
    pub fn beta_g_powers(&self) -> (r: &PowersOfBetaG<G1>)
        ensures
            r@ == self@.powers_of_beta_g,
    {
        &self.powers_of_beta_g
    }

    /// The held powers of beta G, for a download to extend them; the other
    /// parts stay as they are.
    pub fn beta_g_powers_mut(&mut self) -> (r: &mut PowersOfBetaG<G1>)
        ensures
            r@ == old(self)@.powers_of_beta_g,
            final(self)@.powers_of_beta_g == final(r)@,
            final(self)@.powers_of_beta_times_gamma_g == old(self)@.powers_of_beta_times_gamma_g,
            final(self)@.negative_powers_of_beta_h == old(self)@.negative_powers_of_beta_h,
            final(self)@.beta_h == old(self)@.beta_h,
    {
        &mut self.powers_of_beta_g
    }
}

/// The error that loading the SRS reports, if any: the two shipped blocks of
/// powers of beta G first, then the powers of beta times gamma G, the negative
/// powers of beta H, and beta H.
pub open spec fn srs_load_error(
    powers_bytes: Seq<u8>,
    shifted_bytes: Seq<u8>,
    gamma_bytes: Seq<u8>,
    negative_bytes: Seq<u8>,
    beta_h_bytes: Seq<u8>,
) -> Option<PowersError> {
    if load_error(powers_bytes, shifted_bytes) is Some {
        load_error(powers_bytes, shifted_bytes)
    } else if decoded_g1_map(gamma_bytes) is None || decoded_g2_map(negative_bytes) is None
        || decoded_g2_point(beta_h_bytes) is None {
        Some(PowersError::Deserialization)
    } else {
        None
    }
}

impl PowersOfG<G1Point, G2Point> {
    /// Builds the SRS from the encodings of its parts: the two shipped blocks
    /// of 2^15 powers of beta G (normal and shifted), the powers of beta times
    /// gamma G, the negative powers of beta H, and beta H.
    pub fn from_bytes(
        powers_bytes: &[u8],
        shifted_bytes: &[u8],
        gamma_bytes: &[u8],
        negative_bytes: &[u8],
        beta_h_bytes: &[u8],
    ) -> (r: Result<Self, PowersError>)
        ensures
            r is Ok <==> srs_load_error(
                powers_bytes@,
                shifted_bytes@,
                gamma_bytes@,
                negative_bytes@,
                beta_h_bytes@,
            ) is None,
            r matches Err(e) ==> srs_load_error(
                powers_bytes@,
                shifted_bytes@,
                gamma_bytes@,
                negative_bytes@,
                beta_h_bytes@,
            ) == Some(e),
            r matches Ok(p) ==> p@.powers_of_beta_g.normal.len() == NUM_POWERS_15
                && p@.powers_of_beta_g.shifted.len() == NUM_POWERS_15,
            r matches Ok(p) ==> {
                &&& p@.powers_of_beta_g.normal == decoded_g1_powers(powers_bytes@).unwrap()
                &&& p@.powers_of_beta_g.shifted == decoded_g1_powers(shifted_bytes@).unwrap()
                &&& p@.powers_of_beta_times_gamma_g == decoded_g1_map(gamma_bytes@).unwrap()
                &&& p@.negative_powers_of_beta_h == decoded_g2_map(negative_bytes@).unwrap()
                &&& p@.beta_h == decoded_g2_point(beta_h_bytes@).unwrap()
            },
    {
        let powers_of_beta_g = PowersOfBetaG::from_bytes(powers_bytes, shifted_bytes)?;
        let powers_of_beta_times_gamma_g = match deserialize_g1_map(gamma_bytes) {
            Ok(m) => m,
            Err(_) => return Err(PowersError::Deserialization),
        };
        let negative_powers_of_beta_h = match deserialize_g2_map(negative_bytes) {
            Ok(m) => m,
            Err(_) => return Err(PowersError::Deserialization),
        };
        let beta_h = match deserialize_g2_point(beta_h_bytes) {
            Ok(p) => p,
            Err(_) => return Err(PowersError::Deserialization),
        };
        Ok(PowersOfG::new(
            powers_of_beta_g,
            powers_of_beta_times_gamma_g,
            negative_powers_of_beta_h,
            beta_h,
        ))
    }
}

} // verus!
