//! The score function: the elementwise nonlinearity that drives the
//! independence criterion of the adaptation rule.

use vstd::prelude::*;
use crate::fixed::{fx_mul, fx_mul_spec, sat_add, sat_add_spec, sat_sub, sat_sub_spec, tanh_fx,
    tanh_spec};

verus! {

/// Selects the assumed source distribution, and with it one of three
/// elementwise mappings from a candidate-separated sample to its gradient
/// contribution.  Stateless; selectable at any time.
#[derive(Clone, Copy, Debug, PartialEq, Eq, Structural)]
pub enum Density {
    /// `phi(y) = -2 tanh(y)`
    Supergaussian,
    /// `phi(y) = -y^3`
    Subgaussian,
    /// `phi(y) = tanh(y) - y`
    SubgaussianHyperbolicTangent,
}

/// The score of one fixed-point sample under the selected density.
pub open spec fn phi_spec(d: Density, y: i64) -> i64 {
    match d {
        Density::Supergaussian => sat_sub_spec(0, sat_add_spec(tanh_spec(y), tanh_spec(y))),
        Density::Subgaussian => sat_sub_spec(0, fx_mul_spec(fx_mul_spec(y, y), y)),
        Density::SubgaussianHyperbolicTangent => sat_sub_spec(tanh_spec(y), y),
    }
}

impl Density {
    /// Applies the selected score function to one sample.  Pure and total:
    /// defined for every fixed-point input.
    pub fn apply(self, y: i64) -> (r: i64)
        ensures
            r == phi_spec(self, y),
    {
        match self {
            Density::Supergaussian => {
                let t = tanh_fx(y);
                sat_sub(0, sat_add(t, t))
            },
            Density::Subgaussian => sat_sub(0, fx_mul(fx_mul(y, y), y)),
            Density::SubgaussianHyperbolicTangent => sat_sub(tanh_fx(y), y),
        }
    }
}

} // verus!
