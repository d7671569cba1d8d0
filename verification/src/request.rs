//! What a client asks for.

use vstd::prelude::*;

verus! {

/// A request for one prediction.
pub struct PredictionRequest {
    /// If true: fetch the input from `input_resource`, cache it, run inference and update the
    /// cached input. If false: `input` holds new covariate values; update the cached
    /// covariates, run inference and update the cached sensors.
    pub init: bool,
    /// New covariate values as a flat JSON array, for `init == false`. For one covariate:
    /// `[1.0]`.
    pub input: Option<String>,
    /// Where the model is found. It also names the model in the cache.
    pub model_url: String,
    /// Where the input is found, for `init == true`: a JSON document with the key `sensor_`.
    pub input_resource: Option<String>,
    /// Number of sensors: the model gives one output for each.
    pub sensors: usize,
    /// Number of covariates, whose histories follow those of all sensors.
    pub covariates: usize,
    /// Length of each sensor and covariate history, oldest value first.
    pub input_size: usize,
}

impl PredictionRequest {
    /// Number of values in all histories together.
    pub open spec fn total(self) -> nat {
        ((self.sensors + self.covariates) * self.input_size) as nat
    }

    /// The number of histories, and the number of values in them, are machine integers.
    pub open spec fn fits(self) -> bool {
        &&& self.sensors + self.covariates <= usize::MAX
        &&& self.total() <= usize::MAX
    }

    /// Number of values in all histories together, or `None` where that number, or the number of
    /// histories, is no machine integer.
    pub fn expected_total(&self) -> (total: Option<usize>)
        ensures
            total is Some <==> self.fits(),
            total matches Some(n) ==> n == self.total(),
    {
        match self.sensors.checked_add(self.covariates) {
            None => None,
            Some(series) => series.checked_mul(self.input_size),
        }
    }
}

/// A request has one value for each place in the history of each series, and its values can be
/// counted exactly if the number of series and the number of values are machine integers.
pub proof fn requests_count_their_values(request: PredictionRequest)
    ensures
        request.total() == (request.sensors + request.covariates) * request.input_size,
        request.fits() <==> request.sensors + request.covariates <= usize::MAX && (request.sensors
            + request.covariates) * request.input_size <= usize::MAX,
{
    assert((request.sensors + request.covariates) * request.input_size >= 0) by (nonlinear_arith);
}

} // verus!
