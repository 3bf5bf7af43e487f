//! Errors of the indicator engine.

use vstd::prelude::*;

verus! {

/// Why an indicator has no value.
#[derive(Clone, Copy, Debug, PartialEq, Eq, Structural)]
pub enum IndicatorError {
    /// The series is empty or shorter than the warm-up window.
    NotReady,
    /// An intermediate sum does not fit in 128 bits.
    OutOfRange,
}

/// Why a call to the exchange failed.
#[derive(Clone, Debug)]
pub enum UPBitError {
    /// The exchange refused the call for the rate of calls.
    TooManyRequestError,
    /// The answer held none of the data asked for.
    FailedToReceiveDataError(String),
    /// The exchange rejected an order; the text names its reason.
    FailedToTradeError(String),
    /// Anything else.
    OtherError(String),
}

/// The outcome of an order: placed where the exchange named an order
/// identifier, rejected with the reason it gave where it did not.
pub fn order_outcome(order_id: Option<String>, error_name: String) -> (r: Result<(), UPBitError>)
    ensures
        match r {
            Ok(_) => order_id is Some,
            Err(e) => order_id is None && e == UPBitError::FailedToTradeError(error_name),
        },
{
    match order_id {
        Some(_) => Ok(()),
        None => Err(UPBitError::FailedToTradeError(error_name)),
    }
}

} // verus!
