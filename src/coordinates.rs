//! Errors for geographic coordinates.
use vstd::prelude::*;

verus! {

/// Error returned for invalid coordinates
#[derive(Clone, Copy, Debug, PartialEq, Eq, Structural)]
pub enum CoordinatesError {
    /// The latitude is not within -90...90. inclusive
    LatitudeInvalid,
    /// The longitude is not within -180...180. inclusive
    LongitudeInvalid,
}

/// The message that describes `e`.
pub open spec fn coordinates_error_message(e: CoordinatesError) -> Seq<char> {
    match e {
        CoordinatesError::LatitudeInvalid => "Latitude must be between -90.0 and 90.0 (inclusive)"@,
        CoordinatesError::LongitudeInvalid => "Longitude must be between -180.0 and 180.0 (inclusive)"@,
    }
}

impl CoordinatesError {
    /// Message to display for the [`CoordinatesError`]
    pub fn message(&self) -> (r: String)
        ensures
            r@ == coordinates_error_message(*self),
    {
        match self {
            CoordinatesError::LatitudeInvalid => {
                "Latitude must be between -90.0 and 90.0 (inclusive)".to_string()
            },
            CoordinatesError::LongitudeInvalid => {
                "Longitude must be between -180.0 and 180.0 (inclusive)".to_string()
            },
        }
    }
}

} // verus!
