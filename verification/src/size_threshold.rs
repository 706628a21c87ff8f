//! The size limit that is checked before every conversion.

use crate::error::{ConversionError, ErrorView};
use vstd::prelude::*;

verus! {

/// The largest payload, in bytes, that is converted when nothing else is configured.
pub const DEFAULT_MAX_PAYLOAD_SIZE: usize = 16384;

/// The largest payload, in bytes, that is converted.
#[derive(Clone, Copy, Debug)]
pub struct SizeThreshold(pub usize);

/// Whether a payload of `actual` bytes may be converted, and the error if not.
pub open spec fn size_check(threshold: usize, actual: nat) -> Result<(), ErrorView> {
    if actual > threshold {
        Err(ErrorView::SizeExceeded { actual: actual as usize, threshold })
    } else {
        Ok(())
    }
}

impl SizeThreshold {
    /// Refuses a payload that is longer than the threshold.
    pub fn validate(&self, input: &[u8]) -> (checked: Result<(), ConversionError>)
        ensures
            match checked {
                Ok(()) => size_check(self.0, input@.len()) is Ok,
                Err(error) => size_check(self.0, input@.len()) == Err::<(), ErrorView>(error@),
            },
    {
        let actual = input.len();
        if actual > self.0 {
            Err(ConversionError::SizeExceeded { actual, threshold: self.0 })
        } else {
            Ok(())
        }
    }
}

} // verus!
