use vstd::prelude::*;

verus! {

/// The level of error correction a code is built for: the higher the level,
/// the larger the share of data bytes that can be recovered if the code is
/// damaged. Placement and rasterization never read this value; it is carried
/// as stored configuration only.
#[derive(Debug, PartialEq, Eq, Structural, Clone, Copy)]
pub enum ErrorCorrectionLevel {
    /// 7% of data bytes can be restored using this level.
    Low,
    /// 15% of data bytes can be restored using this level.
    Medium,
    /// 25% of data bytes can be restored using this level.
    Quartile,
    /// 30% of data bytes can be restored using this level.
    High,
}

impl ErrorCorrectionLevel {
    /// The share of data bytes each level can restore, as a whole percentage.
    pub open spec fn spec_percent(self) -> u8 {
        match self {
            ErrorCorrectionLevel::Low => 7u8,
            ErrorCorrectionLevel::Medium => 15u8,
            ErrorCorrectionLevel::Quartile => 25u8,
            ErrorCorrectionLevel::High => 30u8,
        }
    }

    /// Returns the percent of data bytes that can be restored with this level.
    pub fn as_percent(self) -> (r: u8)
        ensures
            r == self.spec_percent(),
    {
        match self {
            ErrorCorrectionLevel::Low => 7,
            ErrorCorrectionLevel::Medium => 15,
            ErrorCorrectionLevel::Quartile => 25,
            ErrorCorrectionLevel::High => 30,
        }
    }
}

} // verus!
