use vstd::prelude::*;

verus! {

/// One cell of the matrix grid: a pixel is either light or dark.
#[derive(Debug, PartialEq, Eq, Structural, Clone, Copy)]
pub enum QRBit {
    /// A light pixel.
    Light,
    /// A dark pixel.
    Dark,
}

impl QRBit {
    /// Selects between two values of any one type according to the cell state:
    /// the first for a light cell, the second for a dark one.
    pub fn as_type<T>(self, light: T, dark: T) -> (r: T)
        ensures
            r == (if self is Light { light } else { dark }),
    {
        match self {
            QRBit::Light => light,
            QRBit::Dark => dark,
        }
    }
}

/// The failures a grid operation can report.
#[derive(Debug, PartialEq, Eq, Structural, Clone, Copy)]
pub enum QRError {
    /// The requested version lies outside the supported range of 1 through 40.
    InvalidVersion,
    /// A coordinate lies at or beyond the matching dimension of the grid.
    OutOfBounds,
}

} // verus!
