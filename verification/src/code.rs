use vstd::prelude::*;

use crate::ecl::ErrorCorrectionLevel;
use crate::grid::dim_of_version;
use crate::grid::flat_index;
use crate::grid::lemma_flat_index_in_range;
use crate::grid::lemma_flat_index_injective;
use crate::types::QRBit;
use crate::types::QRError;
use vstd::pervasive::VecAdditionalExecFns;

verus! {

/// A square matrix of pixels: the scaffold of a matrix barcode. The grid is
/// sized from a version number and owns a flat buffer of one [`QRBit`] per
/// cell, reached through bounds-checked accessors.
#[derive(Debug)]
pub struct QRCode {
    /// Version of the code; it determines the `dimensions` field.
    version: u32,
    /// Width and height of the grid in pixels, derived from `version`.
    dimensions: (u32, u32),
    /// Level of data bytes that can be restored if the code is damaged.
    /// Stored configuration only: nothing here reads it back.
    ecl: ErrorCorrectionLevel,
    /// The pixels of the grid, laid out x-major: cell `(x, y)` sits at slot
    /// `flat_index(x, y, height)`.
    pixels: Vec<QRBit>,
}

impl QRCode {
    /// The stored version number.
    pub closed spec fn spec_version(&self) -> u32 {
        self.version
    }

    /// The width of the grid.
    pub closed spec fn width(&self) -> int {
        self.dimensions.0 as int
    }

    /// The height of the grid.
    pub closed spec fn height(&self) -> int {
        self.dimensions.1 as int
    }

    /// The flat pixel buffer.
    pub closed spec fn pixel_seq(&self) -> Seq<QRBit> {
        self.pixels@
    }

    /// The pixel stored at coordinate `(x, y)`.
    pub open spec fn at(&self, x: int, y: int) -> QRBit {
        self.pixel_seq()[flat_index(x, y, self.height())]
    }

    /// Whether `(x, y)` lies inside the grid.
    pub open spec fn spec_in_bounds(&self, x: int, y: int) -> bool {
        0 <= x < self.width() && 0 <= y < self.height()
    }

    /// Well-formedness of the grid: the version is in range, the grid is a
    /// square whose side is derived from the version, and the buffer holds
    /// exactly one pixel per cell.
    pub open spec fn wf(&self) -> bool {
        &&& 1 <= self.spec_version() <= 40
        &&& self.width() == dim_of_version(self.spec_version())
        &&& self.height() == self.width()
        &&& self.pixel_seq().len() == self.width() * self.height()
    }

    /// Returns the slot of the pixel at `(x, y)` within a flat buffer whose
    /// columns hold `max_y` cells each.
    pub fn position_as_index(x: u32, y: u32, max_y: u32) -> (i: usize)
        requires
            y as int + x as int * max_y as int <= usize::MAX as int,
        ensures
            i as int == flat_index(x as int, y as int, max_y as int),
    {
        y as usize + (x as usize) * (max_y as usize)
    }

    /// Constructs a new all-dark code whose side length is derived from
    /// `version`; versions outside 1 through 40 are rejected.
    pub fn new(version: u32) -> (r: Result<QRCode, QRError>)
        ensures
            (1 <= version <= 40) <==> r is Ok,
            r is Ok ==> ({
                let code = r->Ok_0;
                &&& code.wf()
                &&& code.spec_version() == version
                &&& code.width() == dim_of_version(version)
                &&& forall|x: int, y: int|
                    code.spec_in_bounds(x, y) ==> code.at(x, y) == QRBit::Dark
            }),
            r is Err ==> r->Err_0 == QRError::InvalidVersion,
    {
        if version < 1 || version > 40 {
            return Err(QRError::InvalidVersion);
        }
        let size: u32 = 21 + 4 * (version - 1);
        proof {
            assert(size as int * size as int <= 177 * 177) by (nonlinear_arith)
                requires
                    size <= 177,
            ;
        }
        let total: usize = (size as usize) * (size as usize);
        let mut pixels: Vec<QRBit> = Vec::with_capacity(total);
        let mut i: usize = 0;
        while i < total
            invariant
                i <= total,
                pixels@.len() == i,
                forall|k: int| 0 <= k < i ==> pixels@[k] == QRBit::Dark,
            decreases total - i,
        {
            pixels.push(QRBit::Dark);
            i = i + 1;
        }
        let code = QRCode {
            version,
            dimensions: (size, size),
            ecl: ErrorCorrectionLevel::Medium,
            pixels,
        };
        proof {
            assert forall|x: int, y: int|
                code.spec_in_bounds(x, y) implies code.at(x, y) == QRBit::Dark by {
                lemma_flat_index_in_range(x, y, code.width(), code.height());
            }
        }
        Ok(code)
    }

    /// Resets every pixel to dark; the dimensions stay as they are.
    pub fn clear(&mut self)
        requires
            old(self).wf(),
        ensures
            final(self).wf(),
            final(self).spec_version() == old(self).spec_version(),
            final(self).width() == old(self).width(),
            final(self).height() == old(self).height(),
            forall|x: int, y: int|
                final(self).spec_in_bounds(x, y) ==> final(self).at(x, y) == QRBit::Dark,
    {
        let total: usize = self.pixels.len();
        let mut pixels: Vec<QRBit> = Vec::with_capacity(total);
        let mut i: usize = 0;
        while i < total
            invariant
                i <= total,
                pixels@.len() == i,
                forall|k: int| 0 <= k < i ==> pixels@[k] == QRBit::Dark,
            decreases total - i,
        {
            pixels.push(QRBit::Dark);
            i = i + 1;
        }
        self.pixels = pixels;
        proof {
            assert forall|x: int, y: int|
                self.spec_in_bounds(x, y) implies self.at(x, y) == QRBit::Dark by {
                lemma_flat_index_in_range(x, y, self.width(), self.height());
            }
        }
    }

    /// Returns a copy of the stored version number.
    pub fn version(&self) -> (v: u32)
        ensures
            v == self.spec_version(),
    {
        self.version
    }

    /// Returns the width and height of the grid in pixels.
    pub fn dimensions(&self) -> (d: (u32, u32))
        ensures
            d.0 as int == self.width(),
            d.1 as int == self.height(),
    {
        self.dimensions
    }

    /// Returns the pixel at `(x, y)`, or `OutOfBounds` when either coordinate
    /// reaches past the matching dimension.
    pub fn get(&self, x: u32, y: u32) -> (r: Result<QRBit, QRError>)
        requires
            self.wf(),
        ensures
            self.spec_in_bounds(x as int, y as int)
                ==> r == Ok::<QRBit, QRError>(self.at(x as int, y as int)),
            !self.spec_in_bounds(x as int, y as int)
                ==> r == Err::<QRBit, QRError>(QRError::OutOfBounds),
    {
        if x < self.dimensions.0 && y < self.dimensions.1 {
            let n: usize = self.pixels.len();
            proof {
                lemma_flat_index_in_range(x as int, y as int, self.width(), self.height());
                assert(n as int == self.width() * self.height());
            }
            let i: usize = Self::position_as_index(x, y, self.dimensions.1);
            Ok(self.pixels[i])
        } else {
            Err(QRError::OutOfBounds)
        }
    }

    /// Places a light pixel at `(x, y)`, or reports `OutOfBounds` and leaves
    /// the grid unchanged when the coordinate lies outside it.
    pub fn place_light(&mut self, x: u32, y: u32) -> (r: Result<(), QRError>)
        requires
            old(self).wf(),
        ensures
            final(self).wf(),
            final(self).spec_version() == old(self).spec_version(),
            final(self).width() == old(self).width(),
            final(self).height() == old(self).height(),
            old(self).spec_in_bounds(x as int, y as int) ==> ({
                &&& r is Ok
                &&& final(self).at(x as int, y as int) == QRBit::Light
                &&& forall|a: int, b: int|
                    old(self).spec_in_bounds(a, b) && !(a == x as int && b == y as int)
                        ==> final(self).at(a, b) == old(self).at(a, b)
            }),
            !old(self).spec_in_bounds(x as int, y as int)
                ==> r == Err::<(), QRError>(QRError::OutOfBounds) && *final(self) == *old(self),
    {
        self.put(x, y, QRBit::Light)
    }

    /// Places a dark pixel at `(x, y)`, or reports `OutOfBounds` and leaves
    /// the grid unchanged when the coordinate lies outside it.
    pub fn place_dark(&mut self, x: u32, y: u32) -> (r: Result<(), QRError>)
        requires
            old(self).wf(),
        ensures
            final(self).wf(),
            final(self).spec_version() == old(self).spec_version(),
            final(self).width() == old(self).width(),
            final(self).height() == old(self).height(),
            old(self).spec_in_bounds(x as int, y as int) ==> ({
                &&& r is Ok
                &&& final(self).at(x as int, y as int) == QRBit::Dark
                &&& forall|a: int, b: int|
                    old(self).spec_in_bounds(a, b) && !(a == x as int && b == y as int)
                        ==> final(self).at(a, b) == old(self).at(a, b)
            }),
            !old(self).spec_in_bounds(x as int, y as int)
                ==> r == Err::<(), QRError>(QRError::OutOfBounds) && *final(self) == *old(self),
    {
        self.put(x, y, QRBit::Dark)
    }

    /// Overwrites the pixel at `(x, y)` with `bit` after the bounds check that
    /// every mutation of the grid goes through.
    fn put(&mut self, x: u32, y: u32, bit: QRBit) -> (r: Result<(), QRError>)
        requires
            old(self).wf(),
        ensures
            final(self).wf(),
            final(self).spec_version() == old(self).spec_version(),
            final(self).width() == old(self).width(),
            final(self).height() == old(self).height(),
            old(self).spec_in_bounds(x as int, y as int) ==> ({
                &&& r is Ok
                &&& final(self).at(x as int, y as int) == bit
                &&& forall|a: int, b: int|
                    old(self).spec_in_bounds(a, b) && !(a == x as int && b == y as int)
                        ==> final(self).at(a, b) == old(self).at(a, b)
            }),
            !old(self).spec_in_bounds(x as int, y as int)
                ==> r == Err::<(), QRError>(QRError::OutOfBounds) && *final(self) == *old(self),
    {
        if x < self.dimensions.0 && y < self.dimensions.1 {
            let n: usize = self.pixels.len();
            proof {
                lemma_flat_index_in_range(x as int, y as int, self.width(), self.height());
                assert(n as int == self.width() * self.height());
            }
            let i: usize = Self::position_as_index(x, y, self.dimensions.1);
            self.pixels.set(i, bit);
            proof {
                let h = self.height();
                assert forall|a: int, b: int|
                    old(self).spec_in_bounds(a, b) && !(a == x as int && b == y as int)
                        implies self.at(a, b) == old(self).at(a, b) by {
                    lemma_flat_index_in_range(a, b, self.width(), h);
                    if flat_index(a, b, h) == flat_index(x as int, y as int, h) {
                        lemma_flat_index_injective(a, b, x as int, y as int, h);
                    }
                }
            }
            Ok(())
        } else {
            Err(QRError::OutOfBounds)
        }
    }
}

} // verus!
