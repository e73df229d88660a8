use vstd::prelude::*;

use crate::grid::dim_of_version;
use crate::grid::flat_index;
use crate::grid::lemma_flat_index_in_range;
use crate::grid::lemma_flat_index_injective;
use crate::types::QRBit;
use crate::types::QRError;
use vstd::pervasive::VecAdditionalExecFns;

verus! {

/// A square matrix of pixels described by [`QRBit`]s: a self-contained grid
/// sized from a version number, with bounds-checked access to every cell.
#[derive(Debug)]
pub struct QRData {
    /// Version of the code; it specifies the `dimensions` field.
    version: u32,
    /// Width and height of the grid in pixels, derived from `version`.
    dimensions: (u32, u32),
    /// The pixels of the grid, laid out x-major: cell `(x, y)` sits at slot
    /// `flat_index(x, y, height)`.
    data: Vec<QRBit>,
}

impl QRData {
    /// The stored version number.
    pub closed spec fn spec_version(&self) -> u32 {
        self.version
    }

    /// The width of the grid.
    pub closed spec fn width(&self) -> int {
        self.dimensions.0 as int
    }

    /// The height of the grid.
    pub closed spec fn height(&self) -> int {
        self.dimensions.1 as int
    }

    /// The flat pixel buffer.
    pub closed spec fn pixel_seq(&self) -> Seq<QRBit> {
        self.data@
    }

    /// The pixel stored at coordinate `(x, y)`.
    pub open spec fn at(&self, x: int, y: int) -> QRBit {
        self.pixel_seq()[flat_index(x, y, self.height())]
    }

    /// Whether `(x, y)` lies inside the grid.
    pub open spec fn spec_in_bounds(&self, x: int, y: int) -> bool {
        0 <= x < self.width() && 0 <= y < self.height()
    }

    /// Well-formedness of the grid: the version is in range, the grid is a
    /// square whose side is derived from the version, and the buffer holds
    /// exactly one pixel per cell.
    pub open spec fn wf(&self) -> bool {
        &&& 1 <= self.spec_version() <= 40
        &&& self.width() == dim_of_version(self.spec_version())
        &&& self.height() == self.width()
        &&& self.pixel_seq().len() == self.width() * self.height()
    }

    /// Returns the slot of the pixel at `(x, y)` within a flat buffer whose
    /// columns hold `max_y` cells each.
    pub fn position_as_idx(x: u32, y: u32, max_y: u32) -> (i: usize)
        requires
            y as int + x as int * max_y as int <= usize::MAX as int,
        ensures
            i as int == flat_index(x as int, y as int, max_y as int),
    {
        y as usize + (x as usize) * (max_y as usize)
    }

    /// Returns whether the position lies outside the grid.
    pub fn is_out_of_bounds(&self, x: u32, y: u32) -> (r: bool)
        requires
            self.wf(),
        ensures
            r == !self.spec_in_bounds(x as int, y as int),
    {
        !self.is_in_bounds(x, y)
    }

    /// Returns whether the position lies within the grid.
    pub fn is_in_bounds(&self, x: u32, y: u32) -> (r: bool)
        requires
            self.wf(),
        ensures
            r == self.spec_in_bounds(x as int, y as int),
    {
        x < self.dimensions.0 && y < self.dimensions.1
    }

    /// Constructs a new all-dark grid whose side length is derived from
    /// `version`: version 1 yields a 21 by 21 grid. Versions outside 1
    /// through 40 are rejected.
    pub fn new(version: u32) -> (r: Result<QRData, QRError>)
        ensures
            (1 <= version <= 40) <==> r is Ok,
            r is Ok ==> ({
                let data = r->Ok_0;
                &&& data.wf()
                &&& data.spec_version() == version
                &&& data.width() == dim_of_version(version)
                &&& forall|x: int, y: int|
                    data.spec_in_bounds(x, y) ==> data.at(x, y) == QRBit::Dark
            }),
            r is Err ==> r->Err_0 == QRError::InvalidVersion,
    {
        if version < 1 || version > 40 {
            return Err(QRError::InvalidVersion);
        }
        let size: u32 = 21 + 4 * (version - 1);
        proof {
            assert(size as int * size as int <= 177 * 177) by (nonlinear_arith)
                requires
                    size <= 177,
            ;
        }
        let total: usize = (size as usize) * (size as usize);
        let mut data: Vec<QRBit> = Vec::with_capacity(total);
        let mut i: usize = 0;
        while i < total
            invariant
                i <= total,
                data@.len() == i,
                forall|k: int| 0 <= k < i ==> data@[k] == QRBit::Dark,
            decreases total - i,
        {
            data.push(QRBit::Dark);
            i = i + 1;
        }
        let grid = QRData { version, dimensions: (size, size), data };
        proof {
            assert forall|x: int, y: int|
                grid.spec_in_bounds(x, y) implies grid.at(x, y) == QRBit::Dark by {
                lemma_flat_index_in_range(x, y, grid.width(), grid.height());
            }
        }
        Ok(grid)
    }

    /// Resets every pixel to dark; the dimensions stay as they are.
    pub fn clear(&mut self)
        requires
            old(self).wf(),
        ensures
            final(self).wf(),
            final(self).spec_version() == old(self).spec_version(),
            final(self).width() == old(self).width(),
            final(self).height() == old(self).height(),
            forall|x: int, y: int|
                final(self).spec_in_bounds(x, y) ==> final(self).at(x, y) == QRBit::Dark,
    {
        let total: usize = self.data.len();
        let mut data: Vec<QRBit> = Vec::with_capacity(total);
        let mut i: usize = 0;
        while i < total
            invariant
                i <= total,
                data@.len() == i,
                forall|k: int| 0 <= k < i ==> data@[k] == QRBit::Dark,
            decreases total - i,
        {
            data.push(QRBit::Dark);
            i = i + 1;
        }
        self.data = data;
        proof {
            assert forall|x: int, y: int|
                self.spec_in_bounds(x, y) implies self.at(x, y) == QRBit::Dark by {
                lemma_flat_index_in_range(x, y, self.width(), self.height());
            }
        }
    }

    /// Returns a copy of the stored version number.
    pub fn version(&self) -> (v: u32)
        ensures
            v == self.spec_version(),
    {
        self.version
    }

    /// Returns the width and height of the grid in pixels.
    pub fn dimensions(&self) -> (d: (u32, u32))
        ensures
            d.0 as int == self.width(),
            d.1 as int == self.height(),
    {
        self.dimensions
    }

    /// Returns the pixel at `(x, y)`, or `OutOfBounds` when either coordinate
    /// reaches past the matching dimension.
    pub fn get(&self, x: u32, y: u32) -> (r: Result<QRBit, QRError>)
        requires
            self.wf(),
        ensures
            self.spec_in_bounds(x as int, y as int)
                ==> r == Ok::<QRBit, QRError>(self.at(x as int, y as int)),
            !self.spec_in_bounds(x as int, y as int)
                ==> r == Err::<QRBit, QRError>(QRError::OutOfBounds),
    {
        if x < self.dimensions.0 && y < self.dimensions.1 {
            let n: usize = self.data.len();
            proof {
                lemma_flat_index_in_range(x as int, y as int, self.width(), self.height());
                assert(n as int == self.width() * self.height());
            }
            let i: usize = Self::position_as_idx(x, y, self.dimensions.1);
            Ok(self.data[i])
        } else {
            Err(QRError::OutOfBounds)
        }
    }

    /// Places a light pixel at `(x, y)`, or reports `OutOfBounds` and leaves
    /// the grid unchanged when the coordinate lies outside it.
    pub fn place_light(&mut self, x: u32, y: u32) -> (r: Result<(), QRError>)
        requires
            old(self).wf(),
        ensures
            final(self).wf(),
            final(self).spec_version() == old(self).spec_version(),
            final(self).width() == old(self).width(),
            final(self).height() == old(self).height(),
            old(self).spec_in_bounds(x as int, y as int) ==> ({
                &&& r is Ok
                &&& final(self).at(x as int, y as int) == QRBit::Light
                &&& forall|a: int, b: int|
                    old(self).spec_in_bounds(a, b) && !(a == x as int && b == y as int)
                        ==> final(self).at(a, b) == old(self).at(a, b)
            }),
            !old(self).spec_in_bounds(x as int, y as int)
                ==> r == Err::<(), QRError>(QRError::OutOfBounds) && *final(self) == *old(self),
    {
        self.put(x, y, QRBit::Light)
    }

    /// Places a dark pixel at `(x, y)`, or reports `OutOfBounds` and leaves
    /// the grid unchanged when the coordinate lies outside it.
    pub fn place_dark(&mut self, x: u32, y: u32) -> (r: Result<(), QRError>)
        requires
            old(self).wf(),
        ensures
            final(self).wf(),
            final(self).spec_version() == old(self).spec_version(),
            final(self).width() == old(self).width(),
            final(self).height() == old(self).height(),
            old(self).spec_in_bounds(x as int, y as int) ==> ({
                &&& r is Ok
                &&& final(self).at(x as int, y as int) == QRBit::Dark
                &&& forall|a: int, b: int|
                    old(self).spec_in_bounds(a, b) && !(a == x as int && b == y as int)
                        ==> final(self).at(a, b) == old(self).at(a, b)
            }),
            !old(self).spec_in_bounds(x as int, y as int)
                ==> r == Err::<(), QRError>(QRError::OutOfBounds) && *final(self) == *old(self),
    {
        self.put(x, y, QRBit::Dark)
    }

    /// Overwrites the pixel at `(x, y)` with `bit` after the bounds check that
    /// every mutation of the grid goes through.
    fn put(&mut self, x: u32, y: u32, bit: QRBit) -> (r: Result<(), QRError>)
        requires
            old(self).wf(),
        ensures
            final(self).wf(),
            final(self).spec_version() == old(self).spec_version(),
            final(self).width() == old(self).width(),
            final(self).height() == old(self).height(),
            old(self).spec_in_bounds(x as int, y as int) ==> ({
                &&& r is Ok
                &&& final(self).at(x as int, y as int) == bit
                &&& forall|a: int, b: int|
                    old(self).spec_in_bounds(a, b) && !(a == x as int && b == y as int)
                        ==> final(self).at(a, b) == old(self).at(a, b)
            }),
            !old(self).spec_in_bounds(x as int, y as int)
                ==> r == Err::<(), QRError>(QRError::OutOfBounds) && *final(self) == *old(self),
    {
        if x < self.dimensions.0 && y < self.dimensions.1 {
            let n: usize = self.data.len();
            proof {
                lemma_flat_index_in_range(x as int, y as int, self.width(), self.height());
                assert(n as int == self.width() * self.height());
            }
            let i: usize = Self::position_as_idx(x, y, self.dimensions.1);
            self.data.set(i, bit);
            proof {
                let h: int = self.height();
                assert forall|a: int, b: int|
                    old(self).spec_in_bounds(a, b) && !(a == x as int && b == y as int)
                        implies self.at(a, b) == old(self).at(a, b) by {
                    lemma_flat_index_in_range(a, b, self.width(), h);
                    if flat_index(a, b, h) == flat_index(x as int, y as int, h) {
                        lemma_flat_index_injective(a, b, x as int, y as int, h);
                    }
                }
            }
            Ok(())
        } else {
            Err(QRError::OutOfBounds)
        }
    }
}

} // verus!
