use vstd::prelude::*;

use crate::code::QRCode;
use crate::grid::dim_of_version;
use crate::grid::flat_index;
use crate::grid::lemma_flat_index_surjective;
use crate::types::QRBit;
use crate::types::QRError;

verus! {

/// The cells that the top-left finder pattern carves out as light: the light
/// ring between the dark outer ring and the dark centre, plus the light
/// separator along row 7 and column 7.
pub open spec fn anchor_top_left(x: int, y: int) -> bool {
    ||| (1 <= x < 6 && (y == 1 || y == 5))
    ||| (0 <= x < 8 && y == 7)
    ||| ((x == 1 || x == 5) && 2 <= y < 6)
    ||| (x == 7 && 0 <= y < 7)
}

/// The cells the top-right finder pattern carves out as light: the top-left
/// layout with the column coordinate reflected to the far edge of a grid of
/// width `w`.
pub open spec fn anchor_top_right(w: int, x: int, y: int) -> bool {
    ||| (w - 6 <= x < w - 1 && (y == 1 || y == 5))
    ||| (w - 8 <= x < w && y == 7)
    ||| ((x == w - 6 || x == w - 2) && 2 <= y < 6)
    ||| (x == w - 8 && 0 <= y < 8)
}

/// The cells the bottom-left finder pattern carves out as light: the top-left
/// layout with the row coordinate reflected to the far edge of a grid of
/// height `h`.
pub open spec fn anchor_bottom_left(h: int, x: int, y: int) -> bool {
    ||| (1 <= x < 6 && (y == h - 2 || y == h - 6))
    ||| (0 <= x < 8 && y == h - 8)
    ||| ((x == 1 || x == 5) && h - 6 <= y < h - 2)
    ||| (x == 7 && h - 7 <= y < h)
}

/// The set of cells that placing the three positional anchors turns light on
/// a grid of width `w` and height `h`; the bottom-right corner holds none.
pub open spec fn anchor_light(w: int, h: int, x: int, y: int) -> bool {
    ||| anchor_top_left(x, y)
    ||| anchor_top_right(w, x, y)
    ||| anchor_bottom_left(h, x, y)
}

/// How a grid after anchor placement relates to the grid before: anchor cells
/// are light, every other cell keeps its prior state, and the version and
/// dimensions are untouched.
pub open spec fn anchors_placed(before: QRCode, after: QRCode) -> bool {
    &&& after.spec_version() == before.spec_version()
    &&& after.width() == before.width()
    &&& after.height() == before.height()
    &&& after.pixel_seq().len() == before.pixel_seq().len()
    &&& forall|x: int, y: int|
        before.spec_in_bounds(x, y) ==> after.at(x, y) == (if anchor_light(
            before.width(),
            before.height(),
            x,
            y,
        ) {
            QRBit::Light
        } else {
            before.at(x, y)
        })
}

/// Returns whether `(x, y)` belongs to the light cells of one of the three
/// positional anchors of a `w` by `h` grid.
fn is_anchor_light(w: u32, h: u32, x: u32, y: u32) -> (r: bool)
    requires
        21 <= w,
        21 <= h,
    ensures
        r == anchor_light(w as int, h as int, x as int, y as int),
{
    let top_left = (1 <= x && x < 6 && (y == 1 || y == 5)) || (x < 8 && y == 7) || ((x == 1 || x
        == 5) && 2 <= y && y < 6) || (x == 7 && y < 7);
    let top_right = (w - 6 <= x && x < w - 1 && (y == 1 || y == 5)) || (w - 8 <= x && x < w && y
        == 7) || ((x == w - 6 || x == w - 2) && 2 <= y && y < 6) || (x == w - 8 && y < 8);
    let bottom_left = (1 <= x && x < 6 && (y == h - 2 || y == h - 6)) || (x < 8 && y == h - 8) || ((
    x == 1 || x == 5) && h - 6 <= y && y < h - 2) || (x == 7 && h - 7 <= y && y < h);
    top_left || top_right || bottom_left
}

/// Creates the positional anchors seen at the top left, top right, and bottom
/// left of a [`QRCode`]: it walks the grid and carves out exactly the light
/// cells of the three patterns, leaving every other cell as it was.
pub fn create_positional_anchors(code: &mut QRCode)
    requires
        old(code).wf(),
    ensures
        final(code).wf(),
        anchors_placed(*old(code), *final(code)),
{
    let d = code.dimensions();
    let width: u32 = d.0;
    let height: u32 = d.1;
    let mut x: u32 = 0;
    while x < width
        invariant
            x <= width,
            code.wf(),
            old(code).wf(),
            code.spec_version() == old(code).spec_version(),
            code.width() == width as int,
            code.height() == height as int,
            old(code).width() == width as int,
            old(code).height() == height as int,
            21 <= width,
            21 <= height,
            forall|a: int, b: int|
                old(code).spec_in_bounds(a, b) ==> code.at(a, b) == (if a < x as int
                    && anchor_light(width as int, height as int, a, b) {
                    QRBit::Light
                } else {
                    old(code).at(a, b)
                }),
        decreases width - x,
    {
        let mut y: u32 = 0;
        while y < height
            invariant
                x < width,
                y <= height,
                code.wf(),
                old(code).wf(),
                code.spec_version() == old(code).spec_version(),
                code.width() == width as int,
                code.height() == height as int,
                old(code).width() == width as int,
                old(code).height() == height as int,
                21 <= width,
                21 <= height,
                forall|a: int, b: int|
                    old(code).spec_in_bounds(a, b) ==> code.at(a, b) == (if (a < x as int || (a
                        == x as int && b < y as int)) && anchor_light(
                        width as int,
                        height as int,
                        a,
                        b,
                    ) {
                        QRBit::Light
                    } else {
                        old(code).at(a, b)
                    }),
            decreases height - y,
        {
            if is_anchor_light(width, height, x, y) {
                let placed = code.place_light(x, y);
                proof {
                    assert(placed is Ok);
                }
            }
            y = y + 1;
        }
        x = x + 1;
    }
}

/// Generates a [`QRCode`] of the size the `version` asks for, with the three
/// positional anchors placed; every other cell stays dark. The `message` is
/// accepted for the surrounding pipeline but no data modules are derived from
/// it here. Versions outside 1 through 40 are rejected.
pub fn generate(message: &[u8], version: u32) -> (r: Result<QRCode, QRError>)
    ensures
        (1 <= version <= 40) <==> r is Ok,
        r is Ok ==> ({
            let code = r->Ok_0;
            &&& code.wf()
            &&& code.spec_version() == version
            &&& code.width() == dim_of_version(version)
            &&& code.height() == dim_of_version(version)
            &&& forall|x: int, y: int|
                code.spec_in_bounds(x, y) ==> code.at(x, y) == (if anchor_light(
                    code.width(),
                    code.height(),
                    x,
                    y,
                ) {
                    QRBit::Light
                } else {
                    QRBit::Dark
                })
        }),
        r is Err ==> r->Err_0 == QRError::InvalidVersion,
{
    let mut qr_code = QRCode::new(version)?;
    create_positional_anchors(&mut qr_code);
    Ok(qr_code)
}

/// Placing the anchors is idempotent: a grid that has them placed once is
/// bit-identical, pixel buffer for pixel buffer, to the same grid after a
/// second placement, because placement only ever writes light cells and never
/// reads the prior state to decide what to write.
pub proof fn lemma_anchors_idempotent(m0: QRCode, m1: QRCode, m2: QRCode)
    requires
        m0.wf(),
        anchors_placed(m0, m1),
        anchors_placed(m1, m2),
    ensures
        m2.pixel_seq() == m1.pixel_seq(),
{
    let w: int = m0.width();
    let h: int = m0.height();
    assert forall|i: int| 0 <= i < m1.pixel_seq().len() implies m2.pixel_seq()[i]
        == m1.pixel_seq()[i] by {
        lemma_flat_index_surjective(i, w, h);
        let (x, y): (int, int) = choose|x: int, y: int|
            0 <= x < w && 0 <= y < h && i == flat_index(x, y, h);
        assert(m1.at(x, y) == (if anchor_light(w, h, x, y) {
            QRBit::Light
        } else {
            m0.at(x, y)
        }));
        assert(m2.at(x, y) == (if anchor_light(w, h, x, y) {
            QRBit::Light
        } else {
            m1.at(x, y)
        }));
    }
    assert(m2.pixel_seq() =~= m1.pixel_seq());
}

} // verus!
