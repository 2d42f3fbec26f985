//! The raster walk of the point projector: one entry per cell, in
//! row-major order, pairing each depth sample with its confidence.
use vstd::prelude::*;
use vstd::arithmetic::div_mod::lemma_fundamental_div_mod_converse;
use crate::frame::FrameData;

verus! {

/// One raster cell: where it stands and what was measured there.
#[derive(Debug, PartialEq, Eq)]
pub struct Pixel<T> {
    pub row: u16,
    pub column: u16,
    pub depth: T,
    pub confidence: Option<T>,
}

/// The cell at row-major position `i` of a raster `width` wide.
pub open spec fn pixel_spec<T>(
    width: u16,
    i: int,
    depth: Seq<T>,
    confidence: Option<Seq<T>>,
) -> Pixel<T> {
    Pixel {
        row: (i / width as int) as u16,
        column: (i % width as int) as u16,
        depth: depth[i],
        confidence: match confidence {
            Some(c) => Some(c[i]),
            None => None,
        },
    }
}

/// Every cell of `depth`, row by row and column by column within a row,
/// with the confidence of the same cell when a confidence raster is given.
/// Both rasters must have the same size.
pub fn pixels<T: Copy>(depth: &FrameData<T>, confidence: Option<&FrameData<T>>) -> (r: Vec<Pixel<T>>)
    requires
        depth.wf(),
        confidence matches Some(c) ==> c.wf() && c.spec_width() == depth.spec_width()
            && c.spec_height() == depth.spec_height(),
    ensures
        r@.len() == depth.spec_width() as int * depth.spec_height() as int,
        forall|i: int| 0 <= i < r@.len() ==> #[trigger] r@[i] == pixel_spec(
            depth.spec_width(),
            i,
            depth.samples(),
            match confidence {
                Some(c) => Some(c.samples()),
                None => None,
            },
        ),
{
    let ghost conf_samples: Option<Seq<T>> = match confidence {
        Some(c) => Some(c.samples()),
        None => None,
    };
    let width: u16 = depth.width();
    let d: &[T] = depth.as_slice();
    let n: usize = d.len();
    let mut out: Vec<Pixel<T>> = Vec::new();
    let mut i: usize = 0;
    let mut row: u16 = 0;
    let mut column: u16 = 0;
    proof {
        if 0 < n {
            assert(width > 0) by (nonlinear_arith)
                requires
                    n == width as int * depth.spec_height() as int,
                    0 < n,
            ;
        }
    }
    while i < n
        invariant
            n == d@.len() == depth.samples().len() == depth.spec_width() as int * depth.spec_height() as int,
            d@ == depth.samples(),
            width == depth.spec_width(),
            confidence matches Some(c) ==> c.wf() && c.samples().len() == n,
            conf_samples == match confidence {
                Some(c) => Some(c.samples()),
                None => None::<Seq<T>>,
            },
            i <= n,
            i == row as int * width as int + column as int,
            i < n ==> column < width,
            out@.len() == i,
            forall|j: int| 0 <= j < i ==> #[trigger] out@[j] == pixel_spec(width, j, d@, conf_samples),
        decreases n - i,
    {
        proof {
            lemma_fundamental_div_mod_converse(i as int, width as int, row as int, column as int);
            assert(row as int * width as int <= i);
            assert(row < depth.spec_height()) by (nonlinear_arith)
                requires
                    row as int * width as int <= i,
                    i < width as int * depth.spec_height() as int,
            ;
        }
        let c: Option<T> = match confidence {
            Some(cf) => Some(cf.as_slice()[i]),
            None => None,
        };
        out.push(Pixel { row, column, depth: d[i], confidence: c });
        i = i + 1;
        let ghost r0 = row as int;
        proof {
            assert((r0 + 1) * width as int == r0 * width as int + width as int) by (nonlinear_arith);
        }
        if column + 1 == width {
            column = 0;
            row = row + 1;
        } else {
            column = column + 1;
        }
    }
    out
}

} // verus!
