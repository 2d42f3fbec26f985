//! Row-major views over one raster of a captured frame.
use vstd::prelude::*;

verus! {

/// Which raster of a frame the driver fills or is asked about.
#[derive(Debug, Clone, Copy, PartialEq, Eq, Structural)]
pub enum FrameType {
    RawFrame,
    ConfidenceFrame,
    DepthFrame,
}

/// How the camera is attached to the host.
#[derive(Debug, Clone, Copy, PartialEq, Eq, Structural)]
pub enum Connection {
    CSI,
    USB,
}

/// Size, kind and capture time of one raster of a frame.
pub struct ArducamFrameFormat {
    pub width: u16,
    pub height: u16,
    pub frame_type: FrameType,
    pub timestamp: u64,
}

/// A row-major frame buffer reference: `width * height` samples, row by row.
pub struct FrameData<'a, T> {
    width: u16,
    height: u16,
    data: &'a [T],
}

/// Index of the sample at column `x` of row `y` in a row-major raster.
pub open spec fn pixel_index(width: u16, x: u16, y: u16) -> int {
    x as int + y as int * width as int
}

impl<'a, T: Copy> FrameData<'a, T> {
    pub closed spec fn spec_width(&self) -> u16 {
        self.width
    }

    pub closed spec fn spec_height(&self) -> u16 {
        self.height
    }

    /// The samples, row by row.
    pub closed spec fn samples(&self) -> Seq<T> {
        self.data@
    }

    /// The samples cover exactly `width * height` cells.
    pub open spec fn wf(&self) -> bool {
        self.samples().len() == self.spec_width() as int * self.spec_height() as int
    }

    /// Views `data` as a raster of the given size; `None` unless `data`
    /// holds exactly `width * height` samples.
    pub fn new(width: u16, height: u16, data: &'a [T]) -> (r: Option<Self>)
        ensures
            r is Some <==> data@.len() == width as int * height as int,
            r matches Some(f) ==> f.spec_width() == width && f.spec_height() == height
                && f.samples() == data@ && f.wf(),
    {
        let n: usize = data.len();
        assert(width as u64 * height as u64 <= 0xffff * 0xffff) by (nonlinear_arith)
            requires
                width <= 0xffff,
                height <= 0xffff,
        ;
        let cells: u64 = width as u64 * height as u64;
        if n as u64 == cells {
            Some(FrameData { width, height, data })
        } else {
            None
        }
    }

    /// Get the pixel value of the frame at the specified co-ordinates, or None if out of bounds.
    pub fn get(&self, x: u16, y: u16) -> (r: Option<T>)
        requires
            self.wf(),
        ensures
            x < self.spec_width() && y < self.spec_height()
                ==> r == Some(self.samples()[pixel_index(self.spec_width(), x, y)]),
            x >= self.spec_width() || y >= self.spec_height() ==> r is None,
    {
        let len: usize = self.data.len();
        if x < self.width && y < self.height {
            proof {
                assert(pixel_index(self.width, x, y) < self.width as int * self.height as int)
                    by (nonlinear_arith)
                    requires
                        x < self.width,
                        y < self.height,
                ;
                assert(y as int * self.width as int <= pixel_index(self.width, x, y));
                assert(pixel_index(self.width, x, y) < len);
            }
            let i: usize = x as usize + y as usize * self.width as usize;
            Some(self.data[i])
        } else {
            None
        }
    }

    /// Get a reference to the row-major slice of frame data.
    pub fn as_slice(&self) -> (r: &[T])
        ensures
            r@ == self.samples(),
    {
        self.data
    }

    /// Get the width of the frame in pixels
    pub fn width(&self) -> (r: u16)
        ensures
            r == self.spec_width(),
    {
        self.width
    }

    /// Get the height of the frame in pixels
    pub fn height(&self) -> (r: u16)
        ensures
            r == self.spec_height(),
    {
        self.height
    }
}

} // verus!
