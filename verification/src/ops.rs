//! The data model: transformation operations and the ordered operation list
//! requested for one image.

use vstd::prelude::*;

verus! {

/// A closed enumeration of filter kinds: resampling algorithms (used by
/// `Resize`) and stylistic color filters (used by `ColorFilter`).
#[derive(Clone, Copy, Debug, PartialEq, Eq, Structural)]
pub enum FilterKind {
    Nearest,
    Triangle,
    CatmullRom,
    Gaussian,
    Lanczos3,
    Marine,
    Oceanic,
    Islands,
}

impl FilterKind {
    /// True for the resampling algorithms, which parameterize `Resize`.
    pub open spec fn is_resampling(self) -> bool {
        self matches FilterKind::Nearest || self matches FilterKind::Triangle
            || self matches FilterKind::CatmullRom || self matches FilterKind::Gaussian
            || self matches FilterKind::Lanczos3
    }

    /// True for the stylistic color filters, which parameterize `ColorFilter`.
    pub open spec fn is_stylistic(self) -> bool {
        self matches FilterKind::Marine || self matches FilterKind::Oceanic
            || self matches FilterKind::Islands
    }
}

/// One image transformation. Operations are immutable once constructed.
#[derive(Clone, Copy, Debug, PartialEq, Eq, Structural)]
pub enum Operation {
    Resize { width: u32, height: u32, filter: FilterKind },
    Watermark { x: u32, y: u32 },
    ColorFilter { kind: FilterKind },
}

impl Operation {
    pub fn new_resize(width: u32, height: u32, filter: FilterKind) -> (r: Operation)
        ensures
            r == (Operation::Resize { width, height, filter }),
    {
        Operation::Resize { width, height, filter }
    }

    pub fn new_watermark(x: u32, y: u32) -> (r: Operation)
        ensures
            r == (Operation::Watermark { x, y }),
    {
        Operation::Watermark { x, y }
    }

    pub fn new_color_filter(kind: FilterKind) -> (r: Operation)
        ensures
            r == (Operation::ColorFilter { kind }),
    {
        Operation::ColorFilter { kind }
    }
}

/// An ordered sequence of operations; order is significant and is preserved
/// through encoding, decoding and application. The empty sequence is valid
/// and denotes the identity transform.
#[derive(Debug)]
pub struct ImageSpec {
    pub specs: Vec<Operation>,
}

impl View for ImageSpec {
    type V = Seq<Operation>;

    open spec fn view(&self) -> Seq<Operation> {
        self.specs@
    }
}

impl ImageSpec {
    pub fn new(specs: Vec<Operation>) -> (r: ImageSpec)
        ensures
            r@ == specs@,
    {
        ImageSpec { specs }
    }
}

} // verus!
