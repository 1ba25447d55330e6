//! The operation a single image specification carries.
use vstd::prelude::*;
use super::{Contrast, Crop, Filter, Fliph, Flipv, Oil, Resize, Watermark};

verus! {

/// One image operation, with its parameters.
#[derive(Clone, Copy, Debug, PartialEq, Eq, Structural)]
pub enum Data {
    Resize(Resize),
    Crop(Crop),
    Flipv(Flipv),
    Fliph(Fliph),
    Contrast(Contrast),
    Filter(Filter),
    Watermark(Watermark),
    Oil(Oil),
}

} // verus!
