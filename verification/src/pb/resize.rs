//! How an image is resized.
use vstd::prelude::*;

verus! {

/// Plain scaling, or content-aware seam carving.
#[derive(Clone, Copy, Debug, PartialEq, Eq, Structural)]
pub enum ResizeType {
    Normal,
    SeamCarve,
}

/// The sampling filter used by plain scaling.
#[derive(Clone, Copy, Debug, PartialEq, Eq, Structural)]
pub enum SampleFilter {
    Undefined,
    Nearest,
    Triangle,
    CatmullRom,
    Gaussian,
    Lanczos3,
}

/// The resize type with protocol number `v`, if there is one.
pub open spec fn resize_type_of(v: i32) -> Option<ResizeType> {
    if v == 0 {
        Some(ResizeType::Normal)
    } else if v == 1 {
        Some(ResizeType::SeamCarve)
    } else {
        None
    }
}

/// The sample filter with protocol number `v`, if there is one.
pub open spec fn sample_filter_of(v: i32) -> Option<SampleFilter> {
    if v == 0 {
        Some(SampleFilter::Undefined)
    } else if v == 1 {
        Some(SampleFilter::Nearest)
    } else if v == 2 {
        Some(SampleFilter::Triangle)
    } else if v == 3 {
        Some(SampleFilter::CatmullRom)
    } else if v == 4 {
        Some(SampleFilter::Gaussian)
    } else if v == 5 {
        Some(SampleFilter::Lanczos3)
    } else {
        None
    }
}

/// The protocol number of a sample filter.
pub open spec fn sample_filter_number(f: SampleFilter) -> i32 {
    match f {
        SampleFilter::Undefined => 0,
        SampleFilter::Nearest => 1,
        SampleFilter::Triangle => 2,
        SampleFilter::CatmullRom => 3,
        SampleFilter::Gaussian => 4,
        SampleFilter::Lanczos3 => 5,
    }
}

impl ResizeType {
    /// The resize type with protocol number `v`, if there is one.
    pub fn from_i32(v: i32) -> (r: Option<ResizeType>)
        ensures
            r == resize_type_of(v),
    {
        if v == 0 {
            Some(ResizeType::Normal)
        } else if v == 1 {
            Some(ResizeType::SeamCarve)
        } else {
            None
        }
    }

    /// The protocol number of this resize type.
    pub fn to_i32(&self) -> (r: i32)
        ensures
            r == (match *self {
                ResizeType::Normal => 0i32,
                ResizeType::SeamCarve => 1i32,
            }),
            resize_type_of(r) == Some(*self),
    {
        match self {
            ResizeType::Normal => 0,
            ResizeType::SeamCarve => 1,
        }
    }
}

impl SampleFilter {
    /// The sample filter with protocol number `v`, if there is one.
    pub fn from_i32(v: i32) -> (r: Option<SampleFilter>)
        ensures
            r == sample_filter_of(v),
    {
        if v == 0 {
            Some(SampleFilter::Undefined)
        } else if v == 1 {
            Some(SampleFilter::Nearest)
        } else if v == 2 {
            Some(SampleFilter::Triangle)
        } else if v == 3 {
            Some(SampleFilter::CatmullRom)
        } else if v == 4 {
            Some(SampleFilter::Gaussian)
        } else if v == 5 {
            Some(SampleFilter::Lanczos3)
        } else {
            None
        }
    }

    /// The protocol number of this sample filter.
    pub fn to_i32(&self) -> (r: i32)
        ensures
            r == sample_filter_number(*self),
            sample_filter_of(r) == Some(*self),
    {
        match self {
            SampleFilter::Undefined => 0,
            SampleFilter::Nearest => 1,
            SampleFilter::Triangle => 2,
            SampleFilter::CatmullRom => 3,
            SampleFilter::Gaussian => 4,
            SampleFilter::Lanczos3 => 5,
        }
    }
}

} // verus!
