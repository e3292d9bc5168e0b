//! Interpretation of the raw query parameters of one request.
//!
//! The raw parameters carry an optional output-format override, optional
//! width and height, and an optional device pixel ratio. The device pixel
//! ratio defaults to 1 and is clamped into `[1, 3]` whatever was requested;
//! an unrecognized output override is a request error.

use vstd::prelude::*;

use crate::error::ImageError;
use crate::format::DetectedFormat;
use crate::format::FormatClass;
use crate::format::format_of_ext;
use crate::format::mime_of_ext;
use crate::format::detect_format_by_ext;

verus! {

/// The raw query parameters of one request, as the HTTP layer hands them
/// over. Unparsable numeric parameters arrive as absent.
#[derive(Debug, Clone, PartialEq, Eq, Hash)]
pub struct ImageQuery {
    pub output: Option<String>,
    pub dpr: Option<u32>,
    pub w: Option<u32>,
    pub h: Option<u32>,
}

/// The requested device pixel ratio clamped into `[1, 3]`, defaulting to 1.
pub open spec fn spec_clamped_dpr(requested: Option<u32>) -> u32 {
    match requested {
        None => 1u32,
        Some(d) => if d < 1 {
            1u32
        } else if d > 3 {
            3u32
        } else {
            d
        },
    }
}

impl ImageQuery {
    /// The requested destination size, absent dimensions included.
    pub fn size(&self) -> (r: (Option<u32>, Option<u32>))
        ensures
            r == (self.w, self.h),
    {
        (self.w, self.h)
    }

    /// The effective device pixel ratio: the requested value clamped into
    /// `[1, 3]`, or 1 where none was requested.
    pub fn dpr(&self) -> (r: u32)
        ensures
            r == spec_clamped_dpr(self.dpr),
            1 <= r <= 3,
    {
        match self.dpr {
            None => 1,
            Some(d) => if d < 1 {
                1
            } else if d > 3 {
                3
            } else {
                d
            },
        }
    }

    /// The output-format override, if one was requested: `Ok(None)` without
    /// an override, the detected format when the override names a known
    /// image format, and otherwise the request error naming the value.
    pub fn output(&self) -> (r: Result<Option<DetectedFormat>, ImageError>)
        ensures
            self.output is None ==> (r matches Ok(o) && o is None),
            self.output matches Some(ext) ==> match format_of_ext(ext@) {
                Some(class) => (r matches Ok(o) && o matches Some(d) && d.class == class
                    && d.mime@ == mime_of_ext(ext@) && (forall|e2: Seq<char>|
                    (#[trigger] format_of_ext(e2)) == Some(d.class) && d.class
                        != FormatClass::Other ==> mime_of_ext(e2) == d.mime@)),
                None => (r matches Err(e) && e matches ImageError::UnsupportedOutputFormat(v)
                    && v@ == ext@),
            },
    {
        match &self.output {
            None => Ok(None),
            Some(ext) => match detect_format_by_ext(ext.as_str()) {
                Some(d) => Ok(Some(d)),
                None => Err(ImageError::UnsupportedOutputFormat(ext.clone())),
            },
        }
    }
}

} // verus!
