//! Image format detection and classification.
//!
//! A format is detected from a file-name extension through the MIME-guessing
//! and codec crates, and carried as a classification tag together with the
//! format's canonical MIME type. The canonical MIME type identifies the
//! format, so two detected formats are the same format exactly when their
//! MIME strings are equal.

use vstd::prelude::*;

verus! {

/// Classification of a detected format, as far as the pipeline's decisions
/// read it: the three encode targets, the two formats excluded from the
/// transform pipeline, and everything else the codec layer knows.
#[derive(Clone, Copy, Debug, PartialEq, Eq, Structural)]
pub enum FormatClass {
    Jpeg,
    Png,
    WebP,
    Gif,
    Ico,
    Other,
}

/// A format detected from a file-name extension: its classification and its
/// canonical MIME type, which identifies the format.
#[derive(Debug, Clone)]
pub struct DetectedFormat {
    pub class: FormatClass,
    pub mime: String,
}

/// The classification of the format that the MIME-guessing and codec crates
/// detect for an extension, or `None` where no known raster format matches.
pub uninterp spec fn format_of_ext(ext: Seq<char>) -> Option<FormatClass>;

/// The canonical MIME type of the format detected for an extension;
/// meaningful only where `format_of_ext` finds one.
pub uninterp spec fn mime_of_ext(ext: Seq<char>) -> Seq<char>;

/// Relies on `mime_guess::MimeGuess::from_ext` and
/// `image::ImageFormat::{from_mime_type, to_mime_type}`: the first guessed
/// MIME type that names a raster format known to the codec crate, reported as
/// that format's canonical MIME type and classification. The result depends
/// on the extension alone, and `to_mime_type` names each format distinctly,
/// so the canonical MIME string identifies the detected format; in
/// particular, each named classification (every one but `Other`) stands for
/// a single format with a single canonical MIME type, whatever extension
/// named it — the last clause states that.
#[verifier::external_body]
fn lookup_format_by_ext(ext: &str) -> (r: Option<DetectedFormat>)
    ensures
        r matches Some(d) ==> Some(d.class) == format_of_ext(ext@) && d.mime@ == mime_of_ext(
            ext@),
        r is None <==> format_of_ext(ext@) is None,
        r matches Some(d) ==> (forall|e2: Seq<char>|
            (#[trigger] format_of_ext(e2)) == Some(d.class) && d.class != FormatClass::Other
                ==> mime_of_ext(e2) == d.mime@),
{
    let found = mime_guess::MimeGuess::from_ext(ext)
        .into_iter()
        .flat_map(|m| image::ImageFormat::from_mime_type(&m))
        .next();
    found.map(|f| DetectedFormat {
        mime: f.to_mime_type().to_string(),
        class: match f {
            image::ImageFormat::Jpeg => FormatClass::Jpeg,
            image::ImageFormat::Png => FormatClass::Png,
            image::ImageFormat::WebP => FormatClass::WebP,
            image::ImageFormat::Gif => FormatClass::Gif,
            image::ImageFormat::Ico => FormatClass::Ico,
            _ => FormatClass::Other,
        },
    })
}

/// Detects the image format for a file-name extension, if any. A named
/// classification identifies the format: any other extension with the same
/// one (other than `Other`) carries the same canonical MIME type.
pub fn detect_format_by_ext(ext: &str) -> (r: Option<DetectedFormat>)
    ensures
        r matches Some(d) ==> Some(d.class) == format_of_ext(ext@) && d.mime@ == mime_of_ext(
            ext@),
        r is None <==> format_of_ext(ext@) is None,
        r matches Some(d) ==> (forall|e2: Seq<char>|
            (#[trigger] format_of_ext(e2)) == Some(d.class) && d.class != FormatClass::Other
                ==> mime_of_ext(e2) == d.mime@),
{
    lookup_format_by_ext(ext)
}

/// Whether a source format is served verbatim even when a resize was
/// requested: multi-frame icon and animated raster formats never go through
/// the transform pipeline.
pub open spec fn spec_is_excluded(class: FormatClass) -> bool {
    class == FormatClass::Ico || class == FormatClass::Gif
}

/// Whether the pipeline can encode into this format: JPEG, PNG and lossless
/// WebP are the supported encode targets.
pub open spec fn spec_is_encode_target(class: FormatClass) -> bool {
    class == FormatClass::Jpeg || class == FormatClass::Png || class == FormatClass::WebP
}

impl FormatClass {
    /// Whether this source format is force-excluded from the transform
    /// pipeline and always served verbatim.
    pub fn is_excluded(&self) -> (r: bool)
        ensures
            r == spec_is_excluded(*self),
    {
        matches!(self, FormatClass::Ico | FormatClass::Gif)
    }

    /// Whether this format is a supported encode target.
    pub fn is_encode_target(&self) -> (r: bool)
        ensures
            r == spec_is_encode_target(*self),
    {
        matches!(self, FormatClass::Jpeg | FormatClass::Png | FormatClass::WebP)
    }
}

} // verus!
