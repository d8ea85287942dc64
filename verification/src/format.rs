//! Output image formats and PNG compression profiles used when rasterizing
//! document pages to images.

use vstd::prelude::*;

verus! {

/// The image format pages are rasterized to.
#[derive(Clone, Copy, Debug, PartialEq, Eq, Structural)]
pub enum ImageFormat {
    Png,
    Jpg,
}

impl ImageFormat {
    /// The file extension of the format.
    pub fn extension(self) -> (r: &'static str)
        ensures
            self is Png ==> r@ == "png"@,
            self is Jpg ==> r@ == "jpg"@,
    {
        match self {
            ImageFormat::Png => "png",
            ImageFormat::Jpg => "jpg",
        }
    }
}

/// PNG compression level: fastest encoding with larger files, or smaller
/// files with slower encoding.
#[derive(Clone, Copy, Debug, PartialEq, Eq, Structural)]
pub enum PngCompression {
    /// Fastest encoding, larger files.
    Fast,
    /// Smaller files, slower encoding.
    Small,
}

impl Default for PngCompression {
    /// The default profile favors speed.
    fn default() -> (r: Self)
        ensures
            r is Fast,
    {
        PngCompression::Fast
    }
}

} // verus!
