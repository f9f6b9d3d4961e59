use vstd::prelude::*;

verus! {

/// The preview image of a document, with the format its bytes announce.
#[derive(Debug, Clone)]
pub struct PreviewImage {
    pub data: Vec<u8>,
    pub format: ImageFormat,
}

/// The image formats a preview is recognised as.
#[derive(Debug, Clone, Copy, PartialEq, Eq, Structural)]
pub enum ImageFormat {
    Png,
    Gif,
    Bmp,
    Unknown,
}

/// Whether `d` begins with the bytes `p`.
pub open spec fn starts_with(d: Seq<u8>, p: Seq<u8>) -> bool {
    p.len() <= d.len() && d.subrange(0, p.len() as int) == p
}

/// The format that image bytes announce: PNG, GIF (87a or 89a) or BMP by
/// their signature; unknown for anything else or anything under eight bytes.
pub open spec fn format_of(d: Seq<u8>) -> ImageFormat {
    if d.len() < 8 {
        ImageFormat::Unknown
    } else if starts_with(d, seq![0x89u8, 0x50, 0x4E, 0x47, 0x0D, 0x0A, 0x1A, 0x0A]) {
        ImageFormat::Png
    } else if starts_with(d, seq![0x47u8, 0x49, 0x46, 0x38, 0x37, 0x61]) || starts_with(
        d,
        seq![0x47u8, 0x49, 0x46, 0x38, 0x39, 0x61],
    ) {
        ImageFormat::Gif
    } else if starts_with(d, seq![0x42u8, 0x4D]) {
        ImageFormat::Bmp
    } else {
        ImageFormat::Unknown
    }
}

/// The file extension of a format.
pub open spec fn extension_of(f: ImageFormat) -> Seq<char> {
    match f {
        ImageFormat::Png => "png"@,
        ImageFormat::Gif => "gif"@,
        ImageFormat::Bmp => "bmp"@,
        ImageFormat::Unknown => "bin"@,
    }
}

/// Whether `d` begins with `p`.
fn has_signature(d: &[u8], p: &[u8]) -> (b: bool)
    ensures
        b == starts_with(d@, p@),
{
    if p.len() > d.len() {
        return false;
    }
    let mut i: usize = 0;
    while i < p.len()
        invariant
            p@.len() <= d@.len(),
            i <= p@.len(),
            forall|j: int| 0 <= j < i ==> d@[j] == p@[j],
        decreases p.len() - i,
    {
        if d[i] != p[i] {
            assert(d@.subrange(0, p@.len() as int)[i as int] != p@[i as int]);
            return false;
        }
        i = i + 1;
    }
    assert(d@.subrange(0, p@.len() as int) =~= p@);
    true
}

impl PreviewImage {
    /// A preview image of the given bytes, its format detected from them.
    pub fn from_bytes(data: Vec<u8>) -> (img: Self)
        ensures
            img.data@ == data@,
            img.format == format_of(data@),
    {
        let format = Self::detect_format(data.as_slice());
        PreviewImage { data, format }
    }

    fn detect_format(data: &[u8]) -> (f: ImageFormat)
        ensures
            f == format_of(data@),
    {
        if data.len() < 8 {
            return ImageFormat::Unknown;
        }
        let png: [u8; 8] = [0x89, 0x50, 0x4E, 0x47, 0x0D, 0x0A, 0x1A, 0x0A];
        let gif87: [u8; 6] = [0x47, 0x49, 0x46, 0x38, 0x37, 0x61];
        let gif89: [u8; 6] = [0x47, 0x49, 0x46, 0x38, 0x39, 0x61];
        let bmp: [u8; 2] = [0x42, 0x4D];
        assert(png@ =~= seq![0x89u8, 0x50, 0x4E, 0x47, 0x0D, 0x0A, 0x1A, 0x0A]);
        assert(gif87@ =~= seq![0x47u8, 0x49, 0x46, 0x38, 0x37, 0x61]);
        assert(gif89@ =~= seq![0x47u8, 0x49, 0x46, 0x38, 0x39, 0x61]);
        assert(bmp@ =~= seq![0x42u8, 0x4D]);
        if has_signature(data, &png) {
            ImageFormat::Png
        } else if has_signature(data, &gif87) || has_signature(data, &gif89) {
            ImageFormat::Gif
        } else if has_signature(data, &bmp) {
            ImageFormat::Bmp
        } else {
            ImageFormat::Unknown
        }
    }

    pub fn bytes(&self) -> (b: &[u8])
        ensures
            b@ == self.data@,
    {
        self.data.as_slice()
    }

    pub fn is_empty(&self) -> (b: bool)
        ensures
            b == (self.data@.len() == 0),
    {
        self.data.len() == 0
    }

    /// The file extension of the image's format: `bin` where it is unknown.
    pub fn extension(&self) -> (e: &'static str)
        ensures
            e@ == extension_of(self.format),
    {
        match self.format {
            ImageFormat::Png => "png",
            ImageFormat::Gif => "gif",
            ImageFormat::Bmp => "bmp",
            ImageFormat::Unknown => "bin",
        }
    }
}

} // verus!
