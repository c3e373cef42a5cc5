//! Detection of an image payload's type by its magic number.

use vstd::prelude::*;

verus! {

/// Errors surfaced to the caller by this crate.
#[derive(Debug, Clone, Copy, PartialEq, Eq, Structural)]
pub enum Error {
    /// The byte payload matched no known image signature.
    UnsupportedImage,
}

/// The raster formats the engine's decode entry point accepts.
#[derive(Debug, Clone, Copy, PartialEq, Eq, Structural)]
pub enum MimeType {
    Png,
    Jpeg,
    Gif,
}

impl MimeType {
    /// What sniffing a byte payload yields: a payload shorter than four bytes
    /// or one that carries no known signature is unrecognized.
    pub open spec fn sniff(b: Seq<u8>) -> Option<MimeType> {
        if b.len() < 4 {
            None
        } else if b[0] == 0x89u8 && b[1] == 0x50u8 && b[2] == 0x4Eu8 && b[3] == 0x47u8 {
            Some(MimeType::Png)
        } else if b[0] == 0xFFu8 && b[1] == 0xD8u8 && b[2] == 0xFFu8 {
            Some(MimeType::Jpeg)
        } else if b[0] == 0x47u8 && b[1] == 0x49u8 && b[2] == 0x46u8 {
            Some(MimeType::Gif)
        } else {
            None
        }
    }

    /// Sniff a payload's leading bytes against the known magic numbers.
    pub fn parse(buffer: &[u8]) -> (r: Result<MimeType, Error>)
        ensures
            r == match MimeType::sniff(buffer@) {
                Some(m) => Ok::<MimeType, Error>(m),
                None => Err::<MimeType, Error>(Error::UnsupportedImage),
            },
    {
        if buffer.len() < 4 {
            return Err(Error::UnsupportedImage);
        }
        let b0 = buffer[0];
        let b1 = buffer[1];
        let b2 = buffer[2];
        let b3 = buffer[3];
        if b0 == 0x89 && b1 == 0x50 && b2 == 0x4E && b3 == 0x47 {
            Ok(MimeType::Png)
        } else if b0 == 0xFF && b1 == 0xD8 && b2 == 0xFF {
            Ok(MimeType::Jpeg)
        } else if b0 == 0x47 && b1 == 0x49 && b2 == 0x46 {
            Ok(MimeType::Gif)
        } else {
            Err(Error::UnsupportedImage)
        }
    }

    /// The media-type string handed to the engine's decode entry point.
    pub fn mime_type(&self) -> (r: &'static str)
        ensures
            r@ == Self::mime_type_spec(*self),
    {
        match self {
            MimeType::Png => "image/png",
            MimeType::Gif => "image/gif",
            MimeType::Jpeg => "image/jpeg",
        }
    }

    /// The media-type string for each recognized format.
    pub open spec fn mime_type_spec(m: MimeType) -> Seq<char> {
        match m {
            MimeType::Png => "image/png"@,
            MimeType::Gif => "image/gif"@,
            MimeType::Jpeg => "image/jpeg"@,
        }
    }
}

/// The three media-type strings are pairwise distinct, so the string names
/// its format.
pub proof fn lemma_mime_type_injective(a: MimeType, b: MimeType)
    requires
        MimeType::mime_type_spec(a) == MimeType::mime_type_spec(b),
    ensures
        a == b,
{
    reveal_strlit("image/png");
    reveal_strlit("image/gif");
    reveal_strlit("image/jpeg");
    assert("image/png"@.len() == 9);
    assert("image/gif"@.len() == 9);
    assert("image/jpeg"@.len() == 10);
    assert("image/png"@[6] == 'p');
    assert("image/gif"@[6] == 'g');
}

} // verus!
