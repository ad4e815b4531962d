//! What the library asks of the `image` crate about file names, and the
//! encoded images that the codecs hand back.

use vstd::prelude::*;
use vstd::string::*;

use crate::error::Error;
use crate::text::str_eq;

verus! {

/// The media type that the `image` crate gives to a file by the extension of
/// its path; `None` where it knows no format for that extension.
pub uninterp spec fn path_mime_type(path: Seq<char>) -> Option<Seq<char>>;

/// The media type of the file at `path`, by its extension; an unknown
/// extension comes back as the message of the error.
///
/// Trusted: `image::ImageFormat::from_path` and, on its result,
/// `ImageFormat::to_mime_type`. Both depend on the text of the path alone.
/// Nothing is claimed of the message.
#[verifier::external_body]
fn mime_of_path(path: &str) -> (r: Result<&'static str, String>)
    ensures
        match r {
            Ok(mime) => path_mime_type(path@) == Some(mime@),
            Err(_) => path_mime_type(path@) is None,
        },
{
    match image::ImageFormat::from_path(path) {
        Ok(format) => Ok(format.to_mime_type()),
        Err(e) => Err(e.to_string()),
    }
}

/// The file extensions that the `image` crate knows, format by format in the
/// order in which it lists its formats.
pub open spec fn known_file_extensions() -> Seq<Seq<char>> {
    seq![
        "gif"@,
        "ico"@,
        "jpg"@,
        "jpeg"@,
        "png"@,
        "bmp"@,
        "tiff"@,
        "tif"@,
        "tga"@,
        "pbm"@,
        "pam"@,
        "ppm"@,
        "pgm"@,
        "pnm"@,
        "ff"@,
        "avif"@,
        "webp"@,
        "exr"@,
        "qoi"@,
        "dds"@,
        "hdr"@,
        "pcx"@,
    ]
}

/// The texts of a list of static strings.
pub open spec fn texts_of(list: Seq<&'static str>) -> Seq<Seq<char>> {
    list.map_values(|s: &'static str| s@)
}

/// Every file extension that the `image` crate knows, for all its formats.
///
/// Trusted: `image::ImageFormat::all` and, on each format that it yields,
/// `ImageFormat::extensions_str`. The source of the crate lists sixteen
/// formats and, for them, the twenty-two extensions of
/// `known_file_extensions`, in that order.
#[verifier::external_body]
fn all_file_extensions() -> (r: Vec<&'static str>)
    ensures
        texts_of(r@) == known_file_extensions(),
{
    image::ImageFormat::all().flat_map(|format| format.extensions_str().iter().copied()).collect()
}

/// The media type of the file at `path`, by its extension.
pub fn content_type(path: &str) -> (r: Result<String, Error>)
    ensures
        match r {
            Ok(mime) => path_mime_type(path@) == Some(mime@),
            Err(e) => path_mime_type(path@) is None && e is Other,
        },
{
    match mime_of_path(path) {
        Ok(mime) => Ok(String::from_str(mime)),
        Err(message) => Err(Error::Other(message)),
    }
}

/// Whether source images with the file extension `extension` are indexed:
/// whether it is, letter for letter, one of those that the `image` crate
/// knows.
pub fn is_supported(extension: &str) -> (r: bool)
    ensures
        r == known_file_extensions().contains(extension@),
{
    let known = all_file_extensions();
    let mut i: usize = 0;
    while i < known.len()
        invariant
            i <= known.len(),
            texts_of(known@) == known_file_extensions(),
            forall|j: int| 0 <= j < i ==> (#[trigger] known@[j])@ != extension@,
        decreases known.len() - i,
    {
        if str_eq(known[i], extension) {
            assert(texts_of(known@)[i as int] == extension@);
            return true;
        }
        i = i + 1;
    }
    assert forall|j: int| 0 <= j < known_file_extensions().len() implies known_file_extensions()[j]
        != extension@ by {
        assert(texts_of(known@)[j] == known@[j]@);
    }
    false
}

/// An encoded image, whatever the codec.
pub trait OptimizedImage {
    /// The encoded bytes.
    fn data(&self) -> &[u8];
}

/// An image encoded as WebP.
#[derive(Debug)]
pub struct Webp {
    data: Vec<u8>,
}

/// An image encoded as AVIF.
#[derive(Debug)]
pub struct Avif {
    data: Vec<u8>,
}

/// An image encoded as JPEG, which can also be read piece by piece.
#[derive(Debug)]
pub struct Jpeg {
    data: Vec<u8>,
    consumed: usize,
}

impl View for Webp {
    type V = Seq<u8>;

    closed spec fn view(&self) -> Seq<u8> {
        self.data@
    }
}

impl View for Avif {
    type V = Seq<u8>;

    closed spec fn view(&self) -> Seq<u8> {
        self.data@
    }
}

impl View for Jpeg {
    type V = Seq<u8>;

    closed spec fn view(&self) -> Seq<u8> {
        self.data@
    }
}

impl Webp {
    /// The image whose encoded bytes are `data`.
    pub fn new(data: Vec<u8>) -> (r: Webp)
        ensures
            r@ == data@,
    {
        Webp { data }
    }
}

impl Avif {
    /// The image whose encoded bytes are `data`.
    pub fn new(data: Vec<u8>) -> (r: Avif)
        ensures
            r@ == data@,
    {
        Avif { data }
    }
}

impl OptimizedImage for Webp {
    fn data(&self) -> (r: &[u8])
        ensures
            r@ == self@,
    {
        self.data.as_slice()
    }
}

impl OptimizedImage for Avif {
    fn data(&self) -> (r: &[u8])
        ensures
            r@ == self@,
    {
        self.data.as_slice()
    }
}

impl OptimizedImage for Jpeg {
    fn data(&self) -> (r: &[u8])
        ensures
            r@ == self@,
    {
        self.data.as_slice()
    }
}

impl Jpeg {
    /// How many bytes were handed out already.
    pub closed spec fn position(&self) -> nat {
        self.consumed as nat
    }

    /// No more bytes were handed out than there are.
    #[verifier::type_invariant]
    spec fn within(&self) -> bool {
        self.consumed <= self.data@.len()
    }

    /// The image whose encoded bytes are `data`, with nothing handed out yet.
    pub fn new(data: Vec<u8>) -> (r: Jpeg)
        ensures
            r@ == data@,
            r.position() == 0,
    {
        Jpeg { data, consumed: 0 }
    }

    /// How many bytes are left to hand out.
    pub fn remaining(&self) -> (n: usize)
        ensures
            self.position() <= self@.len(),
            n == self@.len() - self.position(),
    {
        proof {
            use_type_invariant(self);
        }
        self.data.len() - self.consumed
    }

    /// Hands out the next bytes: `len` of them, or what is left if that is
    /// less.
    pub fn take(&mut self, len: usize) -> (r: &[u8])
        ensures
            old(self).position() <= old(self)@.len(),
            final(self)@ == old(self)@,
            r@.len() == if len <= old(self)@.len() - old(self).position() {
                len as int
            } else {
                old(self)@.len() - old(self).position()
            },
            final(self).position() == old(self).position() + r@.len(),
            r@ == old(self)@.subrange(
                old(self).position() as int,
                (old(self).position() + r@.len()) as int,
            ),
    {
        proof {
            use_type_invariant(&*self);
        }
        let start = self.consumed;
        let left = self.data.len() - self.consumed;
        let count = if len <= left {
            len
        } else {
            left
        };
        self.consumed = start + count;
        vstd::slice::slice_subrange(self.data.as_slice(), start, start + count)
    }
}

} // verus!
