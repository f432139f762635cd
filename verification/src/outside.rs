//! Trusted boundary to the outside crates: URL parsing and joining, PNG
//! encoding and base64 encoding. Each wrapper's contract states what the
//! outside call returns; results that would take pages to write out are given
//! uninterpreted names, all of them functions of the arguments alone.

use vstd::prelude::*;

use crate::bitmap::Bitmap;
use crate::bitmap::Pixel;

verus! {

/// Whether a string parses as an absolute URL.
pub uninterp spec fn url_ok(s: Seq<char>) -> bool;

/// Relies on url::Url::parse: success depends on the input string alone, and
/// the parser accepts absolute URLs only.
#[verifier::external_body]
pub fn parse_url_ok(s: &str) -> (r: bool)
    ensures
        r == url_ok(s@),
{
    url::Url::parse(s).is_ok()
}

/// The normalized string of a base URL joined with a path, or nothing where
/// the base does not parse or does not take a join.
pub uninterp spec fn joined_url(base: Seq<char>, path: Seq<char>) -> Option<Seq<char>>;

/// Relies on url::Url::parse, url::Url::join and url::Url::as_str: the
/// joined, serialized URL depends on the two input strings alone.
#[verifier::external_body]
pub fn join_url(base: &str, path: &str) -> (r: Option<String>)
    ensures
        match r {
            Some(u) => joined_url(base@, path@) == Some(u@),
            None => joined_url(base@, path@) is None,
        },
{
    match url::Url::parse(base) {
        Ok(b) => match b.join(path) {
            Ok(j) => Some(j.as_str().to_owned()),
            Err(_) => None,
        },
        Err(_) => None,
    }
}

/// The PNG encoding of an RGBA bitmap, or the empty byte string where the
/// encoder refuses the dimensions; a function of the bitmap alone.
pub uninterp spec fn png_of(width: int, height: int, pixels: Seq<Pixel>) -> Seq<u8>;

/// Relies on image::RgbaImage::from_raw and ImageBuffer::write_to with the
/// PNG format: the encoded bytes depend on the dimensions and the row-major
/// pixels alone; the empty byte string stands for an encoder refusal.
#[verifier::external_body]
pub fn png_encode(bm: &Bitmap) -> (r: Vec<u8>)
    requires
        bm.wf(),
    ensures
        r@ == png_of(bm.spec_width(), bm.spec_height(), bm.spec_pixels()),
{
    let raw: Vec<u8> = bm.pixels.iter().flat_map(|p| [p.r, p.g, p.b, p.a]).collect();
    let buf = match image::RgbaImage::from_raw(bm.width, bm.height, raw) {
        Some(b) => b,
        None => return Vec::new(),
    };
    let mut out = std::io::Cursor::new(Vec::new());
    match buf.write_to(&mut out, image::ImageFormat::Png) {
        Ok(()) => out.into_inner(),
        Err(_) => Vec::new(),
    }
}

/// The base64 text of a byte string under the standard alphabet with padding;
/// a function of the bytes alone.
pub uninterp spec fn base64_of(bytes: Seq<u8>) -> Seq<char>;

/// Relies on base64's STANDARD engine encode: four output characters for
/// every three input bytes, under the standard alphabet with padding, a
/// function of the input bytes alone; empty input encodes to the empty
/// string.
#[verifier::external_body]
pub fn base64_encode(bytes: &Vec<u8>) -> (r: String)
    ensures
        r@ == base64_of(bytes@),
        bytes@.len() == 0 ==> r@.len() == 0,
{
    base64::engine::Engine::encode(&base64::engine::general_purpose::STANDARD, bytes)
}

} // verus!
