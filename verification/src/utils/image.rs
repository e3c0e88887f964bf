//! Image format detection from magic bytes, and base64 encoding of image
//! payloads.

use base64::Engine as _;
use vstd::prelude::*;

verus! {

/// The leading bytes equal the given ones.
pub open spec fn starts_with(b: Seq<u8>, p: Seq<u8>) -> bool {
    p.len() <= b.len() && b.subrange(0, p.len() as int) == p
}

/// The MIME type the leading magic bytes of an image buffer announce;
/// `unknown` where no known signature matches.
pub open spec fn spec_mime_of_magic(b: Seq<u8>) -> Seq<char> {
    if starts_with(b, seq![0x89u8, 0x50, 0x4E, 0x47, 0x0D, 0x0A, 0x1A, 0x0A]) {
        "image/png"@
    } else if starts_with(b, seq![0xFFu8, 0xD8, 0xFF]) {
        "image/jpeg"@
    } else if starts_with(b, seq![0x47u8, 0x49, 0x46, 0x38]) {
        "image/gif"@
    } else if b.len() >= 12 && starts_with(b, seq![0x52u8, 0x49, 0x46, 0x46]) && b.subrange(
        8,
        12,
    ) == seq![0x57u8, 0x45, 0x42, 0x50] {
        "image/webp"@
    } else if starts_with(b, seq![0x49u8, 0x49, 0x2A, 0x00]) || starts_with(
        b,
        seq![0x4Du8, 0x4D, 0x00, 0x2A],
    ) {
        "image/tiff"@
    } else if starts_with(b, seq![0x42u8, 0x4D]) {
        "image/bmp"@
    } else if starts_with(b, seq![0x00u8, 0x00, 0x01, 0x00]) {
        "image/x-icon"@
    } else if starts_with(b, seq![0x23u8, 0x3F]) {
        "image/vnd.radiance"@
    } else if starts_with(b, seq![0x76u8, 0x2F, 0x31, 0x01]) {
        "image/x-exr"@
    } else if starts_with(b, seq![0x66u8, 0x61, 0x72, 0x62, 0x66, 0x65, 0x6C, 0x64]) {
        "image/x-farbfeld"@
    } else if starts_with(b, seq![0x71u8, 0x6F, 0x69, 0x66]) {
        "image/x-qoi"@
    } else if starts_with(b, seq![0x44u8, 0x44, 0x53, 0x20]) {
        "image/vnd.ms-dds"@
    } else if b.len() >= 12 && b.subrange(4, 12) == seq![
        0x66u8,
        0x74,
        0x79,
        0x70,
        0x61,
        0x76,
        0x69,
        0x66,
    ] {
        "image/avif"@
    } else if b.len() >= 2 && b[0] == 0x50 && 0x31 <= b[1] <= 0x37 {
        "image/x-portable-anymap"@
    } else {
        "unknown"@
    }
}

fn matches_at(b: &[u8], at: usize, p: &[u8]) -> (r: bool)
    ensures
        r == (at + p@.len() <= b@.len() && b@.subrange(at as int, at + p@.len()) == p@),
{
    let n = p.len();
    let bn = b.len();
    if at > bn || n > bn - at {
        return false;
    }
    let mut i: usize = 0;
    while i < n
        invariant
            i <= n,
            n == p@.len(),
            bn == b@.len(),
            at + n <= bn,
            forall|k: int| 0 <= k < i ==> b@[at + k] == p@[k],
        decreases n - i,
    {
        if b[at + i] != p[i] {
            proof {
                assert(b@.subrange(at as int, at + p@.len())[i as int] == b@[at + i]);
            }
            return false;
        }
        i = i + 1;
    }
    proof {
        assert(b@.subrange(at as int, at + p@.len()) =~= p@);
    }
    true
}

/// Names the image format the buffer's magic bytes announce, as a MIME
/// type string; `unknown` where no known signature matches.
pub fn guess_image_format(buffer: &[u8]) -> (r: String)
    ensures
        r@ == spec_mime_of_magic(buffer@),
{
    let png: [u8; 8] = [0x89, 0x50, 0x4E, 0x47, 0x0D, 0x0A, 0x1A, 0x0A];
    let jpeg: [u8; 3] = [0xFF, 0xD8, 0xFF];
    let gif: [u8; 4] = [0x47, 0x49, 0x46, 0x38];
    let riff: [u8; 4] = [0x52, 0x49, 0x46, 0x46];
    let webp: [u8; 4] = [0x57, 0x45, 0x42, 0x50];
    let tiff_le: [u8; 4] = [0x49, 0x49, 0x2A, 0x00];
    let tiff_be: [u8; 4] = [0x4D, 0x4D, 0x00, 0x2A];
    let bmp: [u8; 2] = [0x42, 0x4D];
    let ico: [u8; 4] = [0x00, 0x00, 0x01, 0x00];
    let hdr: [u8; 2] = [0x23, 0x3F];
    let exr: [u8; 4] = [0x76, 0x2F, 0x31, 0x01];
    let ff: [u8; 8] = [0x66, 0x61, 0x72, 0x62, 0x66, 0x65, 0x6C, 0x64];
    let qoi: [u8; 4] = [0x71, 0x6F, 0x69, 0x66];
    let dds: [u8; 4] = [0x44, 0x44, 0x53, 0x20];
    let avif: [u8; 8] = [0x66, 0x74, 0x79, 0x70, 0x61, 0x76, 0x69, 0x66];
    proof {
        assert(png@ =~= seq![0x89u8, 0x50, 0x4E, 0x47, 0x0D, 0x0A, 0x1A, 0x0A]);
        assert(jpeg@ =~= seq![0xFFu8, 0xD8, 0xFF]);
        assert(gif@ =~= seq![0x47u8, 0x49, 0x46, 0x38]);
        assert(riff@ =~= seq![0x52u8, 0x49, 0x46, 0x46]);
        assert(webp@ =~= seq![0x57u8, 0x45, 0x42, 0x50]);
        assert(tiff_le@ =~= seq![0x49u8, 0x49, 0x2A, 0x00]);
        assert(tiff_be@ =~= seq![0x4Du8, 0x4D, 0x00, 0x2A]);
        assert(bmp@ =~= seq![0x42u8, 0x4D]);
        assert(ico@ =~= seq![0x00u8, 0x00, 0x01, 0x00]);
        assert(hdr@ =~= seq![0x23u8, 0x3F]);
        assert(exr@ =~= seq![0x76u8, 0x2F, 0x31, 0x01]);
        assert(ff@ =~= seq![0x66u8, 0x61, 0x72, 0x62, 0x66, 0x65, 0x6C, 0x64]);
        assert(qoi@ =~= seq![0x71u8, 0x6F, 0x69, 0x66]);
        assert(dds@ =~= seq![0x44u8, 0x44, 0x53, 0x20]);
        assert(avif@ =~= seq![0x66u8, 0x74, 0x79, 0x70, 0x61, 0x76, 0x69, 0x66]);
    }
    if matches_at(buffer, 0, png.as_slice()) {
        "image/png".to_owned()
    } else if matches_at(buffer, 0, jpeg.as_slice()) {
        "image/jpeg".to_owned()
    } else if matches_at(buffer, 0, gif.as_slice()) {
        "image/gif".to_owned()
    } else if buffer.len() >= 12 && matches_at(buffer, 0, riff.as_slice()) && matches_at(
        buffer,
        8,
        webp.as_slice(),
    ) {
        "image/webp".to_owned()
    } else if matches_at(buffer, 0, tiff_le.as_slice()) || matches_at(
        buffer,
        0,
        tiff_be.as_slice(),
    ) {
        "image/tiff".to_owned()
    } else if matches_at(buffer, 0, bmp.as_slice()) {
        "image/bmp".to_owned()
    } else if matches_at(buffer, 0, ico.as_slice()) {
        "image/x-icon".to_owned()
    } else if matches_at(buffer, 0, hdr.as_slice()) {
        "image/vnd.radiance".to_owned()
    } else if matches_at(buffer, 0, exr.as_slice()) {
        "image/x-exr".to_owned()
    } else if matches_at(buffer, 0, ff.as_slice()) {
        "image/x-farbfeld".to_owned()
    } else if matches_at(buffer, 0, qoi.as_slice()) {
        "image/x-qoi".to_owned()
    } else if matches_at(buffer, 0, dds.as_slice()) {
        "image/vnd.ms-dds".to_owned()
    } else if buffer.len() >= 12 && matches_at(buffer, 4, avif.as_slice()) {
        "image/avif".to_owned()
    } else if buffer.len() >= 2 && buffer[0] == 0x50 && 0x31 <= buffer[1] && buffer[1] <= 0x37 {
        "image/x-portable-anymap".to_owned()
    } else {
        "unknown".to_owned()
    }
}

/// What the standard base64 encoding of a byte sequence reads; the
/// encoding is a function of the bytes alone.
pub uninterp spec fn base64_of(b: Seq<u8>) -> Seq<char>;

/// Encodes bytes in standard base64 with padding.
///
/// Relies on base64's `STANDARD` engine: the result depends on the input
/// bytes alone, and holds four characters for every three bytes begun.
#[verifier::external_body]
pub fn base64_encode(b: &[u8]) -> (r: String)
    ensures
        r@ == base64_of(b@),
        r@.len() == 4 * ((b@.len() + 2) / 3),
{
    base64::engine::general_purpose::STANDARD.encode(b)
}

/// The MIME type and base64 payload of an image buffer.
pub fn image_type_and_base64(bytes: &[u8]) -> (r: (String, String))
    ensures
        r.0@ == spec_mime_of_magic(bytes@),
        r.1@ == base64_of(bytes@),
{
    let mime = guess_image_format(bytes);
    let data = base64_encode(bytes);
    (mime, data)
}

} // verus!
