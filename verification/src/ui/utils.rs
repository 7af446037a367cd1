use vstd::prelude::*;

verus! {

/// The RGBA pixels (8 bits a channel, row by row), width and height that
/// `image` decodes from an encoded image, or nothing when it cannot decode it.
pub uninterp spec fn rgba8_of(bytes: Seq<u8>) -> Option<(Seq<u8>, u32, u32)>;

/// Trusted: `image::load_from_memory` (format guessed from the bytes), then
/// `DynamicImage::to_rgba8`, handing out the raw buffer and the dimensions.
/// The contract only names the result; nothing is stated of the buffer's
/// length.
#[verifier::external_body]
fn decode_rgba8(bytes: &[u8]) -> (r: Option<(Vec<u8>, u32, u32)>)
    ensures
        r is None <==> rgba8_of(bytes@) is None,
        r matches Some(d) ==> rgba8_of(bytes@) == Some((d.0@, d.1, d.2)),
{
    let image = image::load_from_memory(bytes).ok()?;
    let rgba = image.to_rgba8();
    let (width, height) = rgba.dimensions();
    Some((rgba.into_raw(), width, height))
}

/// Decodes an interface image (an icon, say) from the bytes of its file into
/// RGBA pixels with their width and height; `None` when the bytes are not an
/// image the decoder knows.
pub fn load_image(bytes: &[u8]) -> (r: Option<(Vec<u8>, u32, u32)>)
    ensures
        r is None <==> rgba8_of(bytes@) is None,
        r matches Some(d) ==> rgba8_of(bytes@) == Some((d.0@, d.1, d.2)),
{
    decode_rgba8(bytes)
}

} // verus!
