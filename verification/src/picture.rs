//! The mixer photo behind the controller overlay: the first candidate file
//! whose bytes decode as an image, as RGBA pixels.
use vstd::prelude::*;

verus! {

/// Whether `image::load_from_memory` decodes `bytes`: it guesses the format
/// from the bytes and decodes them under its default limits, so the answer
/// depends on the bytes alone.
pub uninterp spec fn decodes(bytes: Seq<u8>) -> bool;

/// Calls `image::load_from_memory` and then `to_rgba8`. It gives a picture
/// exactly when the bytes decode; then the width, the height and the raw
/// RGBA bytes, four bytes per pixel (the decoder fills a buffer of exactly
/// width * height * bytes per pixel, and the conversion to RGBA maps pixel
/// for pixel). Which pixel bytes come out is left unsaid: the JPEG decoder
/// picks processor-specific code at run time. It is public so that the
/// contract of `first_decoded` can say that its picture is one this call
/// gives for the chosen candidate.
#[verifier::external_body]
pub fn decode_rgba(bytes: &Vec<u8>) -> (r: Option<(u32, u32, Vec<u8>)>)
    ensures
        r is Some <==> decodes(bytes@),
        r matches Some(t) ==> t.2@.len() == 4 * (t.0 as int) * (t.1 as int),
{
    match image::load_from_memory(bytes.as_slice()) {
        Ok(img) => {
            let rgba = img.to_rgba8();
            Some((rgba.width(), rgba.height(), rgba.into_raw()))
        },
        Err(_) => None,
    }
}

/// `k` is the index of the first candidate whose bytes decode.
pub open spec fn is_first_decodable(candidates: Seq<Vec<u8>>, k: int) -> bool {
    &&& 0 <= k < candidates.len()
    &&& decodes(candidates[k]@)
    &&& forall|j: int| 0 <= j < k ==> !decodes(#[trigger] candidates[j]@)
}

/// The picture of the first of `candidates` (file bytes, in search order)
/// that decodes, with that candidate's index, exactly as `decode_rgba`
/// gives it for that candidate; the candidates after it are not decoded. `None` when no candidate decodes.
pub fn first_decoded(candidates: &Vec<Vec<u8>>) -> (r: Option<(usize, u32, u32, Vec<u8>)>)
    ensures
        r is Some <==> exists|i: int| 0 <= i < candidates@.len() && decodes(#[trigger] candidates@[i]@),
        r matches Some(t) ==> is_first_decodable(candidates@, t.0 as int),
        r matches Some(t) ==> t.3@.len() == 4 * (t.1 as int) * (t.2 as int),
        r matches Some(t) ==> call_ensures(
            decode_rgba,
            (&candidates@[t.0 as int],),
            Some((t.1, t.2, t.3)),
        ),
{
    let mut i: usize = 0;
    while i < candidates.len()
        invariant
            i <= candidates@.len(),
            forall|j: int| 0 <= j < i ==> !decodes(#[trigger] candidates@[j]@),
        decreases candidates@.len() - i,
    {
        match decode_rgba(&candidates[i]) {
            Some((w, h, pixels)) => {
                return Some((i, w, h, pixels));
            },
            None => {},
        }
        i = i + 1;
    }
    None
}

} // verus!
