//! The image encoder bridge: turning raw pixel buffers obtained from an
//! OS icon renderer into encoded image files.
//!
//! The renderer hands back top-down 32-bit-per-pixel data in B,G,R,A
//! order; the pipeline normalizes the channel order and encodes the
//! buffer. Encoding one frame fails exactly when a dimension lies outside
//! what the ICO container can hold, and a failed frame never aborts a
//! batch.

use vstd::prelude::*;

use crate::convert::{bgra_to_rgba, channel_swapped};
use crate::error::ExtractError;
use vstd::slice::slice_to_vec;

verus! {

/// A raw pixel buffer from the OS rendering path: top-down rows of 4-byte
/// pixels.
pub struct RawPixelBuffer {
    pub width: u32,
    pub height: u32,
    pub pixels: Vec<u8>,
}

impl RawPixelBuffer {
    /// Well-formedness: four bytes for every pixel.
    pub open spec fn wf(self) -> bool {
        self.pixels@.len() == self.width * self.height * 4
    }
}

/// The ICO encoding of an RGBA buffer with the given dimensions; a
/// function of the pixel bytes and dimensions alone.
pub uninterp spec fn ico_encoding_of(width: u32, height: u32, pixels: Seq<u8>) -> Seq<u8>;

/// Relies on image::ImageBuffer::from_raw and ImageBuffer::write_to with
/// the ICO format: a buffer of exactly four bytes per pixel is accepted,
/// and encoding succeeds exactly when both dimensions lie in 1..=256,
/// the range an ICO directory entry can express.
#[verifier::external_body]
fn encode_rgba_ico(width: u32, height: u32, pixels: Vec<u8>) -> (r: Option<Vec<u8>>)
    requires
        pixels@.len() == width * height * 4,
    ensures
        r is Some <==> (1 <= width <= 256 && 1 <= height <= 256),
        r matches Some(v) ==> v@ == ico_encoding_of(width, height, pixels@),
{
    let img: image::RgbaImage = match image::ImageBuffer::from_raw(width, height, pixels) {
        Some(i) => i,
        None => {
            return None;
        },
    };
    let mut cur = std::io::Cursor::new(Vec::new());
    match img.write_to(&mut cur, image::ImageFormat::Ico) {
        Ok(()) => Some(cur.into_inner()),
        Err(_) => None,
    }
}

/// Whether a frame's dimensions fit an ICO directory entry.
pub open spec fn spec_frame_ok(f: RawPixelBuffer) -> bool {
    1 <= f.width <= 256 && 1 <= f.height <= 256
}

/// The ICO bytes one frame yields: its pixels with the channel order
/// normalized, encoded.
pub open spec fn spec_frame_ico(f: RawPixelBuffer) -> Seq<u8> {
    ico_encoding_of(f.width, f.height, channel_swapped(f.pixels@))
}

/// Convert one OS-rendered frame to ICO bytes: normalize the channel
/// order from B,G,R,A to R,G,B,A, then encode. Succeeds exactly when both
/// dimensions fit the container.
pub fn frame_to_ico(frame: &RawPixelBuffer) -> (res: Result<Vec<u8>, ExtractError>)
    requires
        frame.wf(),
    ensures
        res is Ok <==> spec_frame_ok(*frame),
        res matches Ok(v) ==> v@ == spec_frame_ico(*frame),
        res matches Err(e) ==> e == ExtractError::Encode,
{
    let mut pixels = slice_to_vec(frame.pixels.as_slice());
    bgra_to_rgba(&mut pixels);
    match encode_rgba_ico(frame.width, frame.height, pixels) {
        Some(v) => Ok(v),
        None => Err(ExtractError::Encode),
    }
}

/// The encoded frames at or after `j` whose dimensions fit, in order.
pub open spec fn spec_dll_icos(frames: Seq<RawPixelBuffer>, j: int) -> Seq<Seq<u8>>
    decreases frames.len() - j,
{
    if j >= frames.len() {
        Seq::empty()
    } else if spec_frame_ok(frames[j]) {
        seq![spec_frame_ico(frames[j])] + spec_dll_icos(frames, j + 1)
    } else {
        spec_dll_icos(frames, j + 1)
    }
}

/// Encode a batch of OS-rendered frames as ICO files, in order; a frame
/// the encoder rejects is excluded and aborts nothing.
pub fn get_dll_icos(frames: &Vec<RawPixelBuffer>) -> (res: Vec<Vec<u8>>)
    requires
        forall|j: int| 0 <= j < frames@.len() ==> (#[trigger] frames@[j]).wf(),
    ensures
        ({
            let s = spec_dll_icos(frames@, 0);
            &&& res@.len() == s.len()
            &&& forall|j: int| 0 <= j < s.len() ==> (#[trigger] res@[j])@ == s[j]
        }),
{
    let ghost s0 = spec_dll_icos(frames@, 0);
    let mut out: Vec<Vec<u8>> = Vec::new();
    let mut k: usize = 0;
    while k < frames.len()
        invariant
            forall|j: int| 0 <= j < frames@.len() ==> (#[trigger] frames@[j]).wf(),
            s0 == spec_dll_icos(frames@, 0),
            k <= frames@.len(),
            out@.len() <= s0.len(),
            forall|j: int| 0 <= j < out@.len() ==> (#[trigger] out@[j])@ == s0[j],
            spec_dll_icos(frames@, k as int) =~= s0.skip(out@.len() as int),
        decreases frames@.len() - k,
    {
        let ghost p = out@.len() as int;
        match frame_to_ico(&frames[k]) {
            Ok(v) => {
                proof {
                    assert(spec_dll_icos(frames@, k as int) == seq![spec_frame_ico(
                        frames@[k as int],
                    )] + spec_dll_icos(frames@, k as int + 1));
                    assert(s0.skip(p)[0] == s0[p]);
                    let rest = spec_dll_icos(frames@, k as int + 1);
                    assert forall|m: int| 0 <= m < rest.len() implies rest[m] == s0.skip(p + 1)[m] by {
                        assert(spec_dll_icos(frames@, k as int)[m + 1] == rest[m]);
                        assert(s0.skip(p)[m + 1] == s0[p + 1 + m]);
                    }
                    assert(rest =~= s0.skip(p + 1));
                }
                out.push(v);
            },
            Err(_) => {
                proof {
                    assert(spec_dll_icos(frames@, k as int) == spec_dll_icos(
                        frames@,
                        k as int + 1,
                    ));
                }
            },
        }
        k = k + 1;
    }
    proof {
        assert(spec_dll_icos(frames@, frames@.len() as int) =~= Seq::<Seq<u8>>::empty());
        assert(out@.len() == s0.len());
    }
    out
}

/// Select among the outcomes of the two extraction attempts for one icon
/// id: the attempt with the id as given comes first, the attempt with the
/// sign flipped second, and the first that produced an icon wins.
pub fn get_dll_ico(id: i32, primary: Option<Vec<u8>>, flipped: Option<Vec<u8>>) -> (res: Result<
    Vec<u8>,
    ExtractError,
>)
    ensures
        match res {
            Ok(v) => ({
                ||| primary matches Some(p) && v@ == p@
                ||| primary is None && (flipped matches Some(f) && v@ == f@)
            }),
            Err(e) => primary is None && flipped is None && e == ExtractError::IconNotFound(id),
        },
{
    match primary {
        Some(p) => Ok(p),
        None => match flipped {
            Some(f) => Ok(f),
            None => Err(ExtractError::IconNotFound(id)),
        },
    }
}

} // verus!
