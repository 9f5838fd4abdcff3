use vstd::prelude::*;

verus! {

/// Frame size requested from the HDMI capture device.
pub const FRAME_WIDTH: u32 = 1920;
pub const FRAME_HEIGHT: u32 = 1080;

/// Frames held in the driver's queue; one keeps the picture current.
pub const BUFFER_FRAMES: u32 = 1;

/// Frames grabbed and dropped before one is decoded, so that it is fresh.
pub const FRAMES_TO_SKIP: u32 = 5;

/// A V4L2 four character code: the first character in the lowest byte.
pub open spec fn fourcc_value(a: u8, b: u8, c: u8, d: u8) -> int {
    a + 256 * b + 65536 * c + 16777216 * d
}

/// Packs a four character code as V4L2 and OpenCV expect it.
pub fn fourcc(a: u8, b: u8, c: u8, d: u8) -> (code: u32)
    ensures
        code == fourcc_value(a, b, c, d),
{
    let code = (a as u32) | ((b as u32) << 8) | ((c as u32) << 16) | ((d as u32) << 24);
    assert(code == (a as u32) + 256 * (b as u32) + 65536 * (c as u32) + 16777216 * (d as u32)) by (bit_vector)
        requires
            code == (a as u32) | ((b as u32) << 8) | ((c as u32) << 16) | ((d as u32) << 24),
    ;
    code
}

/// The pixel format the capture device delivers: packed RGB, `RGB3`.
pub fn capture_pixel_format() -> (code: u32)
    ensures
        code == fourcc_value(82, 71, 66, 51),
{
    fourcc(82, 71, 66, 51)
}

} // verus!
