use vstd::prelude::*;

verus! {

/// An 8-bit RGB image buffer in the making. Verus cannot take the buffer's
/// type itself, so the canvas carries it opaquely; the two spec functions
/// below name what it was created with and what it holds.
#[verifier::external_body]
pub struct PngCanvas {
    pub buffer: image::RgbImage,
}

/// The (width, height) the canvas was created with.
pub uninterp spec fn canvas_dims(canvas: PngCanvas) -> (u32, u32);

/// The canvas's contents: the 8-bit RGB triple at each coordinate.
pub uninterp spec fn canvas_pixels(canvas: PngCanvas) -> Map<(u32, u32), (u8, u8, u8)>;

/// Relies on image::ImageBuffer::new: the buffer has the given dimensions
/// and every pixel of a new buffer is zero. The size bound keeps the call
/// away from its one panic, a buffer length overflowing usize.
#[verifier::external_body]
fn canvas_new(width: u32, height: u32) -> (canvas: PngCanvas)
    requires
        3 * (width as int) * (height as int) <= usize::MAX,
    ensures
        canvas_dims(canvas) == (width, height),
        forall|x: u32, y: u32|
            x < width && y < height ==> canvas_pixels(canvas)[(x, y)] == (0u8, 0u8, 0u8),
{
    PngCanvas { buffer: image::RgbImage::new(width, height) }
}

/// Relies on image::ImageBuffer::put_pixel: stores the triple at (x, y) and
/// changes nothing else; the bounds in the precondition are exactly its
/// panic condition.
#[verifier::external_body]
fn canvas_put(canvas: &mut PngCanvas, x: u32, y: u32, p: (u8, u8, u8))
    requires
        x < canvas_dims(*old(canvas)).0,
        y < canvas_dims(*old(canvas)).1,
    ensures
        canvas_dims(*final(canvas)) == canvas_dims(*old(canvas)),
        canvas_pixels(*final(canvas)) == canvas_pixels(*old(canvas)).insert((x, y), p),
{
    canvas.buffer.put_pixel(x, y, image::Rgb([p.0, p.1, p.2]));
}

/// Fills an image buffer from a square raster of 8-bit RGB triples: the
/// pixel at (r, c) is exactly `raster[r][c]`.
#[verifier::loop_isolation(false)]
pub fn build_image(raster: &Vec<Vec<(u8, u8, u8)>>) -> (canvas: PngCanvas)
    requires
        raster@.len() <= u32::MAX,
        forall|k: int| 0 <= k < raster@.len() ==> (#[trigger] raster@[k])@.len() == raster@.len(),
        3 * raster@.len() * raster@.len() <= usize::MAX,
    ensures
        canvas_dims(canvas) == (raster@.len() as u32, raster@.len() as u32),
        forall|r: int, c: int|
            0 <= r < raster@.len() && 0 <= c < raster@.len() ==> canvas_pixels(canvas)[
                ((r as u32, c as u32))
            ] == raster@[r]@[c],
{
    let s = raster.len();
    let mut canvas = canvas_new(s as u32, s as u32);
    for r in 0..s
        invariant
            canvas_dims(canvas) == (s as u32, s as u32),
            forall|x: int, y: int|
                0 <= x < r && 0 <= y < s ==> canvas_pixels(canvas)[((x as u32, y as u32))]
                    == raster@[x]@[y],
    {
        for c in 0..s
            invariant
                canvas_dims(canvas) == (s as u32, s as u32),
                forall|x: int, y: int|
                    0 <= x < r && 0 <= y < s ==> canvas_pixels(canvas)[((x as u32, y as u32))]
                        == raster@[x]@[y],
                forall|y: int|
                    0 <= y < c ==> canvas_pixels(canvas)[((r as u32, y as u32))] == raster@[r
                        as int]@[y],
        {
            canvas_put(&mut canvas, r as u32, c as u32, raster[r][c]);
        }
    }
    canvas
}

} // verus!
