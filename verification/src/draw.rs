//! Drawing pixels, rectangles, images and glyphs into RGBA frames.
use vstd::prelude::*;
use crate::canvas::{Rgba, byte_offset, painted, single, channel, lemma_read_back, lemma_write_pixel, lemma_paint_nothing, lemma_extend_painting, lemma_same_painter};
use crate::color::{color_image, colored};

verus! {

/// `(x, y)` is a pixel of a surface `sw` pixels wide and `sh` pixels high.
pub open spec fn on_surface(x: int, y: int, sw: int, sh: int) -> bool {
    0 <= x < sw && 0 <= y < sh
}

/// The four bytes of pixel `(x, y)` lie in a frame of `len` bytes, and their
/// offset can be computed in `i32`.
pub open spec fn pixel_in_frame(len: int, x: int, y: int, sw: int) -> bool {
    byte_offset(x, y, sw) + 4 <= len && byte_offset(x, y, sw) <= i32::MAX
}

/// The offset of a pixel of a surface is not negative and grows with the row.
proof fn lemma_offset_facts(x: int, y: int, sw: int)
    requires
        0 <= x,
        0 <= y,
        0 < sw,
    ensures
        0 <= y * sw,
        0 <= byte_offset(x, y, sw),
{
    assert(0 <= y * sw) by (nonlinear_arith)
        requires
            0 <= y,
            0 < sw,
    ;
}

/// Writes one pixel of a frame whose surface dimensions are not negative;
/// a pixel off the surface is ignored.
fn write_pixel(frame: &mut [u8], x: i32, y: i32, surface_width: i32, surface_height: i32, rgba: Rgba)
    requires
        on_surface(x as int, y as int, surface_width as int, surface_height as int) ==> pixel_in_frame(
            old(frame)@.len() as int,
            x as int,
            y as int,
            surface_width as int,
        ),
    ensures
        final(frame)@ == if on_surface(x as int, y as int, surface_width as int, surface_height as int) {
            painted(old(frame)@, surface_width as int, single(x as int, y as int, rgba))
        } else {
            old(frame)@
        },
{
    // reject negative coordinates as they are off screen
    if x < 0 || y < 0 {
        return;
    }
    // reject coordinates bigger than the surface
    if x >= surface_width || y >= surface_height {
        return;
    }
    proof {
        lemma_offset_facts(x as int, y as int, surface_width as int);
    }
    let index = ((y * surface_width + x) * 4) as usize;
    frame[index] = rgba.0;
    frame[index + 1] = rgba.1;
    frame[index + 2] = rgba.2;
    frame[index + 3] = rgba.3;
    proof {
        lemma_write_pixel(old(frame)@, surface_width as int, x as int, y as int, rgba);
    }
}

/// Sets pixel `(x, y)` of a `surface_width` by `surface_height` frame to
/// `rgba`. A pixel off the surface leaves the frame as it is. A surface with
/// a negative dimension holds no pixel at all: its frame is emptied.
pub fn set_pixel_at(
    frame: &mut Vec<u8>,
    x: i32,
    y: i32,
    surface_width: i32,
    surface_height: i32,
    rgba: Rgba,
)
    requires
        on_surface(x as int, y as int, surface_width as int, surface_height as int) ==> pixel_in_frame(
            old(frame)@.len() as int,
            x as int,
            y as int,
            surface_width as int,
        ),
    ensures
        surface_width < 0 || surface_height < 0 ==> final(frame)@ == Seq::<u8>::empty(),
        0 <= surface_width && 0 <= surface_height && on_surface(
            x as int,
            y as int,
            surface_width as int,
            surface_height as int,
        ) ==> final(frame)@ == painted(old(frame)@, surface_width as int, single(x as int, y as int, rgba)),
        0 <= surface_width && 0 <= surface_height && !on_surface(
            x as int,
            y as int,
            surface_width as int,
            surface_height as int,
        ) ==> final(frame)@ == old(frame)@,
{
    if surface_width < 0 || surface_height < 0 {
        frame.clear();
        return;
    }
    write_pixel(frame.as_mut_slice(), x, y, surface_width, surface_height, rgba);
}

/// The byte offset of pixel `(x, y)` in `frame`, or `None` when the pixel is
/// off the surface or its bytes start past the end of the frame.
fn try_compute_frame_index_from_position(
    frame: &[u8],
    x: i32,
    y: i32,
    surface_width: i32,
    surface_height: i32,
) -> (r: Option<usize>)
    requires
        on_surface(x as int, y as int, surface_width as int, surface_height as int) ==> byte_offset(
            x as int,
            y as int,
            surface_width as int,
        ) <= i32::MAX,
    ensures
        r == if on_surface(x as int, y as int, surface_width as int, surface_height as int)
            && byte_offset(x as int, y as int, surface_width as int) < frame@.len() {
            Some(byte_offset(x as int, y as int, surface_width as int) as usize)
        } else {
            None::<usize>
        },
{
    if x < 0 || y < 0 || x >= surface_width || y >= surface_height {
        return None;
    }
    proof {
        lemma_offset_facts(x as int, y as int, surface_width as int);
    }
    let pixel_index = y * surface_width + x;
    let byte_index = pixel_index * 4;
    if byte_index as usize >= frame.len() {
        return None;
    }
    Some(byte_index as usize)
}

/// Pixel `p` of an RGBA image.
pub open spec fn image_pixel(img: Seq<u8>, p: int) -> Rgba {
    (img[4 * p], img[4 * p + 1], img[4 * p + 2], img[4 * p + 3])
}

/// The colour that an `iw` by `ih` image drawn with its top left corner at
/// `(x, y)` gives pixel `(a, b)`, if it covers it.
pub open spec fn image_color(img: Seq<u8>, x: int, y: int, iw: int, ih: int, a: int, b: int) -> Option<Rgba> {
    if x <= a < x + iw && y <= b < y + ih {
        Some(image_pixel(img, (b - y) * iw + (a - x)))
    } else {
        None
    }
}

/// The painter of an image drawn at `(x, y)`.
pub open spec fn image_painter(img: Seq<u8>, x: int, y: int, iw: int, ih: int) -> spec_fn(int, int) -> Option<Rgba> {
    |a: int, b: int| image_color(img, x, y, iw, ih, a, b)
}

/// The part of the image painter that covers the rows above `row`, and the
/// first `col` pixels of row `row`.
spec fn image_partial(img: Seq<u8>, x: int, y: int, iw: int, ih: int, row: int, col: int) -> spec_fn(int, int) -> Option<Rgba> {
    |a: int, b: int|
        if b - y < row || (b - y == row && a - x < col) {
            image_color(img, x, y, iw, ih, a, b)
        } else {
            None
        }
}

/// Drawing an `iw` by `ih` image at `(x, y)` stays inside a frame of
/// `len` bytes and an image of `img_len` bytes: every row starts and ends on
/// the surface (the column right after the image too), the bytes of the last
/// row lie in the frame, the image holds `ih * iw` pixels, and the offsets fit
/// in `i32`.
pub open spec fn image_fits(len: int, img_len: int, x: int, y: int, iw: int, ih: int, sw: int, sh: int) -> bool {
    ih <= 0 || {
        &&& 0 <= iw
        &&& 0 <= x
        &&& x + iw < sw
        &&& 0 <= y
        &&& y + ih <= sh
        &&& byte_offset(x + iw, y + ih - 1, sw) < len
        &&& byte_offset(x + iw, y + ih - 1, sw) <= i32::MAX
        &&& ih * iw * 4 <= img_len
        &&& ih * iw * 4 <= i32::MAX
    }
}

/// Tells whether an `img_width` by `img_height` image of `img_len` bytes can
/// be drawn at `(x, y)` into a frame of `frame_len` bytes: exactly when
/// `draw_image` accepts these arguments.
pub fn image_fits_frame(
    frame_len: usize,
    img_len: usize,
    x: i32,
    y: i32,
    img_width: i32,
    img_height: i32,
    surface_width: i32,
    surface_height: i32,
) -> (fits: bool)
    ensures
        fits == image_fits(
            frame_len as int,
            img_len as int,
            x as int,
            y as int,
            img_width as int,
            img_height as int,
            surface_width as int,
            surface_height as int,
        ),
{
    if img_height <= 0 {
        return true;
    }
    let x = x as i128;
    let y = y as i128;
    let iw = img_width as i128;
    let ih = img_height as i128;
    let sw = surface_width as i128;
    let sh = surface_height as i128;
    if !(0 <= iw && 0 <= x && x + iw < sw && 0 <= y && y + ih <= sh) {
        return false;
    }
    proof {
        assert(0 <= (y + ih - 1) * sw <= 0x8000_0000 * 0x8000_0000) by (nonlinear_arith)
            requires
                0 <= y + ih - 1 < 0x8000_0000,
                0 <= sw < 0x8000_0000,
        ;
        assert(0 <= ih * iw <= 0x8000_0000 * 0x8000_0000) by (nonlinear_arith)
            requires
                0 <= ih < 0x8000_0000,
                0 <= iw < 0x8000_0000,
        ;
        assert(ih * iw * 4 == (ih * iw) * 4) by (nonlinear_arith);
    }
    let last = ((y + ih - 1) * sw + x + iw) * 4;
    let pixels = ih * iw * 4;
    last < frame_len as i128 && last <= i32::MAX as i128 && pixels <= img_len as i128 && pixels <= i32::MAX as i128
}

/// Offsets and image indices of a drawn pixel are bounded by those of the
/// last row.
proof fn lemma_image_bounds(x: int, y: int, iw: int, ih: int, sw: int, r: int, c: int)
    requires
        0 <= x,
        0 <= y,
        0 <= c < iw,
        0 <= r < ih,
        x + iw < sw,
    ensures
        byte_offset(x + c, y + r, sw) + 4 <= byte_offset(x + iw, y + ih - 1, sw),
        0 <= byte_offset(x + c, y + r, sw),
        (r * iw + c) * 4 + 4 <= ih * iw * 4,
        0 <= r * iw,
        r * iw * 4 == (r * iw) * 4,
        (r * iw + iw) * 4 <= ih * iw * 4,
{
    assert((y + r) * sw <= (y + ih - 1) * sw) by (nonlinear_arith)
        requires
            r <= ih - 1,
            0 < sw,
    ;
    assert(0 <= (y + r) * sw) by (nonlinear_arith)
        requires
            0 <= y + r,
            0 < sw,
    ;
    assert(r * iw + iw <= ih * iw) by (nonlinear_arith)
        requires
            r + 1 <= ih,
            0 <= iw,
    ;
    assert(0 <= r * iw) by (nonlinear_arith)
        requires
            0 <= r,
            0 <= iw,
    ;
    assert(r * iw * 4 == (r * iw) * 4) by (nonlinear_arith);
    assert(ih * iw * 4 == (ih * iw) * 4) by (nonlinear_arith);
}

/// Draws an `img_width` by `img_height` RGBA image into the frame with its top
/// left corner at `(x, y)`: every covered pixel takes the image's colour,
/// alpha included; the rest of the frame is kept.
pub fn draw_image(
    frame: &mut [u8],
    img_data: &[u8],
    x: i32,
    y: i32,
    img_width: i32,
    img_height: i32,
    surface_width: i32,
    surface_height: i32,
)
    requires
        image_fits(
            old(frame)@.len() as int,
            img_data@.len() as int,
            x as int,
            y as int,
            img_width as int,
            img_height as int,
            surface_width as int,
            surface_height as int,
        ),
    ensures
        final(frame)@ == painted(
            old(frame)@,
            surface_width as int,
            image_painter(img_data@, x as int, y as int, img_width as int, img_height as int),
        ),
{
    let ghost old_frame = frame@;
    let ghost sw = surface_width as int;
    let ghost img = img_data@;
    let ghost full = image_painter(img, x as int, y as int, img_width as int, img_height as int);
    if img_height <= 0 {
        proof {
            lemma_paint_nothing(old_frame, sw, full);
        }
        return;
    }
    proof {
        lemma_paint_nothing(old_frame, sw, image_partial(img, x as int, y as int, img_width as int, img_height as int, 0, 0));
    }
    let mut row: i32 = 0;
    while row < img_height
        invariant
            image_fits(
                old_frame.len() as int,
                img.len() as int,
                x as int,
                y as int,
                img_width as int,
                img_height as int,
                sw,
                surface_height as int,
            ),
            0 < img_height,
            0 <= row <= img_height,
            sw == surface_width,
            img == img_data@,
            frame@ == painted(old_frame, sw, image_partial(img, x as int, y as int, img_width as int, img_height as int, row as int, 0)),
        decreases img_height - row,
    {
        proof {
            assert((y + row) * sw <= (y + img_height - 1) * sw) by (nonlinear_arith)
                requires
                    row <= img_height - 1,
                    0 < sw,
            ;
            assert(0 <= (y + row) * sw) by (nonlinear_arith)
                requires
                    0 <= y + row,
                    0 < sw,
            ;
            if img_width > 0 {
                lemma_image_bounds(x as int, y as int, img_width as int, img_height as int, sw, row as int, 0);
            } else {
                assert(0 <= (y + row) * sw) by (nonlinear_arith)
                    requires
                        0 <= y + row,
                        0 < sw,
                ;
                assert((y + row) * sw <= (y + img_height - 1) * sw) by (nonlinear_arith)
                    requires
                        row <= img_height - 1,
                        0 < sw,
                ;
                assert(row * img_width == 0) by (nonlinear_arith)
                    requires
                        img_width == 0,
                ;
            }
        }
        let image_row_start = (row * img_width * 4) as usize;
        let frame_start_index = try_compute_frame_index_from_position(frame, x, y + row, surface_width, surface_height)
            .expect("Expected valid conversion of position to frame index but got None!");
        let frame_end_index = try_compute_frame_index_from_position(frame, x + img_width, y + row, surface_width, surface_height)
            .expect("Expected valid conversion of position to frame index but got None!");
        let mut col: i32 = 0;
        while col < img_width
            invariant
                image_fits(
                    old_frame.len() as int,
                    img.len() as int,
                    x as int,
                    y as int,
                    img_width as int,
                    img_height as int,
                    sw,
                    surface_height as int,
                ),
                0 <= row < img_height,
                0 <= col <= img_width,
                sw == surface_width,
                img == img_data@,
                image_row_start == row * img_width * 4,
                frame_start_index == byte_offset(x as int, (y + row) as int, sw),
                frame_end_index == byte_offset((x + img_width) as int, (y + row) as int, sw),
                frame@.len() == old_frame.len(),
                frame@ == painted(old_frame, sw, image_partial(img, x as int, y as int, img_width as int, img_height as int, row as int, col as int)),
            decreases img_width - col,
        {
            proof {
                lemma_image_bounds(x as int, y as int, img_width as int, img_height as int, sw, row as int, col as int);
                assert(byte_offset(x + col, y + row, sw) == frame_start_index + 4 * col);
                assert((row * img_width + col) * 4 == image_row_start + 4 * col);
            }
            let src = image_row_start + 4 * (col as usize);
            let dst = frame_start_index + 4 * (col as usize);
            let ghost before = frame@;
            let rgba = (img_data[src], img_data[src + 1], img_data[src + 2], img_data[src + 3]);
            frame[dst] = rgba.0;
            frame[dst + 1] = rgba.1;
            frame[dst + 2] = rgba.2;
            frame[dst + 3] = rgba.3;
            proof {
                lemma_write_pixel(before, sw, (x + col) as int, (y + row) as int, rgba);
                let f = image_partial(img, x as int, y as int, img_width as int, img_height as int, row as int, col as int);
                let g = image_partial(img, x as int, y as int, img_width as int, img_height as int, row as int, col + 1);
                assert(rgba == image_pixel(img, row * img_width + col));
                assert forall|a: int, b: int| #[trigger] g(a, b) == (if a == x + col && b == y + row {
                    Some(rgba)
                } else {
                    f(a, b)
                }) by {
                    if a == x + col && b == y + row {
                        assert((b - y) * img_width + (a - x) == row * img_width + col);
                    }
                }
                lemma_extend_painting(old_frame, sw, f, (x + col) as int, (y + row) as int, rgba, g);
            }
            col = col + 1;
        }
        proof {
            let f = image_partial(img, x as int, y as int, img_width as int, img_height as int, row as int, img_width as int);
            let g = image_partial(img, x as int, y as int, img_width as int, img_height as int, row + 1, 0);
            assert forall|a: int, b: int| #[trigger] f(a, b) == g(a, b) by {}
            lemma_same_painter(old_frame, sw, f, g);
        }
        row = row + 1;
    }
    proof {
        let f = image_partial(img, x as int, y as int, img_width as int, img_height as int, img_height as int, 0);
        assert forall|a: int, b: int| #[trigger] f(a, b) == full(a, b) by {}
        lemma_same_painter(old_frame, sw, f, full);
    }
}

/// Reading back a drawn image: every byte of pixel `(c, r)` of the image,
/// as drawn at `(x, y)`, holds the matching byte of the image.
pub proof fn lemma_image_read_back(
    old: Seq<u8>,
    img: Seq<u8>,
    x: int,
    y: int,
    iw: int,
    ih: int,
    sw: int,
    sh: int,
    c: int,
    r: int,
    ch: int,
)
    requires
        image_fits(old.len() as int, img.len() as int, x, y, iw, ih, sw, sh),
        0 <= c < iw,
        0 <= r < ih,
        0 <= ch < 4,
    ensures
        painted(old, sw, image_painter(img, x, y, iw, ih))[byte_offset(x + c, y + r, sw) + ch] == img[4 * (r * iw + c) + ch],
{
    lemma_image_bounds(x, y, iw, ih, sw, r, c);
    lemma_read_back(old, sw, image_painter(img, x, y, iw, ih), x + c, y + r, ch);
    assert((y + r - y) * iw + (x + c - x) == r * iw + c);
    let p = image_pixel(img, r * iw + c);
    assert(channel(p, ch) == img[4 * (r * iw + c) + ch]);
}

/// Blacks out the image (its alpha is kept) and draws it at `(x, y)`:
/// erases the area that the image covers.
pub fn clear_image(
    frame: &mut [u8],
    img_data: &mut [u8],
    x: i32,
    y: i32,
    img_width: i32,
    img_height: i32,
    surface_width: i32,
    surface_height: i32,
)
    requires
        image_fits(
            old(frame)@.len() as int,
            old(img_data)@.len() as int,
            x as int,
            y as int,
            img_width as int,
            img_height as int,
            surface_width as int,
            surface_height as int,
        ),
    ensures
        final(img_data)@ == colored(old(img_data)@, (0u8, 0u8, 0u8)),
        final(frame)@ == painted(
            old(frame)@,
            surface_width as int,
            image_painter(colored(old(img_data)@, (0u8, 0u8, 0u8)), x as int, y as int, img_width as int, img_height as int),
        ),
{
    color_image(img_data, (0, 0, 0));
    draw_image(frame, img_data, x, y, img_width, img_height, surface_width, surface_height);
}

/// Pixel `(a, b)` lies in the border band, `bw` pixels wide, around the
/// `w` by `h` rectangle whose top left corner is `(x, y)`.
pub open spec fn in_rect_border(a: int, b: int, x: int, y: int, w: int, h: int, bw: int) -> bool {
    (x - bw <= a < x) || (x + w <= a < x + w + bw) || (y - bw <= b < y) || (y + h <= b < y + h + bw)
}

/// Pixel `(a, b)` lies in the rectangle grown by its border and clipped to
/// the surface.
pub open spec fn in_rect_clip(a: int, b: int, x: int, y: int, w: int, h: int, bw: int, sw: int, sh: int) -> bool {
    &&& 0 <= a && x - bw <= a && a < x + w + bw && a < sw
    &&& 0 <= b && y - bw <= b && b < y + h + bw && b < sh
}

/// The colour that drawing the rectangle gives pixel `(a, b)`: the border
/// colour on the border band (when the border is wider than zero), the fill
/// colour inside it when filling, nothing elsewhere.
pub open spec fn rect_color(
    x: int,
    y: int,
    w: int,
    h: int,
    bw: int,
    border_color: Option<Rgba>,
    fill: bool,
    fill_color: Rgba,
    sw: int,
    sh: int,
    a: int,
    b: int,
) -> Option<Rgba> {
    if !in_rect_clip(a, b, x, y, w, h, bw, sw, sh) {
        None
    } else if in_rect_border(a, b, x, y, w, h, bw) && bw > 0 {
        border_color
    } else if fill && !in_rect_border(a, b, x, y, w, h, bw) {
        Some(fill_color)
    } else {
        None
    }
}

/// The painter of a rectangle.
pub open spec fn rect_painter(
    x: int,
    y: int,
    w: int,
    h: int,
    bw: int,
    border_color: Option<Rgba>,
    fill: bool,
    fill_color: Rgba,
    sw: int,
    sh: int,
) -> spec_fn(int, int) -> Option<Rgba> {
    |a: int, b: int| rect_color(x, y, w, h, bw, border_color, fill, fill_color, sw, sh, a, b)
}

/// The part of the rectangle's painter that covers the columns left of
/// `col`, and column `col` above `row`.
spec fn rect_partial(
    x: int,
    y: int,
    w: int,
    h: int,
    bw: int,
    border_color: Option<Rgba>,
    fill: bool,
    fill_color: Rgba,
    sw: int,
    sh: int,
    col: int,
    row: int,
) -> spec_fn(int, int) -> Option<Rgba> {
    |a: int, b: int|
        if a < col || (a == col && b < row) {
            rect_color(x, y, w, h, bw, border_color, fill, fill_color, sw, sh, a, b)
        } else {
            None
        }
}

/// Draws a `width` by `height` rectangle with its top left corner at
/// `(x, y)`: a border band `border_width` pixels wide around it in
/// `border_color`, and, when `fill` holds, its inside in `fill_color`. Only
/// the pixels on the surface are drawn; the rest of the frame is kept.
pub fn draw_rect(
    frame: &mut [u8],
    x: i32,
    y: i32,
    width: i32,
    height: i32,
    border_width: i32,
    border_color: Option<Rgba>,
    fill: bool,
    fill_color: Rgba,
    surface_width: i32,
    surface_height: i32,
)
    requires
        i32::MIN <= x - border_width,
        i32::MIN <= x + width <= i32::MAX,
        i32::MIN <= x + width + border_width <= i32::MAX,
        i32::MIN <= y - border_width,
        i32::MIN <= y + height <= i32::MAX,
        i32::MIN <= y + height + border_width <= i32::MAX,
        x - border_width <= i32::MAX,
        y - border_width <= i32::MAX,
        border_width > 0 && border_color is None ==> forall|a: int, b: int|
            #[trigger] in_rect_clip(a, b, x as int, y as int, width as int, height as int, border_width as int, surface_width as int, surface_height as int)
                ==> !in_rect_border(a, b, x as int, y as int, width as int, height as int, border_width as int),
        forall|a: int, b: int|
            #[trigger] rect_color(
                x as int,
                y as int,
                width as int,
                height as int,
                border_width as int,
                border_color,
                fill,
                fill_color,
                surface_width as int,
                surface_height as int,
                a,
                b,
            ) is Some ==> pixel_in_frame(old(frame)@.len() as int, a, b, surface_width as int),
    ensures
        final(frame)@ == painted(
            old(frame)@,
            surface_width as int,
            rect_painter(
                x as int,
                y as int,
                width as int,
                height as int,
                border_width as int,
                border_color,
                fill,
                fill_color,
                surface_width as int,
                surface_height as int,
            ),
        ),
{
    let ghost old_frame = frame@;
    let ghost sw = surface_width as int;
    let ghost full = rect_painter(
        x as int,
        y as int,
        width as int,
        height as int,
        border_width as int,
        border_color,
        fill,
        fill_color,
        sw,
        surface_height as int,
    );
    let left_bound = x - border_width;
    let right_bound = x + width + border_width;
    let top_bound = y - border_width;
    let bottom_bound = y + height + border_width;

    let draw_x0 = if left_bound > 0 { left_bound } else { 0 };
    let draw_y0 = if top_bound > 0 { top_bound } else { 0 };
    let draw_x_end = if right_bound < surface_width { right_bound } else { surface_width };
    let draw_y_end = if bottom_bound < surface_height { bottom_bound } else { surface_height };

    proof {
        let f = rect_partial(
            x as int,
            y as int,
            width as int,
            height as int,
            border_width as int,
            border_color,
            fill,
            fill_color,
            sw,
            surface_height as int,
            draw_x0 as int,
            draw_y0 as int,
        );
        assert forall|a: int, b: int| #[trigger] f(a, b) is None by {}
        lemma_paint_nothing(old_frame, sw, f);
    }

    let mut px = draw_x0;
    while px < draw_x_end
        invariant
            draw_x0 <= px,
            px <= draw_x_end || px == draw_x0,
            draw_x0 == (if x - border_width > 0 { x - border_width } else { 0 }),
            draw_y0 == (if y - border_width > 0 { y - border_width } else { 0 }),
            draw_x_end == (if x + width + border_width < surface_width { x + width + border_width } else { surface_width as int }),
            draw_y_end == (if y + height + border_width < surface_height { y + height + border_width } else { surface_height as int }),
            sw == surface_width,
            i32::MIN <= x - border_width,
            i32::MIN <= x + width <= i32::MAX,
            i32::MIN <= x + width + border_width <= i32::MAX,
            i32::MIN <= y - border_width,
            i32::MIN <= y + height <= i32::MAX,
            i32::MIN <= y + height + border_width <= i32::MAX,
            border_width > 0 && border_color is None ==> forall|a: int, b: int|
                #[trigger] in_rect_clip(a, b, x as int, y as int, width as int, height as int, border_width as int, surface_width as int, surface_height as int)
                    ==> !in_rect_border(a, b, x as int, y as int, width as int, height as int, border_width as int),
            forall|a: int, b: int|
                #[trigger] rect_color(
                    x as int,
                    y as int,
                    width as int,
                    height as int,
                    border_width as int,
                    border_color,
                    fill,
                    fill_color,
                    surface_width as int,
                    surface_height as int,
                    a,
                    b,
                ) is Some ==> pixel_in_frame(old_frame.len() as int, a, b, surface_width as int),
            frame@.len() == old_frame.len(),
            frame@ == painted(
                old_frame,
                sw,
                rect_partial(
                    x as int,
                    y as int,
                    width as int,
                    height as int,
                    border_width as int,
                    border_color,
                    fill,
                    fill_color,
                    sw,
                    surface_height as int,
                    px as int,
                    draw_y0 as int,
                ),
            ),
        decreases draw_x_end - px,
    {
        let mut py = draw_y0;
        while py < draw_y_end
            invariant
                draw_x0 <= px < draw_x_end,
                draw_y0 <= py,
                py <= draw_y_end || py == draw_y0,
                draw_x0 == (if x - border_width > 0 { x - border_width } else { 0 }),
                draw_y0 == (if y - border_width > 0 { y - border_width } else { 0 }),
                draw_x_end == (if x + width + border_width < surface_width { x + width + border_width } else { surface_width as int }),
                draw_y_end == (if y + height + border_width < surface_height { y + height + border_width } else { surface_height as int }),
                sw == surface_width,
                i32::MIN <= x - border_width,
                i32::MIN <= x + width <= i32::MAX,
                i32::MIN <= x + width + border_width <= i32::MAX,
                i32::MIN <= y - border_width,
                i32::MIN <= y + height <= i32::MAX,
                i32::MIN <= y + height + border_width <= i32::MAX,
                border_width > 0 && border_color is None ==> forall|a: int, b: int|
                    #[trigger] in_rect_clip(a, b, x as int, y as int, width as int, height as int, border_width as int, surface_width as int, surface_height as int)
                        ==> !in_rect_border(a, b, x as int, y as int, width as int, height as int, border_width as int),
                forall|a: int, b: int|
                    #[trigger] rect_color(
                        x as int,
                        y as int,
                        width as int,
                        height as int,
                        border_width as int,
                        border_color,
                        fill,
                        fill_color,
                        surface_width as int,
                        surface_height as int,
                        a,
                        b,
                    ) is Some ==> pixel_in_frame(old_frame.len() as int, a, b, surface_width as int),
                frame@.len() == old_frame.len(),
                frame@ == painted(
                    old_frame,
                    sw,
                    rect_partial(
                        x as int,
                        y as int,
                        width as int,
                        height as int,
                        border_width as int,
                        border_color,
                        fill,
                        fill_color,
                        sw,
                        surface_height as int,
                        px as int,
                        py as int,
                    ),
                ),
            decreases draw_y_end - py,
        {
            // if the px is being drawn in the range of the border, draw the border
            let in_left_border = px >= x - border_width && px < x;
            let in_right_border = px >= x + width && px < x + width + border_width;
            let in_top_border = py >= y - border_width && py < y;
            let in_bottom_border = py >= y + height && py < y + height + border_width;
            let in_border = in_left_border || in_right_border || in_top_border || in_bottom_border;

            let ghost before = frame@;
            let ghost f = rect_partial(
                x as int,
                y as int,
                width as int,
                height as int,
                border_width as int,
                border_color,
                fill,
                fill_color,
                sw,
                surface_height as int,
                px as int,
                py as int,
            );
            let ghost g = rect_partial(
                x as int,
                y as int,
                width as int,
                height as int,
                border_width as int,
                border_color,
                fill,
                fill_color,
                sw,
                surface_height as int,
                px as int,
                py + 1,
            );
            let ghost here = rect_color(
                x as int,
                y as int,
                width as int,
                height as int,
                border_width as int,
                border_color,
                fill,
                fill_color,
                sw,
                surface_height as int,
                px as int,
                py as int,
            );
            assert(in_rect_clip(px as int, py as int, x as int, y as int, width as int, height as int, border_width as int, surface_width as int, surface_height as int));
            assert(in_border == in_rect_border(px as int, py as int, x as int, y as int, width as int, height as int, border_width as int));

            if in_border && border_width > 0 {
                let c = border_color.expect("Expected valid border color but got None!");
                write_pixel(frame, px, py, surface_width, surface_height, c);
                proof {
                    assert forall|a: int, b: int| #[trigger] g(a, b) == (if a == px && b == py {
                        Some(c)
                    } else {
                        f(a, b)
                    }) by {}
                    lemma_extend_painting(old_frame, sw, f, px as int, py as int, c, g);
                }
            } else if fill && !in_border {
                write_pixel(frame, px, py, surface_width, surface_height, fill_color);
                proof {
                    assert forall|a: int, b: int| #[trigger] g(a, b) == (if a == px && b == py {
                        Some(fill_color)
                    } else {
                        f(a, b)
                    }) by {}
                    lemma_extend_painting(old_frame, sw, f, px as int, py as int, fill_color, g);
                }
            } else {
                proof {
                    assert(here is None);
                    assert forall|a: int, b: int| #[trigger] f(a, b) == g(a, b) by {}
                    lemma_same_painter(old_frame, sw, f, g);
                }
            }
            py = py + 1;
        }
        proof {
            let f = rect_partial(
                x as int,
                y as int,
                width as int,
                height as int,
                border_width as int,
                border_color,
                fill,
                fill_color,
                sw,
                surface_height as int,
                px as int,
                py as int,
            );
            let g = rect_partial(
                x as int,
                y as int,
                width as int,
                height as int,
                border_width as int,
                border_color,
                fill,
                fill_color,
                sw,
                surface_height as int,
                px + 1,
                draw_y0 as int,
            );
            assert forall|a: int, b: int| #[trigger] f(a, b) == g(a, b) by {}
            lemma_same_painter(old_frame, sw, f, g);
        }
        px = px + 1;
    }
    proof {
        let f = rect_partial(
            x as int,
            y as int,
            width as int,
            height as int,
            border_width as int,
            border_color,
            fill,
            fill_color,
            sw,
            surface_height as int,
            px as int,
            draw_y0 as int,
        );
        assert forall|a: int, b: int| #[trigger] f(a, b) == full(a, b) by {}
        lemma_same_painter(old_frame, sw, f, full);
    }
}

/// The whole border band is drawn in the border colour: with a border wider
/// than zero, every pixel of the surface that lies in the rectangle grown by
/// the border but not in the rectangle itself reads back as the border
/// colour.
pub proof fn lemma_rect_border_band(
    old: Seq<u8>,
    x: int,
    y: int,
    w: int,
    h: int,
    bw: int,
    c: Rgba,
    fill: bool,
    fill_color: Rgba,
    sw: int,
    sh: int,
    a: int,
    b: int,
    ch: int,
)
    requires
        bw > 0,
        0 <= a < sw,
        0 <= b < sh,
        x - bw <= a < x + w + bw,
        y - bw <= b < y + h + bw,
        !(x <= a < x + w && y <= b < y + h),
        0 <= ch < 4,
        byte_offset(a, b, sw) + 4 <= old.len(),
    ensures
        painted(old, sw, rect_painter(x, y, w, h, bw, Some(c), fill, fill_color, sw, sh))[byte_offset(a, b, sw) + ch]
            == channel(c, ch),
{
    lemma_read_back(old, sw, rect_painter(x, y, w, h, bw, Some(c), fill, fill_color, sw, sh), a, b, ch);
}

/// The fill colour goes exactly to the pixels of the rectangle itself that
/// lie on the surface: each of them reads back as the fill colour when
/// filling (with a border that is not negative); a pixel outside the
/// rectangle is only ever given the border colour; and without fill, a pixel
/// outside the grown rectangle keeps its bytes.
pub proof fn lemma_rect_fill(
    old: Seq<u8>,
    x: int,
    y: int,
    w: int,
    h: int,
    bw: int,
    border_color: Option<Rgba>,
    fill: bool,
    fill_color: Rgba,
    sw: int,
    sh: int,
    a: int,
    b: int,
    ch: int,
)
    requires
        0 <= a < sw,
        0 <= b < sh,
        0 <= ch < 4,
        byte_offset(a, b, sw) + 4 <= old.len(),
    ensures
        fill && bw >= 0 && x <= a < x + w && y <= b < y + h ==> painted(
            old,
            sw,
            rect_painter(x, y, w, h, bw, border_color, fill, fill_color, sw, sh),
        )[byte_offset(a, b, sw) + ch] == channel(fill_color, ch),
        !(x <= a < x + w && y <= b < y + h) ==> match rect_color(x, y, w, h, bw, border_color, fill, fill_color, sw, sh, a, b) {
            Some(k) => bw > 0 && Some(k) == border_color,
            None => true,
        },
        !fill && !(bw > 0 && (x - bw <= a < x + w + bw) && (y - bw <= b < y + h + bw)) ==> painted(
            old,
            sw,
            rect_painter(x, y, w, h, bw, border_color, fill, fill_color, sw, sh),
        )[byte_offset(a, b, sw) + ch] == old[byte_offset(a, b, sw) + ch],
{
    lemma_read_back(old, sw, rect_painter(x, y, w, h, bw, border_color, fill, fill_color, sw, sh), a, b, ch);
}

/// The index, in a glyph bitmap `w` pixels wide, of its pixel `(dx, dy)`.
pub open spec fn glyph_index(dx: int, dy: int, w: int) -> int {
    dy * w + dx
}

/// The colour that a `w` by `h` alpha bitmap drawn in `rgb` at `(x, y)` gives
/// pixel `(a, b)`: the bitmap's coverage becomes the alpha; pixels off the
/// surface and pixels of zero coverage are not drawn.
pub open spec fn glyph_color(
    glyph: Seq<u8>,
    rgb: (u8, u8, u8),
    x: int,
    y: int,
    w: int,
    h: int,
    sw: int,
    sh: int,
    a: int,
    b: int,
) -> Option<Rgba> {
    if x <= a < x + w && y <= b < y + h && on_surface(a, b, sw, sh) && glyph[glyph_index(a - x, b - y, w)] > 0 {
        Some((rgb.0, rgb.1, rgb.2, glyph[glyph_index(a - x, b - y, w)]))
    } else {
        None
    }
}

/// The painter of a glyph.
pub open spec fn glyph_painter(
    glyph: Seq<u8>,
    rgb: (u8, u8, u8),
    x: int,
    y: int,
    w: int,
    h: int,
    sw: int,
    sh: int,
) -> spec_fn(int, int) -> Option<Rgba> {
    |a: int, b: int| glyph_color(glyph, rgb, x, y, w, h, sw, sh, a, b)
}

/// The part of a glyph's painter that covers the bitmap rows above `row`,
/// and the first `col` pixels of row `row`.
spec fn glyph_partial(
    glyph: Seq<u8>,
    rgb: (u8, u8, u8),
    x: int,
    y: int,
    w: int,
    h: int,
    sw: int,
    sh: int,
    row: int,
    col: int,
) -> spec_fn(int, int) -> Option<Rgba> {
    |a: int, b: int|
        if b - y < row || (b - y == row && a - x < col) {
            glyph_color(glyph, rgb, x, y, w, h, sw, sh, a, b)
        } else {
            None
        }
}

/// Drawing a `w` by `h` bitmap of `glyph_len` bytes at `(x, y)` into a frame
/// of `len` bytes stays in bounds: the coordinates of its pixels fit in
/// `i32`, every pixel that lands on the surface has its coverage byte in the
/// bitmap, and every pixel that gets drawn lies in the frame.
pub open spec fn glyph_fits(
    len: int,
    glyph: Seq<u8>,
    rgb: (u8, u8, u8),
    x: int,
    y: int,
    w: int,
    h: int,
    sw: int,
    sh: int,
) -> bool {
    &&& 0 < w && 0 < h ==> x + w - 1 <= i32::MAX && y + h - 1 <= i32::MAX
    &&& forall|dx: int, dy: int|
        0 <= dx < w && 0 <= dy < h && on_surface(x + dx, y + dy, sw, sh) ==> #[trigger] glyph_index(dx, dy, w)
            < glyph.len() && glyph_index(dx, dy, w) <= i32::MAX
    &&& forall|a: int, b: int|
        #[trigger] glyph_color(glyph, rgb, x, y, w, h, sw, sh, a, b) is Some ==> pixel_in_frame(len, a, b, sw)
}

/// Draws a `width` by `height` alpha bitmap at `(x, y)` in colour `color`:
/// every pixel with nonzero coverage that lands on the surface takes the
/// colour, with the coverage as alpha; the rest of the frame is kept.
pub fn draw_glyph(
    frame: &mut [u8],
    glyph_data: &[u8],
    color: (u8, u8, u8),
    x: i32,
    y: i32,
    width: i32,
    height: i32,
    surface_width: i32,
    surface_height: i32,
)
    requires
        glyph_fits(
            old(frame)@.len() as int,
            glyph_data@,
            color,
            x as int,
            y as int,
            width as int,
            height as int,
            surface_width as int,
            surface_height as int,
        ),
    ensures
        final(frame)@ == painted(
            old(frame)@,
            surface_width as int,
            glyph_painter(
                glyph_data@,
                color,
                x as int,
                y as int,
                width as int,
                height as int,
                surface_width as int,
                surface_height as int,
            ),
        ),
{
    let ghost old_frame = frame@;
    let ghost sw = surface_width as int;
    let ghost sh = surface_height as int;
    let ghost glyph = glyph_data@;
    let ghost full = glyph_painter(glyph, color, x as int, y as int, width as int, height as int, sw, sh);
    if width <= 0 || height <= 0 {
        proof {
            assert forall|a: int, b: int| #[trigger] full(a, b) is None by {}
            lemma_paint_nothing(old_frame, sw, full);
        }
        return;
    }
    proof {
        let f = glyph_partial(glyph, color, x as int, y as int, width as int, height as int, sw, sh, 0, 0);
        assert forall|a: int, b: int| #[trigger] f(a, b) is None by {}
        lemma_paint_nothing(old_frame, sw, f);
    }
    let mut draw_y: i32 = 0;
    while draw_y < height
        invariant
            0 < width,
            0 <= draw_y <= height,
            sw == surface_width,
            sh == surface_height,
            glyph == glyph_data@,
            glyph_fits(old_frame.len() as int, glyph, color, x as int, y as int, width as int, height as int, sw, sh),
            frame@.len() == old_frame.len(),
            frame@ == painted(old_frame, sw, glyph_partial(glyph, color, x as int, y as int, width as int, height as int, sw, sh, draw_y as int, 0)),
        decreases height - draw_y,
    {
        let mut draw_x: i32 = 0;
        while draw_x < width
            invariant
                0 < width,
                0 <= draw_y < height,
                0 <= draw_x <= width,
                sw == surface_width,
                sh == surface_height,
                glyph == glyph_data@,
                glyph_fits(old_frame.len() as int, glyph, color, x as int, y as int, width as int, height as int, sw, sh),
                frame@.len() == old_frame.len(),
                frame@ == painted(
                    old_frame,
                    sw,
                    glyph_partial(glyph, color, x as int, y as int, width as int, height as int, sw, sh, draw_y as int, draw_x as int),
                ),
            decreases width - draw_x,
        {
            // compute destination coords.
            let dst_x = x + draw_x;
            let dst_y = y + draw_y;
            let ghost f = glyph_partial(glyph, color, x as int, y as int, width as int, height as int, sw, sh, draw_y as int, draw_x as int);
            let ghost g = glyph_partial(glyph, color, x as int, y as int, width as int, height as int, sw, sh, draw_y as int, draw_x + 1);

            // skip pixels outside framebuffer
            if dst_x < 0 || dst_y < 0 || dst_x >= surface_width || dst_y >= surface_height {
                proof {
                    assert forall|a: int, b: int| #[trigger] f(a, b) == g(a, b) by {}
                    lemma_same_painter(old_frame, sw, f, g);
                }
            } else {
                // get alpha from glyph pixel
                proof {
                    assert(glyph_index(draw_x as int, draw_y as int, width as int) < glyph.len());
                    assert(0 <= draw_y * width) by (nonlinear_arith)
                        requires
                            0 <= draw_y,
                            0 < width,
                    ;
                }
                let glyph_index = (draw_y * width + draw_x) as usize;
                let alpha = glyph_data[glyph_index];
                if alpha > 0 {
                    let rgba = (color.0, color.1, color.2, alpha);
                    proof {
                        assert(glyph_color(glyph, color, x as int, y as int, width as int, height as int, sw, sh, dst_x as int, dst_y as int) == Some(rgba));
                    }
                    write_pixel(frame, dst_x, dst_y, surface_width, surface_height, rgba);
                    proof {
                        assert forall|a: int, b: int| #[trigger] g(a, b) == (if a == dst_x && b == dst_y {
                            Some(rgba)
                        } else {
                            f(a, b)
                        }) by {}
                        lemma_extend_painting(old_frame, sw, f, dst_x as int, dst_y as int, rgba, g);
                    }
                } else {
                    proof {
                        assert forall|a: int, b: int| #[trigger] f(a, b) == g(a, b) by {}
                        lemma_same_painter(old_frame, sw, f, g);
                    }
                }
            }
            draw_x = draw_x + 1;
        }
        proof {
            let f = glyph_partial(glyph, color, x as int, y as int, width as int, height as int, sw, sh, draw_y as int, width as int);
            let g = glyph_partial(glyph, color, x as int, y as int, width as int, height as int, sw, sh, draw_y + 1, 0);
            assert forall|a: int, b: int| #[trigger] f(a, b) == g(a, b) by {}
            lemma_same_painter(old_frame, sw, f, g);
        }
        draw_y = draw_y + 1;
    }
    proof {
        let f = glyph_partial(glyph, color, x as int, y as int, width as int, height as int, sw, sh, height as int, 0);
        assert forall|a: int, b: int| #[trigger] f(a, b) == full(a, b) by {}
        lemma_same_painter(old_frame, sw, f, full);
    }
}

/// The frame after the first `n` glyphs of `glyphs`, each `gw` by `gh`, have
/// been drawn side by side along row `y`, the `i`-th starting at column
/// `x + i * gw`.
pub open spec fn glyphs_painted(
    old: Seq<u8>,
    glyphs: Seq<Seq<u8>>,
    n: int,
    gw: int,
    gh: int,
    rgb: (u8, u8, u8),
    x: int,
    y: int,
    sw: int,
    sh: int,
) -> Seq<u8>
    decreases n,
{
    if n <= 0 {
        old
    } else {
        painted(
            glyphs_painted(old, glyphs, n - 1, gw, gh, rgb, x, y, sw, sh),
            sw,
            glyph_painter(glyphs[n - 1], rgb, x + (n - 1) * gw, y, gw, gh, sw, sh),
        )
    }
}

/// Drawing glyph `i` of a run keeps the frame length.
proof fn lemma_glyphs_painted_len(
    old: Seq<u8>,
    glyphs: Seq<Seq<u8>>,
    n: int,
    gw: int,
    gh: int,
    rgb: (u8, u8, u8),
    x: int,
    y: int,
    sw: int,
    sh: int,
)
    ensures
        glyphs_painted(old, glyphs, n, gw, gh, rgb, x, y, sw, sh).len() == old.len(),
    decreases n,
{
    if n > 0 {
        lemma_glyphs_painted_len(old, glyphs, n - 1, gw, gh, rgb, x, y, sw, sh);
    }
}

/// Glyph `i` of a run starts at a column that fits in `i32`, and drawing it
/// stays in bounds.
pub open spec fn run_glyph_fits(
    len: int,
    glyph: Seq<u8>,
    i: int,
    gw: int,
    gh: int,
    rgb: (u8, u8, u8),
    x: int,
    y: int,
    sw: int,
    sh: int,
) -> bool {
    &&& i32::MIN <= i * gw <= i32::MAX
    &&& i32::MIN <= x + i * gw <= i32::MAX
    &&& glyph_fits(len, glyph, rgb, x + i * gw, y, gw, gh, sw, sh)
}

/// Draws a run of `glyph_width` by `glyph_height` alpha bitmaps side by side
/// in colour `color`, the `i`-th with its top left corner at
/// `(x + i * glyph_width, y)`, later glyphs over earlier ones.
pub fn draw_glyphs(
    frame: &mut [u8],
    glyphs: &Vec<Vec<u8>>,
    glyph_width: i32,
    glyph_height: i32,
    color: (u8, u8, u8),
    x: i32,
    y: i32,
    surface_width: i32,
    surface_height: i32,
)
    requires
        glyphs@.len() <= i32::MAX,
        forall|j: int| 0 <= j < glyphs@.len() ==> #[trigger] run_glyph_fits(old(frame)@.len() as int, glyphs@[j]@, j, glyph_width as int, glyph_height as int, color, x as int, y as int, surface_width as int, surface_height as int),
    ensures
        final(frame)@ == glyphs_painted(
            old(frame)@,
            glyphs.deep_view(),
            glyphs@.len() as int,
            glyph_width as int,
            glyph_height as int,
            color,
            x as int,
            y as int,
            surface_width as int,
            surface_height as int,
        ),
{
    let ghost old_frame = frame@;
    let ghost runs = glyphs.deep_view();
    let n = glyphs.len();
    let mut i: usize = 0;
    while i < n
        invariant
            n == glyphs@.len(),
            n <= i32::MAX,
            i <= n,
            runs == glyphs.deep_view(),
            forall|j: int| 0 <= j < glyphs@.len() ==> #[trigger] run_glyph_fits(old_frame.len() as int, glyphs@[j]@, j, glyph_width as int, glyph_height as int, color, x as int, y as int, surface_width as int, surface_height as int),
            frame@ == glyphs_painted(
                old_frame,
                runs,
                i as int,
                glyph_width as int,
                glyph_height as int,
                color,
                x as int,
                y as int,
                surface_width as int,
                surface_height as int,
            ),
        decreases n - i,
    {
        proof {
            lemma_glyphs_painted_len(
                old_frame,
                runs,
                i as int,
                glyph_width as int,
                glyph_height as int,
                color,
                x as int,
                y as int,
                surface_width as int,
                surface_height as int,
            );
            assert(runs[i as int] == glyphs@[i as int]@);
            assert(run_glyph_fits(old_frame.len() as int, glyphs@[i as int]@, i as int, glyph_width as int, glyph_height as int, color, x as int, y as int, surface_width as int, surface_height as int));
        }
        // calculate x based on the glyph's index
        let px = x + (i as i32 * glyph_width);
        draw_glyph(frame, glyphs[i].as_slice(), color, px, y, glyph_width, glyph_height, surface_width, surface_height);
        i = i + 1;
    }
}

} // verus!
