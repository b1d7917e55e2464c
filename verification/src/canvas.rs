//! The mathematical model of an RGBA frame buffer.
//!
//! A frame is a sequence of bytes; pixel `(x, y)` of a surface that is
//! `surface_width` pixels wide occupies the four bytes that start at
//! `(y * surface_width + x) * 4`, in the order red, green, blue, alpha.
use vstd::prelude::*;
use vstd::arithmetic::div_mod::{lemma_fundamental_div_mod, lemma_fundamental_div_mod_converse};

verus! {

/// An RGBA colour.
pub type Rgba = (u8, u8, u8, u8);

/// The first byte of pixel `(x, y)` on a surface `sw` pixels wide.
pub open spec fn byte_offset(x: int, y: int, sw: int) -> int {
    (y * sw + x) * 4
}

/// The column of the pixel that byte `k` belongs to.
pub open spec fn pixel_x(k: int, sw: int) -> int {
    (k / 4) % sw
}

/// The row of the pixel that byte `k` belongs to.
pub open spec fn pixel_y(k: int, sw: int) -> int {
    (k / 4) / sw
}

/// Channel `c` (0 red, 1 green, 2 blue, 3 alpha) of a colour.
pub open spec fn channel(rgba: Rgba, c: int) -> u8 {
    if c == 0 {
        rgba.0
    } else if c == 1 {
        rgba.1
    } else if c == 2 {
        rgba.2
    } else {
        rgba.3
    }
}

/// The frame `old` after every pixel for which `f` gives a colour has been
/// set to that colour; the other bytes keep their value.
pub open spec fn painted(old: Seq<u8>, sw: int, f: spec_fn(int, int) -> Option<Rgba>) -> Seq<u8> {
    Seq::new(
        old.len(),
        |k: int|
            match f(pixel_x(k, sw), pixel_y(k, sw)) {
                Some(c) => channel(c, k % 4),
                None => old[k],
            },
    )
}

/// The painter that colours the single pixel `(x, y)`.
pub open spec fn single(x: int, y: int, rgba: Rgba) -> spec_fn(int, int) -> Option<Rgba> {
    |a: int, b: int| if a == x && b == y { Some(rgba) } else { None }
}

/// The painter that colours what `g` colours and, elsewhere, what `f` colours.
pub open spec fn overlay(
    f: spec_fn(int, int) -> Option<Rgba>,
    g: spec_fn(int, int) -> Option<Rgba>,
) -> spec_fn(int, int) -> Option<Rgba> {
    |a: int, b: int|
        match g(a, b) {
            Some(c) => Some(c),
            None => f(a, b),
        }
}

/// Byte `byte_offset(x, y, sw) + c` belongs to pixel `(x, y)`, channel `c`.
pub proof fn lemma_locate(x: int, y: int, sw: int, c: int)
    requires
        0 <= x < sw,
        0 <= y,
        0 <= c < 4,
    ensures
        pixel_x(byte_offset(x, y, sw) + c, sw) == x,
        pixel_y(byte_offset(x, y, sw) + c, sw) == y,
        (byte_offset(x, y, sw) + c) % 4 == c,
{
    let k = byte_offset(x, y, sw) + c;
    let p = y * sw + x;
    lemma_fundamental_div_mod_converse(k, 4, p, c);
    lemma_fundamental_div_mod_converse(p, sw, y, x);
}

/// Every byte lies in the block of the pixel that `pixel_x` and `pixel_y` name.
pub proof fn lemma_unlocate(k: int, sw: int)
    requires
        0 <= k,
        0 < sw,
    ensures
        k == byte_offset(pixel_x(k, sw), pixel_y(k, sw), sw) + k % 4,
        0 <= pixel_x(k, sw) < sw,
        0 <= pixel_y(k, sw),
        0 <= k % 4 < 4,
{
    lemma_fundamental_div_mod(k, 4);
    lemma_fundamental_div_mod(k / 4, sw);
    assert(k / 4 == sw * pixel_y(k, sw) + pixel_x(k, sw));
    assert(sw * pixel_y(k, sw) == pixel_y(k, sw) * sw) by (nonlinear_arith);
    assert(0 <= pixel_y(k, sw)) by (nonlinear_arith)
        requires
            k / 4 >= 0,
            0 < sw,
            pixel_y(k, sw) == (k / 4) / sw,
    ;
}

/// Painting a frame is painting it with the overlay of the two painters.
pub proof fn lemma_painted_twice(
    old: Seq<u8>,
    sw: int,
    f: spec_fn(int, int) -> Option<Rgba>,
    g: spec_fn(int, int) -> Option<Rgba>,
)
    ensures
        painted(painted(old, sw, f), sw, g) == painted(old, sw, overlay(f, g)),
{
    assert(painted(painted(old, sw, f), sw, g) =~= painted(old, sw, overlay(f, g)));
}

/// Writing the four bytes of pixel `(x, y)` paints that single pixel.
pub proof fn lemma_write_pixel(old: Seq<u8>, sw: int, x: int, y: int, rgba: Rgba)
    requires
        0 <= x < sw,
        0 <= y,
        byte_offset(x, y, sw) + 4 <= old.len(),
    ensures
        ({
            let o = byte_offset(x, y, sw);
            old.update(o, rgba.0).update(o + 1, rgba.1).update(o + 2, rgba.2).update(o + 3, rgba.3)
        }) == painted(old, sw, single(x, y, rgba)),
{
    let o = byte_offset(x, y, sw);
    let lhs = old.update(o, rgba.0).update(o + 1, rgba.1).update(o + 2, rgba.2).update(o + 3, rgba.3);
    let rhs = painted(old, sw, single(x, y, rgba));
    assert forall|k: int| 0 <= k < old.len() implies lhs[k] == rhs[k] by {
        lemma_unlocate(k, sw);
        if o <= k < o + 4 {
            lemma_locate(x, y, sw, k - o);
        } else {
            if pixel_x(k, sw) == x && pixel_y(k, sw) == y {
                assert(false);
            }
        }
    }
    assert(lhs =~= rhs);
}

/// Two painters that agree on every pixel paint the same frame.
pub proof fn lemma_same_painter(
    old: Seq<u8>,
    sw: int,
    f: spec_fn(int, int) -> Option<Rgba>,
    g: spec_fn(int, int) -> Option<Rgba>,
)
    requires
        forall|a: int, b: int| #[trigger] f(a, b) == g(a, b),
    ensures
        painted(old, sw, f) == painted(old, sw, g),
{
    assert(painted(old, sw, f) =~= painted(old, sw, g)) by {
        assert forall|k: int| 0 <= k < old.len() implies painted(old, sw, f)[k] == painted(
            old,
            sw,
            g,
        )[k] by {
            assert(f(pixel_x(k, sw), pixel_y(k, sw)) == g(pixel_x(k, sw), pixel_y(k, sw)));
        }
    }
}

/// A painter that colours nothing leaves the frame as it was.
pub proof fn lemma_paint_nothing(old: Seq<u8>, sw: int, f: spec_fn(int, int) -> Option<Rgba>)
    requires
        forall|a: int, b: int| #[trigger] f(a, b) is None,
    ensures
        painted(old, sw, f) == old,
{
    assert(painted(old, sw, f) =~= old) by {
        assert forall|k: int| 0 <= k < old.len() implies painted(old, sw, f)[k] == old[k] by {
            assert(f(pixel_x(k, sw), pixel_y(k, sw)) is None);
        }
    }
}

/// Painting one more pixel on top of a painting is painting with the
/// painter that adds that pixel.
pub proof fn lemma_extend_painting(
    old: Seq<u8>,
    sw: int,
    f: spec_fn(int, int) -> Option<Rgba>,
    x: int,
    y: int,
    rgba: Rgba,
    g: spec_fn(int, int) -> Option<Rgba>,
)
    requires
        forall|a: int, b: int|
            #[trigger] g(a, b) == (if a == x && b == y {
                Some(rgba)
            } else {
                f(a, b)
            }),
    ensures
        painted(painted(old, sw, f), sw, single(x, y, rgba)) == painted(old, sw, g),
{
    lemma_painted_twice(old, sw, f, single(x, y, rgba));
    assert forall|a: int, b: int| #[trigger] overlay(f, single(x, y, rgba))(a, b) == g(a, b) by {
        assert(g(a, b) == (if a == x && b == y {
            Some(rgba)
        } else {
            f(a, b)
        }));
    }
    lemma_same_painter(old, sw, overlay(f, single(x, y, rgba)), g);
}

/// Reading back a painted pixel: each byte of a pixel that the painter
/// colours holds the matching channel of that colour, and a byte of a pixel
/// that it leaves alone keeps its old value.
pub proof fn lemma_read_back(
    old: Seq<u8>,
    sw: int,
    f: spec_fn(int, int) -> Option<Rgba>,
    x: int,
    y: int,
    c: int,
)
    requires
        0 <= x < sw,
        0 <= y,
        0 <= c < 4,
        byte_offset(x, y, sw) + 4 <= old.len(),
    ensures
        painted(old, sw, f)[byte_offset(x, y, sw) + c] == match f(x, y) {
            Some(rgba) => channel(rgba, c),
            None => old[byte_offset(x, y, sw) + c],
        },
{
    lemma_locate(x, y, sw, c);
}

} // verus!
