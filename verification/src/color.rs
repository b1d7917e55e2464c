//! The named colours, their cycle, and colour effects on RGBA images.
use vstd::prelude::*;
use crate::canvas::{Rgba, channel};
use crate::utils::random_below;

verus! {

/// One of the seven named colours.
#[derive(Copy, Clone, Debug, PartialEq, Eq, Structural)]
pub enum Color {
    Red,
    Green,
    Blue,
    Yellow,
    Cyan,
    Purple,
    White,
}

/// The colour at position `i` of the cycle Red, Green, Blue, Yellow, Cyan,
/// Purple, White; every other index names White.
pub open spec fn color_at(i: int) -> Color {
    if i == 0 {
        Color::Red
    } else if i == 1 {
        Color::Green
    } else if i == 2 {
        Color::Blue
    } else if i == 3 {
        Color::Yellow
    } else if i == 4 {
        Color::Cyan
    } else if i == 5 {
        Color::Purple
    } else {
        Color::White
    }
}

/// The position of a colour in the cycle.
pub open spec fn color_index(c: Color) -> int {
    match c {
        Color::Red => 0,
        Color::Green => 1,
        Color::Blue => 2,
        Color::Yellow => 3,
        Color::Cyan => 4,
        Color::Purple => 5,
        Color::White => 6,
    }
}

/// The red, green and blue components of a colour.
pub open spec fn rgb_of(c: Color) -> (u8, u8, u8) {
    match c {
        Color::Red => (255, 0, 0),
        Color::Green => (0, 255, 0),
        Color::Blue => (0, 0, 255),
        Color::Yellow => (255, 255, 0),
        Color::Cyan => (0, 255, 255),
        Color::Purple => (255, 0, 255),
        Color::White => (255, 255, 255),
    }
}

/// The colour that follows `c` in the cycle.
pub open spec fn next_of(c: Color) -> Color {
    color_at((color_index(c) + 1) % 7)
}

/// `c` advanced `n` steps along the cycle.
pub open spec fn advance(c: Color, n: nat) -> Color
    decreases n,
{
    if n == 0 {
        c
    } else {
        next_of(advance(c, (n - 1) as nat))
    }
}

impl Color {
    /// The colour that a draw `index` selects: index `i < 7` names the
    /// `i`-th colour of the cycle, any other index names White.
    pub fn from_index(index: u32) -> (c: Color)
        ensures
            c == color_at(index as int),
    {
        match index {
            0 => Color::Red,
            1 => Color::Green,
            2 => Color::Blue,
            3 => Color::Yellow,
            4 => Color::Cyan,
            5 => Color::Purple,
            6 => Color::White,
            _ => Color::White,
        }
    }

    /// A colour drawn at random among the seven.
    pub fn random() -> (c: Color)
        ensures
            0 <= color_index(c) < 7,
    {
        let index = random_below(7);
        Color::from_index(index)
    }

    /// The red, green and blue components of the colour.
    pub fn to_rgb(self) -> (rgb: (u8, u8, u8))
        ensures
            rgb == rgb_of(self),
    {
        match self {
            Color::Red => (255, 0, 0),
            Color::Green => (0, 255, 0),
            Color::Blue => (0, 0, 255),
            Color::Yellow => (255, 255, 0),
            Color::Cyan => (0, 255, 255),
            Color::Purple => (255, 0, 255),
            Color::White => (255, 255, 255),
        }
    }

    /// The next colour of the cycle; White is followed by Red.
    pub fn next(self) -> (c: Color)
        ensures
            c == next_of(self),
    {
        match self {
            Color::Red => Color::Green,
            Color::Green => Color::Blue,
            Color::Blue => Color::Yellow,
            Color::Yellow => Color::Cyan,
            Color::Cyan => Color::Purple,
            Color::Purple => Color::White,
            Color::White => Color::Red,
        }
    }
}

/// Advancing a colour `n` steps lands on the colour `n` places further
/// round the cycle of seven.
pub proof fn lemma_advance_index(c: Color, n: nat)
    ensures
        advance(c, n) == color_at((color_index(c) + n) % 7),
    decreases n,
{
    if n > 0 {
        lemma_advance_index(c, (n - 1) as nat);
    }
}

/// The colour cycle has period seven: seven steps of `next` give back the
/// colour one started from, and fewer steps never do.
pub proof fn lemma_cycle_period(c: Color, n: nat)
    requires
        0 < n <= 7,
    ensures
        (advance(c, n) == c) <==> (n == 7),
{
    lemma_advance_index(c, n);
}

/// Every colour is the image of its position, so the seven positions name
/// seven different colours.
pub proof fn lemma_index_round_trip(c: Color)
    ensures
        color_at(color_index(c)) == c,
        0 <= color_index(c) < 7,
{
}

/// The length of one turn of the rainbow, in frames.
pub open spec fn rainbow_period() -> int {
    1536
}

/// The rainbow colour of frame `n`: the hue wheel red, yellow, green,
/// cyan, blue, magenta and back to red, one step of one unit per frame,
/// fully opaque.
pub open spec fn rainbow(n: int) -> Rgba {
    let h = n % 1536;
    let seg = h / 256;
    let v = (h % 256) as u8;
    let w = (255 - h % 256) as u8;
    if seg == 0 {
        (255u8, v, 0u8, 255u8)
    } else if seg == 1 {
        (w, 255u8, 0u8, 255u8)
    } else if seg == 2 {
        (0u8, 255u8, v, 255u8)
    } else if seg == 3 {
        (0u8, w, 255u8, 255u8)
    } else if seg == 4 {
        (v, 0u8, 255u8, 255u8)
    } else {
        (255u8, 0u8, w, 255u8)
    }
}

/// The colour of frame `frame_count` on the rainbow.
pub fn rainbow_rgba(frame_count: u32) -> (rgba: Rgba)
    ensures
        rgba == rainbow(frame_count as int),
{
    let h = frame_count % 1536;
    let seg = h / 256;
    let v = (h % 256) as u8;
    let w = (255 - h % 256) as u8;
    if seg == 0 {
        (255, v, 0, 255)
    } else if seg == 1 {
        (w, 255, 0, 255)
    } else if seg == 2 {
        (0, 255, v, 255)
    } else if seg == 3 {
        (0, w, 255, 255)
    } else if seg == 4 {
        (v, 0, 255, 255)
    } else {
        (255, 0, w, 255)
    }
}

/// `a` and `b` differ by at most one.
pub open spec fn close(a: u8, b: u8) -> bool {
    -1 <= a - b <= 1
}

/// The rainbow repeats itself every `rainbow_period()` frames.
pub proof fn lemma_rainbow_periodic(n: int)
    requires
        0 <= n,
    ensures
        rainbow(n + rainbow_period()) == rainbow(n),
{
    assert((n + 1536) % 1536 == n % 1536);
}

/// The rainbow changes smoothly: from one frame to the next no channel
/// moves by more than one unit, and alpha stays opaque.
pub proof fn lemma_rainbow_smooth(n: int)
    requires
        0 <= n,
    ensures
        close(rainbow(n + 1).0, rainbow(n).0),
        close(rainbow(n + 1).1, rainbow(n).1),
        close(rainbow(n + 1).2, rainbow(n).2),
        rainbow(n + 1).3 == 255,
        rainbow(n).3 == 255,
{
    let h = n % 1536;
    if h == 1535 {
        assert((n + 1) % 1536 == 0);
    } else {
        assert((n + 1) % 1536 == h + 1);
    }
}

/// The image `img` with the red, green and blue bytes of every complete
/// pixel set to `rgb`; alpha bytes and a trailing partial pixel are kept.
pub open spec fn colored(img: Seq<u8>, rgb: (u8, u8, u8)) -> Seq<u8> {
    Seq::new(
        img.len(),
        |k: int|
            if k % 4 < 3 && k - k % 4 + 4 <= img.len() {
                channel((rgb.0, rgb.1, rgb.2, 0u8), k % 4)
            } else {
                img[k]
            },
    )
}

/// Colours an RGBA image: every complete pixel takes the red, green and
/// blue of `rgb` and keeps its own alpha.
pub fn color_image(img_data: &mut [u8], rgb: (u8, u8, u8))
    ensures
        final(img_data)@ == colored(old(img_data)@, rgb),
{
    let len = img_data.len();
    let pixels = len / 4;
    let mut p: usize = 0;
    while p < pixels
        invariant
            len == old(img_data)@.len(),
            img_data@.len() == len,
            pixels == len / 4,
            p <= pixels,
            forall|k: int|
                0 <= k < len ==> #[trigger] img_data@[k] == if k < 4 * p && k % 4 < 3 {
                    channel((rgb.0, rgb.1, rgb.2, 0u8), k % 4)
                } else {
                    old(img_data)@[k]
                },
        decreases pixels - p,
    {
        let base = 4 * p;
        img_data[base] = rgb.0;
        img_data[base + 1] = rgb.1;
        img_data[base + 2] = rgb.2;
        p = p + 1;
    }
    assert(final(img_data)@ =~= colored(old(img_data)@, rgb)) by {
        assert forall|k: int| 0 <= k < len implies #[trigger] img_data@[k] == colored(old(img_data)@, rgb)[k] by {
            assert((k < 4 * pixels) == (k - k % 4 + 4 <= len));
        }
    }
}

/// Colouring twice is colouring with the second colour.
pub proof fn lemma_colored_twice(img: Seq<u8>, a: (u8, u8, u8), b: (u8, u8, u8))
    ensures
        colored(colored(img, a), b) == colored(img, b),
{
    assert(colored(colored(img, a), b) =~= colored(img, b));
}

} // verus!
