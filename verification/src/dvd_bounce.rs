//! The motion of a GPU-drawn bouncing image: where it is, how it bounces off
//! the edges of the surface, and which tint it shows after each bounce.
use vstd::prelude::*;
use crate::canvas::Rgba;
use crate::dvd::{fits_i32, sped_up, slowed_down};
use crate::utils::get_random_position;

verus! {

/// The tints that the bouncing image cycles through.
#[derive(Copy, Clone, Debug, PartialEq, Eq, Structural)]
pub enum Color {
    Red,
    Green,
    Blue,
    Yellow,
    Cyan,
    Purple,
    White,
}

/// The position of a tint in its cycle.
pub open spec fn tint_index(c: Color) -> int {
    match c {
        Color::Red => 0,
        Color::Green => 1,
        Color::Blue => 2,
        Color::Yellow => 3,
        Color::Cyan => 4,
        Color::Purple => 5,
        Color::White => 6,
    }
}

/// The tint at position `i` of the cycle (White past the end).
pub open spec fn tint_at(i: int) -> Color {
    if i == 0 {
        Color::Red
    } else if i == 1 {
        Color::Green
    } else if i == 2 {
        Color::Blue
    } else if i == 3 {
        Color::Yellow
    } else if i == 4 {
        Color::Cyan
    } else if i == 5 {
        Color::Purple
    } else {
        Color::White
    }
}

/// The tint that follows `c`.
pub open spec fn next_tint(c: Color) -> Color {
    tint_at((tint_index(c) + 1) % 7)
}

/// The opaque RGBA value of a tint.
pub open spec fn tint_rgba(c: Color) -> Rgba {
    match c {
        Color::Red => (255, 0, 0, 255),
        Color::Green => (0, 255, 0, 255),
        Color::Blue => (0, 0, 255, 255),
        Color::Yellow => (255, 255, 0, 255),
        Color::Cyan => (0, 255, 255, 255),
        Color::Purple => (255, 0, 255, 255),
        Color::White => (255, 255, 255, 255),
    }
}

impl Color {
    /// The tint a new animation starts with: always Purple.
    fn random() -> (c: Color)
        ensures
            c == Color::Purple,
    {
        Color::Purple
    }

    /// The opaque RGBA value of the tint.
    pub fn rgba(self) -> (rgba: Rgba)
        ensures
            rgba == tint_rgba(self),
    {
        match self {
            Color::Red => (255, 0, 0, 255),
            Color::Green => (0, 255, 0, 255),
            Color::Blue => (0, 0, 255, 255),
            Color::Yellow => (255, 255, 0, 255),
            Color::Cyan => (0, 255, 255, 255),
            Color::Purple => (255, 0, 255, 255),
            Color::White => (255, 255, 255, 255),
        }
    }

    /// The next tint of the cycle; White is followed by Red.
    pub fn next(self) -> (c: Color)
        ensures
            c == next_tint(self),
    {
        match self {
            Color::Red => Color::Green,
            Color::Green => Color::Blue,
            Color::Blue => Color::Yellow,
            Color::Yellow => Color::Cyan,
            Color::Cyan => Color::Purple,
            Color::Purple => Color::White,
            Color::White => Color::Red,
        }
    }
}

/// `c` advanced `n` steps along the tint cycle.
pub open spec fn advance_tint(c: Color, n: nat) -> Color
    decreases n,
{
    if n == 0 {
        c
    } else {
        next_tint(advance_tint(c, (n - 1) as nat))
    }
}

/// The tint cycle has period seven: seven steps give back the starting tint,
/// fewer steps never do.
pub proof fn lemma_tint_cycle_period(c: Color, n: nat)
    requires
        0 < n <= 7,
    ensures
        (advance_tint(c, n) == c) <==> (n == 7),
{
    lemma_advance_tint_index(c, n);
}

/// Advancing a tint `n` steps lands `n` places further round the cycle.
pub proof fn lemma_advance_tint_index(c: Color, n: nat)
    ensures
        advance_tint(c, n) == tint_at((tint_index(c) + n) % 7),
    decreases n,
{
    if n > 0 {
        lemma_advance_tint_index(c, (n - 1) as nat);
    }
}

/// The motion state of the bouncing image: top left corner, velocity in
/// pixels per frame, image size, current tint, and surface size.
pub struct DvdBounceAnimation {
    pub x: i32,
    pub y: i32,
    pub speed_x: i32,
    pub speed_y: i32,
    pub image_width: i32,
    pub image_height: i32,
    pub color: Color,
    pub surface_width: i32,
    pub surface_height: i32,
}

/// Horizontal collision handling: an image past the right edge is put back
/// against it and turned round; then an image at or past the left edge is
/// put back against it and turned round. Gives the new position, the new
/// velocity, and whether it bounced.
pub open spec fn collide_x(x: int, speed_x: int, w: int, sw: int) -> (int, int, bool) {
    let (x1, s1, b1) = if x + w >= sw {
        (sw - w, -speed_x, true)
    } else {
        (x, speed_x, false)
    };
    if x1 <= 0 {
        (0, -s1, true)
    } else {
        (x1, s1, b1)
    }
}

/// Vertical collision handling: an image whose next step would reach the
/// bottom edge is put against it and turned round; then an image whose next
/// step would reach the top edge is put against it and turned round.
pub open spec fn collide_y(y: int, speed_y: int, h: int, sh: int) -> (int, int, bool) {
    let (y1, s1, b1) = if y + h + speed_y >= sh {
        (sh - h, -speed_y, true)
    } else {
        (y, speed_y, false)
    };
    if y1 + s1 <= 0 {
        (0, -s1, true)
    } else {
        (y1, s1, b1)
    }
}

/// The collision tests and corrections can be computed in `i32`.
pub open spec fn collision_ok(s: DvdBounceAnimation) -> bool {
    let (x1, sx1, b1) = if s.x + s.image_width >= s.surface_width {
        (s.surface_width - s.image_width, -s.speed_x, true)
    } else {
        (s.x as int, s.speed_x as int, false)
    };
    let (y1, sy1, c1) = if s.y + s.image_height + s.speed_y >= s.surface_height {
        (s.surface_height - s.image_height, -s.speed_y, true)
    } else {
        (s.y as int, s.speed_y as int, false)
    };
    &&& fits_i32(s.x + s.image_width)
    &&& fits_i32(x1) && fits_i32(sx1)
    &&& (x1 <= 0 ==> fits_i32(-sx1))
    &&& fits_i32(s.y + s.image_height)
    &&& fits_i32(s.y + s.image_height + s.speed_y)
    &&& fits_i32(y1) && fits_i32(sy1)
    &&& fits_i32(y1 + sy1)
    &&& (y1 + sy1 <= 0 ==> fits_i32(-sy1))
}

/// A frame's move and collision handling can be computed in `i32`.
pub open spec fn update_ok(s: DvdBounceAnimation) -> bool {
    &&& fits_i32(s.x + s.speed_x)
    &&& fits_i32(s.y + s.speed_y)
    &&& collision_ok(DvdBounceAnimation { x: (s.x + s.speed_x) as i32, y: (s.y + s.speed_y) as i32, ..s })
}

/// `t` is `s` after collision handling; `bounced` tells whether any edge was
/// hit.
pub open spec fn collided(s: DvdBounceAnimation, t: DvdBounceAnimation, bounced: bool) -> bool {
    let (x, sx, bx) = collide_x(s.x as int, s.speed_x as int, s.image_width as int, s.surface_width as int);
    let (y, sy, by) = collide_y(s.y as int, s.speed_y as int, s.image_height as int, s.surface_height as int);
    &&& t.x == x && t.speed_x == sx
    &&& t.y == y && t.speed_y == sy
    &&& bounced == (bx || by)
    &&& t.image_width == s.image_width && t.image_height == s.image_height
    &&& t.surface_width == s.surface_width && t.surface_height == s.surface_height
    &&& t.color == s.color
}

impl DvdBounceAnimation {
    /// A new animation of an `image_width` by `image_height` image on a
    /// `surface_width` by `surface_height` surface: at a random position
    /// where the whole image fits, moving down and right one pixel per frame,
    /// tinted Purple. The image must be smaller than the surface along both
    /// axes, and no size may be negative.
    pub fn new(image_width: i32, image_height: i32, surface_width: i32, surface_height: i32) -> (s: Self)
        requires
            image_width < surface_width,
            image_height < surface_height,
            0 <= image_width,
            0 <= image_height,
        ensures
            0 <= s.x < surface_width - image_width,
            0 <= s.y < surface_height - image_height,
            s.speed_x == 1,
            s.speed_y == 1,
            s.image_width == image_width,
            s.image_height == image_height,
            s.surface_width == surface_width,
            s.surface_height == surface_height,
            s.color == Color::Purple,
    {
        let (x, y) = get_random_position((surface_width - image_width) as u32, (surface_height - image_height) as u32);
        let color = Color::random();
        DvdBounceAnimation {
            x: x as i32,
            y: y as i32,
            speed_x: 1,
            speed_y: 1,
            image_width,
            image_height,
            color,
            surface_width,
            surface_height,
        }
    }

    /// The tint the image shows when the animation starts.
    pub fn initial_tint(&self) -> (rgba: Rgba)
        ensures
            rgba == tint_rgba(self.color),
    {
        self.color.rgba()
    }

    /// Fixes an overshoot past the edges and turns the image round; tells
    /// whether it bounced.
    fn handle_collision(&mut self) -> (bounced: bool)
        requires
            collision_ok(*old(self)),
        ensures
            collided(*old(self), *final(self), bounced),
    {
        let mut bounced = false;

        // right
        if self.x + self.image_width >= self.surface_width {
            self.x = self.surface_width - self.image_width;
            self.speed_x = -self.speed_x;
            bounced = true;
        }
        // left
        if self.x <= 0 {
            self.x = 0;
            self.speed_x = -self.speed_x;
            bounced = true;
        }
        // bottom wall
        if (self.y + self.image_height + self.speed_y) >= self.surface_height {
            self.y = self.surface_height - self.image_height;
            self.speed_y = -self.speed_y;
            bounced = true;
        }
        // top wall
        if (self.y + self.speed_y) <= 0 {
            self.y = 0;
            self.speed_y = -self.speed_y;
            bounced = true;
        }
        bounced
    }

    /// One frame of motion: move by the velocity, then handle collisions. On
    /// a bounce the tint advances one step and the tint to show is returned:
    /// the one after the new tint. Without a bounce nothing is to change.
    pub fn update_position(&mut self) -> (tint: Option<Rgba>)
        requires
            update_ok(*old(self)),
        ensures
            ({
                let s = *old(self);
                let moved = DvdBounceAnimation { x: (s.x + s.speed_x) as i32, y: (s.y + s.speed_y) as i32, ..s };
                let bounced = collide_x(moved.x as int, moved.speed_x as int, moved.image_width as int, moved.surface_width as int).2
                    || collide_y(moved.y as int, moved.speed_y as int, moved.image_height as int, moved.surface_height as int).2;
                &&& collided(moved, DvdBounceAnimation { color: s.color, ..*final(self) }, bounced)
                &&& final(self).color == if bounced {
                    next_tint(s.color)
                } else {
                    s.color
                }
                &&& tint == if bounced {
                    Some(tint_rgba(next_tint(next_tint(s.color))))
                } else {
                    None::<Rgba>
                }
            }),
    {
        // move
        self.x += self.speed_x;
        self.y += self.speed_y;

        // fix overshoot and bounce
        let bounced = self.handle_collision();
        if bounced {
            self.color = self.color.next();
            Some(self.color.next().rgba())
        } else {
            None
        }
    }

    /// Makes the image faster by `amount` along both axes, keeping its
    /// direction.
    pub fn increase_speed_by(&mut self, amount: i32)
        requires
            fits_i32(sped_up(old(self).speed_x as int, amount as int)),
            fits_i32(sped_up(old(self).speed_y as int, amount as int)),
        ensures
            final(self).speed_x == sped_up(old(self).speed_x as int, amount as int),
            final(self).speed_y == sped_up(old(self).speed_y as int, amount as int),
            *final(self) == (DvdBounceAnimation { speed_x: final(self).speed_x, speed_y: final(self).speed_y, ..*old(self) }),
    {
        if self.speed_x >= 0 {
            self.speed_x += amount;
        } else {
            self.speed_x -= amount;
        }
        if self.speed_y >= 0 {
            self.speed_y += amount;
        } else {
            self.speed_y -= amount;
        }
    }

    /// Makes the image slower by `amount` along both axes.
    pub fn decrease_speed_by(&mut self, amount: i32)
        requires
            fits_i32(slowed_down(old(self).speed_x as int, amount as int)),
            fits_i32(slowed_down(old(self).speed_y as int, amount as int)),
        ensures
            final(self).speed_x == slowed_down(old(self).speed_x as int, amount as int),
            final(self).speed_y == slowed_down(old(self).speed_y as int, amount as int),
            *final(self) == (DvdBounceAnimation { speed_x: final(self).speed_x, speed_y: final(self).speed_y, ..*old(self) }),
    {
        if self.speed_x >= 0 {
            self.speed_x -= amount;
        } else {
            self.speed_x += amount;
        }
        if self.speed_y >= 0 {
            self.speed_y -= amount;
        } else {
            self.speed_y += amount;
        }
    }
}

/// A bounce off the bottom edge turns the image round: when the next step
/// would reach the bottom edge and the image, put against that edge, would
/// not then reach the top, it is placed against the bottom edge and its
/// vertical speed is reversed.
pub proof fn lemma_bottom_bounce(y: int, speed_y: int, h: int, sh: int)
    requires
        y + h + speed_y >= sh,
        sh - h - speed_y > 0,
    ensures
        collide_y(y, speed_y, h, sh) == (sh - h, -speed_y, true),
{
}

/// A bounce off the top edge turns the image round: when the next step
/// would reach the top edge (and not the bottom one), the image is placed
/// against the top edge and its vertical speed is reversed.
pub proof fn lemma_top_bounce(y: int, speed_y: int, h: int, sh: int)
    requires
        y + h + speed_y < sh,
        y + speed_y <= 0,
    ensures
        collide_y(y, speed_y, h, sh) == (0int, -speed_y, true),
{
}

/// Away from the top and bottom edges nothing changes vertically.
pub proof fn lemma_no_vertical_bounce(y: int, speed_y: int, h: int, sh: int)
    requires
        y + h + speed_y < sh,
        y + speed_y > 0,
    ensures
        collide_y(y, speed_y, h, sh) == (y, speed_y, false),
{
}

/// A bounce off the right edge turns the image round: an image that reaches
/// the right edge is put against it and its horizontal speed is reversed
/// (when the surface is wider than the image).
pub proof fn lemma_right_bounce(x: int, speed_x: int, w: int, sw: int)
    requires
        x + w >= sw,
        sw - w > 0,
    ensures
        collide_x(x, speed_x, w, sw) == (sw - w, -speed_x, true),
{
}

/// A bounce off the left edge turns the image round: an image at or past
/// the left edge (and clear of the right one) is put against it and its
/// horizontal speed is reversed.
pub proof fn lemma_left_bounce(x: int, speed_x: int, w: int, sw: int)
    requires
        x + w < sw,
        x <= 0,
    ensures
        collide_x(x, speed_x, w, sw) == (0int, -speed_x, true),
{
}

/// Away from the left and right edges nothing changes horizontally.
pub proof fn lemma_no_horizontal_bounce(x: int, speed_x: int, w: int, sw: int)
    requires
        x + w < sw,
        x > 0,
    ensures
        collide_x(x, speed_x, w, sw) == (x, speed_x, false),
{
}

/// After collision handling the image lies horizontally inside the surface:
/// its left edge is on the surface and its right edge does not pass the
/// surface's, for an image narrower than the surface.
pub proof fn lemma_collision_keeps_x_inside(x: int, speed_x: int, w: int, sw: int)
    requires
        0 <= w < sw,
    ensures
        0 <= collide_x(x, speed_x, w, sw).0 <= sw - w,
{
}

/// Collision handling never leaves the image above the top edge: its row is
/// never negative afterwards, for a surface taller than the image.
pub proof fn lemma_collision_keeps_y_below_top(y: int, speed_y: int, h: int, sh: int)
    requires
        0 <= h < sh,
        0 <= y,
    ensures
        0 <= collide_y(y, speed_y, h, sh).0,
{
}

} // verus!
