//! The classic bouncing logo drawn in software: its motion, its speed
//! controls, and one frame of the animation.
use vstd::prelude::*;
use crate::canvas::painted;
use crate::color::{colored, lemma_colored_twice, rainbow, rainbow_rgba, color_image};
use crate::draw::{clear_image, draw_image, image_fits, image_fits_frame, image_painter};
use crate::utils::get_random_position;

verus! {

/// State of the bouncing image: its position, its RGBA pixels and size, its
/// velocity in pixels per frame, and the size of the surface it bounces in.
pub struct DvdState {
    pub x: i32,
    pub y: i32,
    pub img_data: Vec<u8>,
    pub img_width: i32,
    pub img_height: i32,
    pub speed_x: i8,
    pub speed_y: i8,
    pub surface_width: i32,
    pub surface_height: i32,
}

/// `v` is a value of `i32`.
pub open spec fn fits_i32(v: int) -> bool {
    i32::MIN <= v <= i32::MAX
}

/// `v` is a value of `i8`.
pub open spec fn fits_i8(v: int) -> bool {
    i8::MIN <= v <= i8::MAX
}

/// The image would touch or cross the left or right edge with its next step.
pub open spec fn bounces_x(x: int, img_width: int, speed_x: int, surface_width: int) -> bool {
    x + img_width + speed_x >= surface_width || x + speed_x <= 0
}

/// The image would touch or cross the top or bottom edge with its next step.
pub open spec fn bounces_y(y: int, img_height: int, speed_y: int, surface_height: int) -> bool {
    y + img_height + speed_y >= surface_height || y + speed_y <= 0
}

/// The edge test of one axis can be computed in `i32` without overflow.
pub open spec fn edge_test_fits(pos: int, size: int, speed: int, bound: int) -> bool {
    &&& fits_i32(pos + size)
    &&& fits_i32(pos + size + speed)
    &&& (pos + size + speed >= bound || fits_i32(pos + speed))
}

/// The velocity along one axis after the edge test: reversed when the image
/// bounces.
pub open spec fn bounced_speed(pos: int, size: int, speed: int, bound: int) -> int {
    if pos + size + speed >= bound || pos + speed <= 0 {
        -speed
    } else {
        speed
    }
}

/// Reversing the velocity of a bouncing axis cannot overflow `i8`, and the
/// edge tests fit in `i32`.
pub open spec fn invert_ok(s: DvdState) -> bool {
    &&& edge_test_fits(s.x as int, s.img_width as int, s.speed_x as int, s.surface_width as int)
    &&& edge_test_fits(s.y as int, s.img_height as int, s.speed_y as int, s.surface_height as int)
    &&& fits_i8(bounced_speed(s.x as int, s.img_width as int, s.speed_x as int, s.surface_width as int))
    &&& fits_i8(bounced_speed(s.y as int, s.img_height as int, s.speed_y as int, s.surface_height as int))
}

/// The new horizontal velocity after a step.
pub open spec fn next_speed_x(s: DvdState) -> int {
    bounced_speed(s.x as int, s.img_width as int, s.speed_x as int, s.surface_width as int)
}

/// The new vertical velocity after a step.
pub open spec fn next_speed_y(s: DvdState) -> int {
    bounced_speed(s.y as int, s.img_height as int, s.speed_y as int, s.surface_height as int)
}

/// A step can be taken without overflow.
pub open spec fn step_ok(s: DvdState) -> bool {
    &&& invert_ok(s)
    &&& fits_i32(s.x + next_speed_x(s))
    &&& fits_i32(s.y + next_speed_y(s))
}

/// `t` is `s` with the velocity reversed along each axis on which the image
/// bounces.
pub open spec fn inverted(s: DvdState, t: DvdState) -> bool {
    &&& t.speed_x == next_speed_x(s)
    &&& t.speed_y == next_speed_y(s)
    &&& t.x == s.x
    &&& t.y == s.y
    &&& t.img_data@ == s.img_data@
    &&& t.img_width == s.img_width
    &&& t.img_height == s.img_height
    &&& t.surface_width == s.surface_width
    &&& t.surface_height == s.surface_height
}

/// `t` is `s` after one step: velocities reversed where the image bounces,
/// then the position moved by the new velocity.
pub open spec fn stepped(s: DvdState, t: DvdState) -> bool {
    &&& t.speed_x == next_speed_x(s)
    &&& t.speed_y == next_speed_y(s)
    &&& t.x == s.x + next_speed_x(s)
    &&& t.y == s.y + next_speed_y(s)
    &&& t.img_data@ == s.img_data@
    &&& t.img_width == s.img_width
    &&& t.img_height == s.img_height
    &&& t.surface_width == s.surface_width
    &&& t.surface_height == s.surface_height
}

/// Reverses the velocity along each axis on which the next step would make
/// the image touch or cross an edge of the surface.
fn invert_xy_speed(dvd_state: &mut DvdState)
    requires
        invert_ok(*old(dvd_state)),
    ensures
        inverted(*old(dvd_state), *final(dvd_state)),
{
    // left and right edges
    if (dvd_state.x as i32 + dvd_state.img_width as i32 + dvd_state.speed_x as i32) >= dvd_state.surface_width as i32
        || (dvd_state.x as i32 + dvd_state.speed_x as i32) <= 0 {
        dvd_state.speed_x = -dvd_state.speed_x;
    }
    // top and bottom edges
    if (dvd_state.y as i32 + dvd_state.img_height as i32 + dvd_state.speed_y as i32) >= dvd_state.surface_height as i32
        || (dvd_state.y as i32 + dvd_state.speed_y as i32) <= 0 {
        dvd_state.speed_y = -dvd_state.speed_y;
    }
}

/// A speed pushed `amount` further in its own direction (a speed of zero
/// counts as moving forwards).
pub open spec fn sped_up(speed: int, amount: int) -> int {
    if speed >= 0 {
        speed + amount
    } else {
        speed - amount
    }
}

/// A speed pulled `amount` back against its own direction.
pub open spec fn slowed_down(speed: int, amount: int) -> int {
    if speed >= 0 {
        speed - amount
    } else {
        speed + amount
    }
}

impl DvdState {
    /// A state at a random position on a `surface_width` by
    /// `surface_height` surface, moving with `initial_speed` along both
    /// axes, showing the given `img_width` by `img_height` RGBA image.
    pub fn with_random_position(
        initial_speed: i8,
        surface_width: i32,
        surface_height: i32,
        img_data: Vec<u8>,
        img_width: u32,
        img_height: u32,
    ) -> (s: Self)
        requires
            surface_width > 0,
            surface_height > 0,
            img_width <= i32::MAX,
            img_height <= i32::MAX,
        ensures
            0 <= s.x < surface_width,
            0 <= s.y < surface_height,
            s.img_data@ == img_data@,
            s.img_width == img_width,
            s.img_height == img_height,
            s.speed_x == initial_speed,
            s.speed_y == initial_speed,
            s.surface_width == surface_width,
            s.surface_height == surface_height,
    {
        let (x, y) = get_random_position(surface_width as u32, surface_height as u32);
        Self {
            x: x as i32,
            y: y as i32,
            img_data: img_data,
            img_width: img_width as i32,
            img_height: img_height as i32,
            speed_x: initial_speed,
            speed_y: initial_speed,
            surface_width: surface_width,
            surface_height,
        }
    }

    /// Tells whether the next step can be taken: exactly when its edge tests,
    /// velocity reversals and moves stay within the integer types.
    pub fn can_step(&self) -> (ok: bool)
        ensures
            ok == step_ok(*self),
    {
        let x = self.x as i64;
        let y = self.y as i64;
        let iw = self.img_width as i64;
        let ih = self.img_height as i64;
        let sx = self.speed_x as i64;
        let sy = self.speed_y as i64;
        let sw = self.surface_width as i64;
        let sh = self.surface_height as i64;
        let min = i32::MIN as i64;
        let max = i32::MAX as i64;
        let fits_x = min <= x + iw && x + iw <= max && min <= x + iw + sx && x + iw + sx <= max && (x + iw + sx
            >= sw || (min <= x + sx && x + sx <= max));
        let fits_y = min <= y + ih && y + ih <= max && min <= y + ih + sy && y + ih + sy <= max && (y + ih + sy
            >= sh || (min <= y + sy && y + sy <= max));
        let nsx = if x + iw + sx >= sw || x + sx <= 0 { -sx } else { sx };
        let nsy = if y + ih + sy >= sh || y + sy <= 0 { -sy } else { sy };
        fits_x && fits_y && nsx <= 127 && nsy <= 127 && min <= x + nsx && x + nsx <= max && min <= y + nsy && y
            + nsy <= max
    }

    /// One step of the motion: bounce off the edges, then move.
    fn update_position(&mut self)
        requires
            step_ok(*old(self)),
        ensures
            stepped(*old(self), *final(self)),
    {
        invert_xy_speed(self);
        self.x = self.x + self.speed_x as i32;
        self.y = self.y + self.speed_y as i32;
    }

    /// Makes the image faster by `amount` along both axes, keeping its
    /// direction (a negative `amount` slows it down).
    pub fn increase_speed_by(&mut self, amount: i8)
        requires
            fits_i8(sped_up(old(self).speed_x as int, amount as int)),
            fits_i8(sped_up(old(self).speed_y as int, amount as int)),
        ensures
            final(self).speed_x == sped_up(old(self).speed_x as int, amount as int),
            final(self).speed_y == sped_up(old(self).speed_y as int, amount as int),
            final(self).x == old(self).x,
            final(self).y == old(self).y,
            final(self).img_data@ == old(self).img_data@,
            final(self).img_width == old(self).img_width,
            final(self).img_height == old(self).img_height,
            final(self).surface_width == old(self).surface_width,
            final(self).surface_height == old(self).surface_height,
    {
        if self.speed_x >= 0 {
            self.speed_x += amount;
        } else {
            self.speed_x -= amount;
        }
        if self.speed_y >= 0 {
            self.speed_y += amount;
        } else {
            self.speed_y -= amount;
        }
    }

    /// Makes the image slower by `amount` along both axes.
    pub fn decrease_speed_by(&mut self, amount: i8)
        requires
            fits_i8(slowed_down(old(self).speed_x as int, amount as int)),
            fits_i8(slowed_down(old(self).speed_y as int, amount as int)),
        ensures
            final(self).speed_x == slowed_down(old(self).speed_x as int, amount as int),
            final(self).speed_y == slowed_down(old(self).speed_y as int, amount as int),
            final(self).x == old(self).x,
            final(self).y == old(self).y,
            final(self).img_data@ == old(self).img_data@,
            final(self).img_width == old(self).img_width,
            final(self).img_height == old(self).img_height,
            final(self).surface_width == old(self).surface_width,
            final(self).surface_height == old(self).surface_height,
    {
        if self.speed_x >= 0 {
            self.speed_x -= amount;
        } else {
            self.speed_x += amount;
        }
        if self.speed_y >= 0 {
            self.speed_y -= amount;
        } else {
            self.speed_y += amount;
        }
    }
}

/// Speeding up by a non-negative amount and then slowing down by the same
/// amount gives back the speed one started with.
pub proof fn lemma_speed_round_trip(speed: int, amount: int)
    requires
        amount >= 0,
    ensures
        slowed_down(sped_up(speed, amount), amount) == speed,
{
}

/// Speeding up by a non-negative amount keeps the direction of motion and
/// adds the amount to the magnitude.
pub proof fn lemma_speed_up_keeps_direction(speed: int, amount: int)
    requires
        amount >= 0,
    ensures
        (speed >= 0) == (sped_up(speed, amount) >= 0),
        abs(sped_up(speed, amount)) == abs(speed) + amount,
{
}

/// A step never changes how fast the image moves along an axis: bouncing
/// only reverses the direction.
pub proof fn lemma_bounce_keeps_magnitude(pos: int, size: int, speed: int, bound: int)
    ensures
        abs(bounced_speed(pos, size, speed, bound)) == abs(speed),
{
}

/// The image never leaves the surface: along an axis where it lies wholly
/// inside (with room to spare at the far edge) and moves by less than half
/// the free room per frame, it still lies wholly inside after the step.
pub proof fn lemma_step_stays_inside(pos: int, size: int, speed: int, bound: int)
    requires
        0 <= pos,
        pos + size < bound,
        2 * abs(speed) < bound - size,
    ensures
        0 <= pos + bounced_speed(pos, size, speed, bound),
        pos + bounced_speed(pos, size, speed, bound) + size < bound,
{
}

/// The absolute value of `v`.
pub open spec fn abs(v: int) -> int {
    if v < 0 {
        -v
    } else {
        v
    }
}

/// Tells whether `dvd_style` accepts a frame of `frame_len` bytes and this
/// state: the step fits the integer types and the image lies on the surface,
/// inside the frame, both where it is and where it steps to.
pub fn dvd_style_fits(frame_len: usize, dvd_state: &DvdState) -> (ok: bool)
    ensures
        ok == (step_ok(*dvd_state) && image_fits(
            frame_len as int,
            dvd_state.img_data@.len() as int,
            dvd_state.x as int,
            dvd_state.y as int,
            dvd_state.img_width as int,
            dvd_state.img_height as int,
            dvd_state.surface_width as int,
            dvd_state.surface_height as int,
        ) && image_fits(
            frame_len as int,
            dvd_state.img_data@.len() as int,
            dvd_state.x + next_speed_x(*dvd_state),
            dvd_state.y + next_speed_y(*dvd_state),
            dvd_state.img_width as int,
            dvd_state.img_height as int,
            dvd_state.surface_width as int,
            dvd_state.surface_height as int,
        )),
{
    if !dvd_state.can_step() {
        return false;
    }
    let s = dvd_state;
    let speed_x = if s.x + s.img_width + s.speed_x as i32 >= s.surface_width || s.x + s.speed_x as i32 <= 0 {
        -(s.speed_x as i32)
    } else {
        s.speed_x as i32
    };
    let speed_y = if s.y + s.img_height + s.speed_y as i32 >= s.surface_height || s.y + s.speed_y as i32 <= 0 {
        -(s.speed_y as i32)
    } else {
        s.speed_y as i32
    };
    let len = s.img_data.len();
    image_fits_frame(frame_len, len, s.x, s.y, s.img_width, s.img_height, s.surface_width, s.surface_height)
        && image_fits_frame(
        frame_len,
        len,
        s.x + speed_x,
        s.y + speed_y,
        s.img_width,
        s.img_height,
        s.surface_width,
        s.surface_height,
    )
}

/// One frame of the animation: the image steps, its old place is erased
/// (drawn in black), then it is tinted with the rainbow colour of
/// `frame_count` and drawn at its new place.
pub fn dvd_style(frame: &mut [u8], frame_count: u32, dvd_state: &mut DvdState)
    requires
        step_ok(*old(dvd_state)),
        image_fits(
            old(frame)@.len() as int,
            old(dvd_state).img_data@.len() as int,
            old(dvd_state).x as int,
            old(dvd_state).y as int,
            old(dvd_state).img_width as int,
            old(dvd_state).img_height as int,
            old(dvd_state).surface_width as int,
            old(dvd_state).surface_height as int,
        ),
        image_fits(
            old(frame)@.len() as int,
            old(dvd_state).img_data@.len() as int,
            old(dvd_state).x + next_speed_x(*old(dvd_state)),
            old(dvd_state).y + next_speed_y(*old(dvd_state)),
            old(dvd_state).img_width as int,
            old(dvd_state).img_height as int,
            old(dvd_state).surface_width as int,
            old(dvd_state).surface_height as int,
        ),
    ensures
        ({
            let s = *old(dvd_state);
            let t = *final(dvd_state);
            let c = rainbow(frame_count as int);
            &&& t.speed_x == next_speed_x(s)
            &&& t.speed_y == next_speed_y(s)
            &&& t.x == s.x + next_speed_x(s)
            &&& t.y == s.y + next_speed_y(s)
            &&& t.img_width == s.img_width
            &&& t.img_height == s.img_height
            &&& t.surface_width == s.surface_width
            &&& t.surface_height == s.surface_height
            &&& t.img_data@ == colored(s.img_data@, (c.0, c.1, c.2))
            &&& final(frame)@ == painted(
                painted(
                    old(frame)@,
                    s.surface_width as int,
                    image_painter(
                        colored(s.img_data@, (0u8, 0u8, 0u8)),
                        s.x as int,
                        s.y as int,
                        s.img_width as int,
                        s.img_height as int,
                    ),
                ),
                s.surface_width as int,
                image_painter(
                    colored(s.img_data@, (c.0, c.1, c.2)),
                    t.x as int,
                    t.y as int,
                    s.img_width as int,
                    s.img_height as int,
                ),
            )
        }),
{
    // store previous position
    let old_x = dvd_state.x;
    let old_y = dvd_state.y;

    dvd_state.update_position();

    let color = rainbow_rgba(frame_count);
    let rgb_color = (color.0, color.1, color.2);

    // erase old
    clear_image(
        frame,
        dvd_state.img_data.as_mut_slice(),
        old_x,
        old_y,
        dvd_state.img_width,
        dvd_state.img_height,
        dvd_state.surface_width,
        dvd_state.surface_height,
    );
    color_image(dvd_state.img_data.as_mut_slice(), rgb_color);
    proof {
        lemma_colored_twice(old(dvd_state).img_data@, (0u8, 0u8, 0u8), rgb_color);
    }
    draw_image(
        frame,
        dvd_state.img_data.as_slice(),
        dvd_state.x,
        dvd_state.y,
        dvd_state.img_width,
        dvd_state.img_height,
        dvd_state.surface_width,
        dvd_state.surface_height,
    );
}

} // verus!
