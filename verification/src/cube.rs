//! Keyboard controls of the rotating cube.
use vstd::prelude::*;

verus! {

/// The keys the rotating cube reacts to.
#[derive(Copy, Clone, Debug, PartialEq, Eq, Structural)]
pub enum CubeKey {
    One,
    Two,
    Three,
    W,
    A,
    S,
    D,
    Space,
    Other,
}

/// A small turn of the cube that a key asks for: about the x axis (pitch)
/// or the y axis (yaw), in the negative or positive sense.
#[derive(Copy, Clone, Debug, PartialEq, Eq, Structural)]
pub enum Tilt {
    PitchNegative,
    YawNegative,
    PitchPositive,
    YawPositive,
}

/// Which continuous rotations run and how the cube is drawn.
#[derive(Copy, Clone, Debug, PartialEq, Eq, Structural)]
pub struct CubeControls {
    pub x_rotation: bool,
    pub y_rotation: bool,
    pub z_rotation: bool,
    pub wireframe_mode: bool,
    pub textured_mode: bool,
}

/// The controls after `key` was pressed (`released` false) or released.
/// Releasing 1, 2 or 3 switches the rotation about x, y or z on or off;
/// releasing Space switches wireframe mode. Nothing else changes them.
pub open spec fn controls_after(c: CubeControls, key: CubeKey, released: bool) -> CubeControls {
    if !released {
        c
    } else {
        match key {
            CubeKey::One => CubeControls { x_rotation: !c.x_rotation, ..c },
            CubeKey::Two => CubeControls { y_rotation: !c.y_rotation, ..c },
            CubeKey::Three => CubeControls { z_rotation: !c.z_rotation, ..c },
            CubeKey::Space => CubeControls { wireframe_mode: !c.wireframe_mode, ..c },
            _ => c,
        }
    }
}

/// The turn a key asks for, on press and on release alike: W and S pitch,
/// A and D yaw.
pub open spec fn tilt_for(key: CubeKey) -> Option<Tilt> {
    match key {
        CubeKey::W => Some(Tilt::PitchNegative),
        CubeKey::A => Some(Tilt::YawNegative),
        CubeKey::S => Some(Tilt::PitchPositive),
        CubeKey::D => Some(Tilt::YawPositive),
        _ => None,
    }
}

impl CubeControls {
    /// No rotation running, solid textured drawing.
    pub fn new() -> (c: Self)
        ensures
            !c.x_rotation && !c.y_rotation && !c.z_rotation,
            !c.wireframe_mode,
            c.textured_mode,
    {
        CubeControls {
            x_rotation: false,
            y_rotation: false,
            z_rotation: false,
            wireframe_mode: false,
            textured_mode: true,
        }
    }

    /// Reacts to a key event: updates the switches and returns the turn the
    /// cube is to make, if any.
    pub fn on_key(&mut self, key: CubeKey, released: bool) -> (tilt: Option<Tilt>)
        ensures
            *final(self) == controls_after(*old(self), key, released),
            tilt == tilt_for(key),
    {
        match key {
            CubeKey::One => {
                if released {
                    self.x_rotation = !self.x_rotation;
                }
                None
            },
            CubeKey::Two => {
                if released {
                    self.y_rotation = !self.y_rotation;
                }
                None
            },
            CubeKey::Three => {
                if released {
                    self.z_rotation = !self.z_rotation;
                }
                None
            },
            CubeKey::W => Some(Tilt::PitchNegative),
            CubeKey::A => Some(Tilt::YawNegative),
            CubeKey::S => Some(Tilt::PitchPositive),
            CubeKey::D => Some(Tilt::YawPositive),
            CubeKey::Space => {
                if released {
                    self.wireframe_mode = !self.wireframe_mode;
                }
                None
            },
            CubeKey::Other => None,
        }
    }
}

/// Releasing 1 switches the rotation about x and nothing else; releasing 2
/// switches the rotation about y and nothing else; releasing 3 switches the
/// rotation about z and nothing else; releasing Space switches wireframe
/// mode and nothing else. Textured mode never changes.
pub proof fn lemma_release_switches(c: CubeControls)
    ensures
        ({
            let d = controls_after(c, CubeKey::One, true);
            d.x_rotation == !c.x_rotation && d.y_rotation == c.y_rotation && d.z_rotation == c.z_rotation
                && d.wireframe_mode == c.wireframe_mode && d.textured_mode == c.textured_mode
        }),
        ({
            let d = controls_after(c, CubeKey::Two, true);
            d.x_rotation == c.x_rotation && d.y_rotation == !c.y_rotation && d.z_rotation == c.z_rotation
                && d.wireframe_mode == c.wireframe_mode && d.textured_mode == c.textured_mode
        }),
        ({
            let d = controls_after(c, CubeKey::Three, true);
            d.x_rotation == c.x_rotation && d.y_rotation == c.y_rotation && d.z_rotation == !c.z_rotation
                && d.wireframe_mode == c.wireframe_mode && d.textured_mode == c.textured_mode
        }),
        ({
            let d = controls_after(c, CubeKey::Space, true);
            d.x_rotation == c.x_rotation && d.y_rotation == c.y_rotation && d.z_rotation == c.z_rotation
                && d.wireframe_mode == !c.wireframe_mode && d.textured_mode == c.textured_mode
        }),
        forall|k: CubeKey, r: bool| #[trigger] controls_after(c, k, r).textured_mode == c.textured_mode,
        forall|r: bool|
            #![trigger controls_after(c, CubeKey::W, r)]
            controls_after(c, CubeKey::W, r) == c && controls_after(c, CubeKey::A, r) == c
                && controls_after(c, CubeKey::S, r) == c && controls_after(c, CubeKey::D, r) == c
                && controls_after(c, CubeKey::Other, r) == c,
{
}

/// W and S ask for turns about x in opposite senses, A and D for turns about
/// y in opposite senses, and the other keys ask for no turn.
pub proof fn lemma_tilt_keys()
    ensures
        tilt_for(CubeKey::W) == Some(Tilt::PitchNegative),
        tilt_for(CubeKey::S) == Some(Tilt::PitchPositive),
        tilt_for(CubeKey::A) == Some(Tilt::YawNegative),
        tilt_for(CubeKey::D) == Some(Tilt::YawPositive),
        tilt_for(CubeKey::One) is None && tilt_for(CubeKey::Two) is None && tilt_for(CubeKey::Three) is None,
        tilt_for(CubeKey::Space) is None && tilt_for(CubeKey::Other) is None,
{
}

/// Releasing the same key twice leaves the controls as they were.
pub proof fn lemma_release_twice(c: CubeControls, key: CubeKey)
    ensures
        controls_after(controls_after(c, key, true), key, true) == c,
{
}

/// Pressing a key, without releasing it, changes no switch.
pub proof fn lemma_press_keeps_controls(c: CubeControls, key: CubeKey)
    ensures
        controls_after(c, key, false) == c,
{
}

} // verus!
