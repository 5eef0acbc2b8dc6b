//! The interactive state of a viewer session and the decisions taken on each
//! input event and each frame.
//!
//! Orientation, position and scale are counted in steps: the caller turns a
//! count into an angle, an offset or a factor with its own step size (a scale
//! of `k` steps is the factor `1 + k * step`). Counts are unbounded in
//! principle; at the limits of `i64` they stay put.

use vstd::prelude::*;

verus! {

/// What an input can ask of the viewer. Which key triggers which control is
/// the caller's choice.
#[derive(Debug, Clone, Copy, PartialEq, Eq, Structural)]
pub enum Control {
    RotateXPlus,
    RotateXMinus,
    RotateYPlus,
    RotateYMinus,
    RotateZPlus,
    RotateZMinus,
    MoveXPlus,
    MoveXMinus,
    MoveYPlus,
    MoveYMinus,
    MoveZPlus,
    MoveZMinus,
    ScaleXPlus,
    ScaleXMinus,
    ScaleYPlus,
    ScaleYMinus,
    ScaleZPlus,
    ScaleZMinus,
    ToggleTexture,
    Exit,
}

/// The number of controls.
pub const CONTROL_COUNT: usize = 20;

/// The position of a control in the table of held controls.
pub open spec fn slot(c: Control) -> int {
    match c {
        Control::RotateXPlus => 0,
        Control::RotateXMinus => 1,
        Control::RotateYPlus => 2,
        Control::RotateYMinus => 3,
        Control::RotateZPlus => 4,
        Control::RotateZMinus => 5,
        Control::MoveXPlus => 6,
        Control::MoveXMinus => 7,
        Control::MoveYPlus => 8,
        Control::MoveYMinus => 9,
        Control::MoveZPlus => 10,
        Control::MoveZMinus => 11,
        Control::ScaleXPlus => 12,
        Control::ScaleXMinus => 13,
        Control::ScaleYPlus => 14,
        Control::ScaleYMinus => 15,
        Control::ScaleZPlus => 16,
        Control::ScaleZMinus => 17,
        Control::ToggleTexture => 18,
        Control::Exit => 19,
    }
}

pub fn control_slot(c: Control) -> (r: usize)
    ensures
        r == slot(c),
        r < CONTROL_COUNT,
{
    match c {
        Control::RotateXPlus => 0,
        Control::RotateXMinus => 1,
        Control::RotateYPlus => 2,
        Control::RotateYMinus => 3,
        Control::RotateZPlus => 4,
        Control::RotateZMinus => 5,
        Control::MoveXPlus => 6,
        Control::MoveXMinus => 7,
        Control::MoveYPlus => 8,
        Control::MoveYMinus => 9,
        Control::MoveZPlus => 10,
        Control::MoveZMinus => 11,
        Control::ScaleXPlus => 12,
        Control::ScaleXMinus => 13,
        Control::ScaleYPlus => 14,
        Control::ScaleYMinus => 15,
        Control::ScaleZPlus => 16,
        Control::ScaleZMinus => 17,
        Control::ToggleTexture => 18,
        Control::Exit => 19,
    }
}

/// An input event: a control pressed or released, or the drawing surface
/// resized to a width and a height in pixels.
#[derive(Debug, Clone, Copy, PartialEq, Eq, Structural)]
pub enum InputEvent {
    Press(Control),
    Release(Control),
    Resize(i32, i32),
}

/// Orientation, position and scale of the mesh, per axis, in steps, and
/// whether the texture is shown.
#[derive(Debug, Clone, Copy, PartialEq, Eq, Structural)]
pub struct TransformState {
    pub orientation_x: i64,
    pub orientation_y: i64,
    pub orientation_z: i64,
    pub position_x: i64,
    pub position_y: i64,
    pub position_z: i64,
    pub scale_x: i64,
    pub scale_y: i64,
    pub scale_z: i64,
    pub display_texture: bool,
}

/// No rotation, no offset, a scale of 1 and no texture.
pub open spec fn at_rest() -> TransformState {
    TransformState {
        orientation_x: 0,
        orientation_y: 0,
        orientation_z: 0,
        position_x: 0,
        position_y: 0,
        position_z: 0,
        scale_x: 0,
        scale_y: 0,
        scale_z: 0,
        display_texture: false,
    }
}

impl TransformState {
    /// No rotation, no offset, a scale of 1 and no texture.
    pub fn new() -> (r: TransformState)
        ensures
            r == at_rest(),
    {
        TransformState {
            orientation_x: 0,
            orientation_y: 0,
            orientation_z: 0,
            position_x: 0,
            position_y: 0,
            position_z: 0,
            scale_x: 0,
            scale_y: 0,
            scale_z: 0,
            display_texture: false,
        }
    }
}

/// `v` kept within the range of `i64`.
pub open spec fn clamp_i64(v: int) -> i64 {
    if v > i64::MAX {
        i64::MAX
    } else if v < i64::MIN {
        i64::MIN
    } else {
        v as i64
    }
}

/// +1 when only `plus` is held, -1 when only `minus` is, 0 otherwise.
pub open spec fn axis_step(held: Seq<bool>, plus: Control, minus: Control) -> int {
    (if held[slot(plus)] {
        1int
    } else {
        0int
    }) - (if held[slot(minus)] {
        1int
    } else {
        0int
    })
}

/// `t` after one frame with the controls `held`: each held control moves
/// its axis one step.
pub open spec fn step_transform(t: TransformState, held: Seq<bool>) -> TransformState {
    TransformState {
        orientation_x: clamp_i64(
            t.orientation_x + axis_step(held, Control::RotateXPlus, Control::RotateXMinus),
        ),
        orientation_y: clamp_i64(
            t.orientation_y + axis_step(held, Control::RotateYPlus, Control::RotateYMinus),
        ),
        orientation_z: clamp_i64(
            t.orientation_z + axis_step(held, Control::RotateZPlus, Control::RotateZMinus),
        ),
        position_x: clamp_i64(t.position_x + axis_step(held, Control::MoveXPlus, Control::MoveXMinus)),
        position_y: clamp_i64(t.position_y + axis_step(held, Control::MoveYPlus, Control::MoveYMinus)),
        position_z: clamp_i64(t.position_z + axis_step(held, Control::MoveZPlus, Control::MoveZMinus)),
        scale_x: clamp_i64(t.scale_x + axis_step(held, Control::ScaleXPlus, Control::ScaleXMinus)),
        scale_y: clamp_i64(t.scale_y + axis_step(held, Control::ScaleYPlus, Control::ScaleYMinus)),
        scale_z: clamp_i64(t.scale_z + axis_step(held, Control::ScaleZPlus, Control::ScaleZMinus)),
        display_texture: t.display_texture,
    }
}

/// `v` moved one step up when `plus` holds and one down when `minus` holds,
/// kept within the range of `i64`.
fn move_axis(v: i64, plus: bool, minus: bool) -> (r: i64)
    ensures
        r == clamp_i64(v + (if plus {
            1int
        } else {
            0int
        }) - (if minus {
            1int
        } else {
            0int
        })),
{
    if plus && !minus {
        if v < i64::MAX {
            v + 1
        } else {
            v
        }
    } else if minus && !plus {
        if v > i64::MIN {
            v - 1
        } else {
            v
        }
    } else {
        v
    }
}

/// The input side of a viewer session: the transform, the controls held
/// down, whether the session is to end, and the last usable size of the
/// drawing surface.
pub struct ViewerInput {
    pub transform: TransformState,
    pub held: Vec<bool>,
    pub should_close: bool,
    pub width: i32,
    pub height: i32,
}

impl ViewerInput {
    /// One entry per control in `held`, and a surface height that is not 0.
    pub open spec fn wf(&self) -> bool {
        self.held@.len() == CONTROL_COUNT && self.height != 0
    }

    /// A session on a surface of the given size, with the transform at rest
    /// and no control held.
    pub fn new(width: i32, height: i32) -> (r: ViewerInput)
        requires
            height != 0,
        ensures
            r.wf(),
            r.transform == at_rest(),
            forall|k: int| 0 <= k < CONTROL_COUNT ==> !(#[trigger] r.held@[k]),
            !r.should_close,
            r.width == width && r.height == height,
    {
        let mut held: Vec<bool> = Vec::new();
        let mut k: usize = 0;
        while k < CONTROL_COUNT
            invariant
                k <= CONTROL_COUNT,
                held@.len() == k,
                forall|j: int| 0 <= j < k ==> !(#[trigger] held@[j]),
            decreases CONTROL_COUNT - k,
        {
            held.push(false);
            k += 1;
        }
        ViewerInput { transform: TransformState::new(), held, should_close: false, width, height }
    }

    /// Whether control `c` is held down.
    pub fn is_held(&self, c: Control) -> (r: bool)
        requires
            self.wf(),
        ensures
            r == self.held@[slot(c)],
    {
        self.held[control_slot(c)]
    }

    /// Takes one event into account. Pressing a control holds it; pressing
    /// the texture control also flips the texture display, and pressing the
    /// exit control ends the session. Releasing a control lets it go. A
    /// resize keeps the new size unless its height is 0, when the last
    /// size stays.
    pub fn apply_event(&mut self, e: InputEvent)
        requires
            old(self).wf(),
        ensures
            final(self).wf(),
            match e {
                InputEvent::Press(c) => {
                    &&& final(self).held@ == old(self).held@.update(slot(c), true)
                    &&& final(self).transform == (if c == Control::ToggleTexture {
                        TransformState {
                            display_texture: !old(self).transform.display_texture,
                            ..old(self).transform
                        }
                    } else {
                        old(self).transform
                    })
                    &&& final(self).should_close == (old(self).should_close || c == Control::Exit)
                    &&& final(self).width == old(self).width
                    &&& final(self).height == old(self).height
                },
                InputEvent::Release(c) => {
                    &&& final(self).held@ == old(self).held@.update(slot(c), false)
                    &&& final(self).transform == old(self).transform
                    &&& final(self).should_close == old(self).should_close
                    &&& final(self).width == old(self).width
                    &&& final(self).height == old(self).height
                },
                InputEvent::Resize(w, h) => {
                    &&& final(self).held@ == old(self).held@
                    &&& final(self).transform == old(self).transform
                    &&& final(self).should_close == old(self).should_close
                    &&& final(self).width == (if h != 0 {
                        w
                    } else {
                        old(self).width
                    })
                    &&& final(self).height == (if h != 0 {
                        h
                    } else {
                        old(self).height
                    })
                },
            },
    {
        match e {
            InputEvent::Press(c) => {
                let k = control_slot(c);
                self.held.set(k, true);
                if c == Control::ToggleTexture {
                    self.transform.display_texture = !self.transform.display_texture;
                }
                if c == Control::Exit {
                    self.should_close = true;
                }
            },
            InputEvent::Release(c) => {
                let k = control_slot(c);
                self.held.set(k, false);
            },
            InputEvent::Resize(w, h) => {
                if h != 0 {
                    self.width = w;
                    self.height = h;
                }
            },
        }
    }

    /// Advances the transform by one frame of the controls held down.
    pub fn apply_held(&mut self)
        requires
            old(self).wf(),
        ensures
            final(self).wf(),
            final(self).transform == step_transform(old(self).transform, old(self).held@),
            final(self).held@ == old(self).held@,
            final(self).should_close == old(self).should_close,
            final(self).width == old(self).width,
            final(self).height == old(self).height,
    {
        let t = self.transform;
        let next = TransformState {
            orientation_x: move_axis(
                t.orientation_x,
                self.is_held(Control::RotateXPlus),
                self.is_held(Control::RotateXMinus),
            ),
            orientation_y: move_axis(
                t.orientation_y,
                self.is_held(Control::RotateYPlus),
                self.is_held(Control::RotateYMinus),
            ),
            orientation_z: move_axis(
                t.orientation_z,
                self.is_held(Control::RotateZPlus),
                self.is_held(Control::RotateZMinus),
            ),
            position_x: move_axis(
                t.position_x,
                self.is_held(Control::MoveXPlus),
                self.is_held(Control::MoveXMinus),
            ),
            position_y: move_axis(
                t.position_y,
                self.is_held(Control::MoveYPlus),
                self.is_held(Control::MoveYMinus),
            ),
            position_z: move_axis(
                t.position_z,
                self.is_held(Control::MoveZPlus),
                self.is_held(Control::MoveZMinus),
            ),
            scale_x: move_axis(t.scale_x, self.is_held(Control::ScaleXPlus), self.is_held(Control::ScaleXMinus)),
            scale_y: move_axis(t.scale_y, self.is_held(Control::ScaleYPlus), self.is_held(Control::ScaleYMinus)),
            scale_z: move_axis(t.scale_z, self.is_held(Control::ScaleZPlus), self.is_held(Control::ScaleZMinus)),
            display_texture: t.display_texture,
        };
        self.transform = next;
    }
}

} // verus!
