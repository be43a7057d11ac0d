//! The model behind the display of a simulation: the recorded trajectory, the
//! frame shown, and the camera that maps the world to the screen.
//!
//! The world's y axis points upward, the screen's downward. Lengths on the
//! screen are pixels.
use crate::basic_structs::Vector2D;
use crate::fixed::Fixed;
use crate::physics::simulation::{rotated, StoneInfo};
use crate::solver2::TWO;
use crate::stone_phy::StoneProperties;
use crate::trig::{cos, cos_spec, sin, sin_spec};
use vstd::prelude::*;

verus! {

/// Factor by which one notch of the wheel changes the scale, in raw units.
pub const ZOOM_FACTOR: i64 = 3_000_000_000;

/// Smallest movement of the wheel that counts, in raw units.
pub const SCROLL_THRESHOLD: i64 = 100_000_000;

/// Part of the screen's width at which the world's origin is first placed: a quarter.
pub const ORIGIN_ACROSS: i64 = 250_000_000;

/// Part of the screen's height at which the world's origin is first placed: three quarters.
pub const ORIGIN_DOWN: i64 = 750_000_000;

/// Part of the window that the stone fills in the view of its spin: four fifths.
pub const WINDOW_FILL: i64 = 800_000_000;

/// Largest radius up to which a stone is too small for a view of its spin, in raw units.
pub const RADIUS_EPSILON: i64 = 1;

/// What the display of a simulation remembers from frame to frame.
pub struct SimulationRenderer {
    /// The states recorded so far.
    pub trajectory: Vec<StoneInfo>,
    /// The stone, with its outline in the frame of the center of mass.
    pub stone_props: StoneProperties,
    /// Index of the state shown.
    pub current_frame: usize,
    /// Whether the display moves on to the next state with every frame.
    pub is_playing: bool,
    /// Pixels per meter.
    pub scale: Fixed,
    /// The pixel that shows the world's origin.
    pub world_origin_on_screen: Vector2D,
    /// Whether the view is being dragged.
    pub is_panning: bool,
    /// Where the mouse was when the view was last moved.
    pub last_mouse_pos: Vector2D,
}

/// The pixel that shows the point `p` of the world.
pub open spec fn world_to_screen_spec(origin: Vector2D, scale: Fixed, p: Vector2D) -> Vector2D {
    Vector2D {
        x: origin.x.add_spec(p.x.mul_spec(scale)),
        y: origin.y.sub_spec(p.y.mul_spec(scale)),
    }
}

/// The point of the world that the pixel `s` shows.
pub open spec fn screen_to_world_spec(origin: Vector2D, scale: Fixed, s: Vector2D) -> Vector2D {
    Vector2D {
        x: s.x.sub_spec(origin.x).div_spec(scale),
        y: origin.y.sub_spec(s.y).div_spec(scale),
    }
}

/// The scale after a movement of the wheel: multiplied by `ZOOM_FACTOR` for a
/// movement forward, divided by it for a movement backward.
pub open spec fn zoomed_scale(scale: Fixed, scroll: Fixed) -> Fixed {
    if scroll.raw > 0 {
        scale.mul_spec(Fixed { raw: ZOOM_FACTOR })
    } else {
        scale.div_spec(Fixed { raw: ZOOM_FACTOR })
    }
}

/// The origin after a movement of the wheel with the mouse at `mouse`: moved
/// by the distance, in pixels of the new scale, by which the point under the
/// mouse has shifted.
pub open spec fn zoomed_origin(
    origin: Vector2D,
    scale: Fixed,
    scroll: Fixed,
    mouse: Vector2D,
) -> Vector2D {
    let new_scale = zoomed_scale(scale, scroll);
    let before = screen_to_world_spec(origin, scale, mouse);
    let after = screen_to_world_spec(origin, new_scale, mouse);
    let delta = before.sub_spec(after);
    Vector2D {
        x: origin.x.add_spec(delta.x.mul_spec(new_scale)),
        y: origin.y.sub_spec(delta.y.mul_spec(new_scale)),
    }
}

/// The index of the state shown in the next frame.
pub open spec fn next_frame_index(current_frame: usize, is_playing: bool, len: nat) -> usize {
    if is_playing && current_frame + 1 < len {
        (current_frame + 1) as usize
    } else {
        current_frame
    }
}

/// A vertex of the outline as the side view shows it: turned by the pitch,
/// moved to the stone's position, and mapped to the screen.
pub open spec fn side_view_point(
    origin: Vector2D,
    scale: Fixed,
    state: StoneInfo,
    local: Vector2D,
) -> Vector2D {
    let turned = rotated(local, cos_spec(state.angle.x), sin_spec(state.angle.x));
    world_to_screen_spec(origin, scale, turned.add_spec(state.position))
}

/// Pixels per meter of the view of the spin in a window of the given width,
/// for a stone of the given largest squared radius.
pub open spec fn spin_view_scale(window_width: Fixed, d_max: Fixed) -> Fixed {
    window_width.mul_spec(Fixed { raw: WINDOW_FILL }).div_spec(Fixed { raw: TWO }).div_spec(
        d_max.sqrt_spec(),
    )
}

/// A vertex of the outline as the view of the spin shows it: turned by the
/// spin angle, scaled, and placed about the center of the window.
pub open spec fn spin_view_point(
    center: Vector2D,
    local_scale: Fixed,
    state: StoneInfo,
    local: Vector2D,
) -> Vector2D {
    let turned = rotated(local, cos_spec(state.angle.y), sin_spec(state.angle.y));
    Vector2D {
        x: center.x.add_spec(turned.x.mul_spec(local_scale)),
        y: center.y.sub_spec(turned.y.mul_spec(local_scale)),
    }
}

impl SimulationRenderer {
    /// The display after a movement of the wheel with the mouse at
    /// `mouse_pos`; a movement of at most `SCROLL_THRESHOLD` either way
    /// changes nothing.
    pub open spec fn zoomed(self, scroll: Fixed, mouse_pos: Vector2D) -> SimulationRenderer {
        if scroll.abs_spec().raw > SCROLL_THRESHOLD {
            SimulationRenderer {
                scale: zoomed_scale(self.scale, scroll),
                world_origin_on_screen: zoomed_origin(
                    self.world_origin_on_screen,
                    self.scale,
                    scroll,
                    mouse_pos,
                ),
                ..self
            }
        } else {
            self
        }
    }

    /// The display after the mouse was seen at `mouse_pos` with its button
    /// just pressed or just released, or neither.
    pub open spec fn panned(
        self,
        mouse_pos: Vector2D,
        pressed: bool,
        released: bool,
    ) -> SimulationRenderer {
        let panning = (self.is_panning || pressed) && !released;
        let last = if pressed {
            mouse_pos
        } else {
            self.last_mouse_pos
        };
        if panning {
            SimulationRenderer {
                is_panning: true,
                world_origin_on_screen: self.world_origin_on_screen.add_spec(
                    mouse_pos.sub_spec(last),
                ),
                last_mouse_pos: mouse_pos,
                ..self
            }
        } else {
            SimulationRenderer { is_panning: false, last_mouse_pos: last, ..self }
        }
    }

    /// A display for the given stone on a screen of the given size, at
    /// `scale` pixels per meter, with the world's origin a quarter of the
    /// screen from the left and three quarters from the top. It starts
    /// without states and plays as states arrive.
    pub fn new(
        stone_props: StoneProperties,
        scale: Fixed,
        screen_width: Fixed,
        screen_height: Fixed,
    ) -> (r: Self)
        ensures
            r.trajectory@.len() == 0,
            r.stone_props == stone_props,
            r.current_frame == 0,
            r.is_playing,
            r.scale == scale,
            r.world_origin_on_screen == (Vector2D {
                x: screen_width.mul_spec(Fixed { raw: ORIGIN_ACROSS }),
                y: screen_height.mul_spec(Fixed { raw: ORIGIN_DOWN }),
            }),
            !r.is_panning,
            r.last_mouse_pos == (Vector2D { x: Fixed { raw: 0 }, y: Fixed { raw: 0 } }),
    {
        SimulationRenderer {
            trajectory: Vec::new(),
            stone_props,
            current_frame: 0,
            is_playing: true,
            scale,
            world_origin_on_screen: Vector2D {
                x: screen_width.mul(Fixed { raw: ORIGIN_ACROSS }),
                y: screen_height.mul(Fixed { raw: ORIGIN_DOWN }),
            },
            is_panning: false,
            last_mouse_pos: Vector2D { x: Fixed::zero(), y: Fixed::zero() },
        }
    }

    /// Records a state.
    pub fn add_state(&mut self, state: StoneInfo)
        ensures
            final(self).trajectory@ == old(self).trajectory@.push(state),
            *final(self) == (SimulationRenderer {
                trajectory: final(self).trajectory,
                ..*old(self)
            }),
    {
        self.trajectory.push(state);
    }

    /// The state shown, if any state has been recorded.
    pub fn current_state(&self) -> (r: Option<StoneInfo>)
        ensures
            r == if self.current_frame < self.trajectory@.len() {
                Some(self.trajectory@[self.current_frame as int])
            } else {
                None
            },
    {
        if self.current_frame < self.trajectory.len() {
            Some(self.trajectory[self.current_frame])
        } else {
            None
        }
    }

    /// Moves on to the next state if the display is playing and has one.
    pub fn advance_frame(&mut self)
        ensures
            *final(self) == (SimulationRenderer {
                current_frame: next_frame_index(
                    old(self).current_frame,
                    old(self).is_playing,
                    old(self).trajectory@.len(),
                ),
                ..*old(self)
            }),
    {
        if self.is_playing && self.trajectory.len() > 0 && self.current_frame
            < self.trajectory.len() - 1 {
            self.current_frame = self.current_frame + 1;
        }
    }

    /// The pixel that shows a point of the world.
    pub fn world_to_screen(&self, world_pos: Vector2D) -> (r: Vector2D)
        ensures
            r == world_to_screen_spec(self.world_origin_on_screen, self.scale, world_pos),
    {
        Vector2D {
            x: self.world_origin_on_screen.x.add(world_pos.x.mul(self.scale)),
            y: self.world_origin_on_screen.y.sub(world_pos.y.mul(self.scale)),
        }
    }

    /// The point of the world that a pixel shows.
    pub fn screen_to_world(&self, screen_pos: Vector2D) -> (r: Vector2D)
        ensures
            r == screen_to_world_spec(self.world_origin_on_screen, self.scale, screen_pos),
    {
        Vector2D {
            x: screen_pos.x.sub(self.world_origin_on_screen.x).div(self.scale),
            y: self.world_origin_on_screen.y.sub(screen_pos.y).div(self.scale),
        }
    }

    /// The outline of the stone on the screen, seen from the side, for the given state.
    pub fn stone_outline_on_screen(&self, state: &StoneInfo) -> (r: Vec<Vector2D>)
        ensures
            r@ == Seq::new(
                self.stone_props.outline_com@.len(),
                |i: int|
                    side_view_point(
                        self.world_origin_on_screen,
                        self.scale,
                        *state,
                        self.stone_props.outline_com@[i],
                    ),
            ),
    {
        let cos_a = cos(state.angle.x);
        let sin_a = sin(state.angle.x);
        let n = self.stone_props.outline_com.len();
        let mut out: Vec<Vector2D> = Vec::new();
        let mut i: usize = 0;
        while i < n
            invariant
                n == self.stone_props.outline_com.len(),
                0 <= i <= n,
                cos_a == cos_spec(state.angle.x),
                sin_a == sin_spec(state.angle.x),
                out@.len() == i,
                forall|k: int|
                    0 <= k < i ==> out@[k] == side_view_point(
                        self.world_origin_on_screen,
                        self.scale,
                        *state,
                        self.stone_props.outline_com@[k],
                    ),
            decreases n - i,
        {
            let local = self.stone_props.outline_com[i];
            let turned = Vector2D {
                x: local.x.mul(cos_a).sub(local.y.mul(sin_a)),
                y: local.x.mul(sin_a).add(local.y.mul(cos_a)),
            };
            out.push(self.world_to_screen(turned.add(state.position)));
            i = i + 1;
        }
        assert(out@ =~= Seq::new(
            self.stone_props.outline_com@.len(),
            |i: int|
                side_view_point(
                    self.world_origin_on_screen,
                    self.scale,
                    *state,
                    self.stone_props.outline_com@[i],
                ),
        ));
        out
    }

    /// The outline of the stone seen from above, turned by its spin, scaled to
    /// fill four fifths of a window of the given width about `center`.
    /// A stone without extent has no such outline.
    pub fn spin_outline_in_window(
        &self,
        state: &StoneInfo,
        center: Vector2D,
        window_width: Fixed,
    ) -> (r: Vec<Vector2D>)
        ensures
            r@ == if self.stone_props.d_max.sqrt_spec().raw < RADIUS_EPSILON {
                Seq::empty()
            } else {
                Seq::new(
                    self.stone_props.outline_com@.len(),
                    |i: int|
                        spin_view_point(
                            center,
                            spin_view_scale(window_width, self.stone_props.d_max),
                            *state,
                            self.stone_props.outline_com@[i],
                        ),
                )
            },
    {
        let mut out: Vec<Vector2D> = Vec::new();
        let max_radius = self.stone_props.d_max.sqrt();
        if max_radius.raw < RADIUS_EPSILON {
            return out;
        }
        let local_scale = window_width.mul(Fixed { raw: WINDOW_FILL }).div(Fixed { raw: TWO }).div(
            max_radius,
        );
        let cos_spin = cos(state.angle.y);
        let sin_spin = sin(state.angle.y);
        let n = self.stone_props.outline_com.len();
        let mut i: usize = 0;
        while i < n
            invariant
                n == self.stone_props.outline_com.len(),
                0 <= i <= n,
                cos_spin == cos_spec(state.angle.y),
                sin_spin == sin_spec(state.angle.y),
                local_scale == spin_view_scale(window_width, self.stone_props.d_max),
                out@.len() == i,
                forall|k: int|
                    0 <= k < i ==> out@[k] == spin_view_point(
                        center,
                        local_scale,
                        *state,
                        self.stone_props.outline_com@[k],
                    ),
            decreases n - i,
        {
            let local = self.stone_props.outline_com[i];
            let rotated_x = local.x.mul(cos_spin).sub(local.y.mul(sin_spin));
            let rotated_y = local.x.mul(sin_spin).add(local.y.mul(cos_spin));
            out.push(
                Vector2D {
                    x: center.x.add(rotated_x.mul(local_scale)),
                    y: center.y.sub(rotated_y.mul(local_scale)),
                },
            );
            i = i + 1;
        }
        assert(out@ =~= Seq::new(
            self.stone_props.outline_com@.len(),
            |i: int|
                spin_view_point(
                    center,
                    spin_view_scale(window_width, self.stone_props.d_max),
                    *state,
                    self.stone_props.outline_com@[i],
                ),
        ));
        out
    }

    /// The path of the center of mass on the screen, up to the state shown.
    pub fn trajectory_on_screen(&self) -> (r: Vec<Vector2D>)
        ensures
            r@ == Seq::new(
                if self.current_frame + 1 < self.trajectory@.len() {
                    (self.current_frame + 1) as nat
                } else {
                    self.trajectory@.len()
                },
                |i: int|
                    world_to_screen_spec(
                        self.world_origin_on_screen,
                        self.scale,
                        self.trajectory@[i].position,
                    ),
            ),
    {
        let len = self.trajectory.len();
        let end_index = if self.current_frame < len {
            self.current_frame + 1
        } else {
            len
        };
        let mut out: Vec<Vector2D> = Vec::new();
        let mut i: usize = 0;
        while i < end_index
            invariant
                0 <= i <= end_index <= self.trajectory.len(),
                out@.len() == i,
                forall|k: int|
                    0 <= k < i ==> out@[k] == world_to_screen_spec(
                        self.world_origin_on_screen,
                        self.scale,
                        self.trajectory@[k].position,
                    ),
            decreases end_index - i,
        {
            out.push(self.world_to_screen(self.trajectory[i].position));
            i = i + 1;
        }
        assert(out@ =~= Seq::new(
            end_index as nat,
            |i: int|
                world_to_screen_spec(
                    self.world_origin_on_screen,
                    self.scale,
                    self.trajectory@[i].position,
                ),
        ));
        out
    }

    /// Zooms in or out by one notch of the wheel and moves the origin by the
    /// shift of the point under the mouse. A movement of the wheel of at most
    /// `SCROLL_THRESHOLD` either way does nothing.
    pub fn zoom(&mut self, scroll: Fixed, mouse_pos: Vector2D)
        ensures
            *final(self) == old(self).zoomed(scroll, mouse_pos),
    {
        if scroll.abs().raw > SCROLL_THRESHOLD {
            let before = self.screen_to_world(mouse_pos);
            if scroll.raw > 0 {
                self.scale = self.scale.mul(Fixed { raw: ZOOM_FACTOR });
            } else {
                self.scale = self.scale.div(Fixed { raw: ZOOM_FACTOR });
            }
            let after = self.screen_to_world(mouse_pos);
            let world_delta = before.sub(after);
            self.world_origin_on_screen = Vector2D {
                x: self.world_origin_on_screen.x.add(world_delta.x.mul(self.scale)),
                y: self.world_origin_on_screen.y.sub(world_delta.y.mul(self.scale)),
            };
        }
    }

    /// Drags the view with the mouse: pressing the button starts a drag,
    /// releasing it ends one, and while the drag lasts the view follows the mouse.
    pub fn pan(&mut self, mouse_pos: Vector2D, pressed: bool, released: bool)
        ensures
            *final(self) == old(self).panned(mouse_pos, pressed, released),
    {
        if pressed {
            self.is_panning = true;
            self.last_mouse_pos = mouse_pos;
        }
        if released {
            self.is_panning = false;
        }
        if self.is_panning {
            let delta = mouse_pos.sub(self.last_mouse_pos);
            self.world_origin_on_screen = self.world_origin_on_screen.add(delta);
            self.last_mouse_pos = mouse_pos;
        }
    }

    /// Zooms by the wheel, then drags by the mouse.
    pub fn handle_view_controls(
        &mut self,
        scroll: Fixed,
        mouse_pos: Vector2D,
        pressed: bool,
        released: bool,
    )
        ensures
            *final(self) == old(self).zoomed(scroll, mouse_pos).panned(
                mouse_pos,
                pressed,
                released,
            ),
    {
        self.zoom(scroll, mouse_pos);
        self.pan(mouse_pos, pressed, released);
    }

    /// Pauses a playing display and resumes a paused one.
    pub fn toggle_play(&mut self)
        ensures
            *final(self) == (SimulationRenderer {
                is_playing: !old(self).is_playing,
                ..*old(self)
            }),
    {
        self.is_playing = !self.is_playing;
    }

    /// Goes back to the first state and plays.
    pub fn reset(&mut self)
        ensures
            *final(self) == (SimulationRenderer {
                current_frame: 0,
                is_playing: true,
                ..*old(self)
            }),
    {
        self.current_frame = 0;
        self.is_playing = true;
    }

    /// Number of states recorded.
    pub fn trajectory_len(&self) -> (r: usize)
        ensures
            r == self.trajectory@.len(),
    {
        self.trajectory.len()
    }

    /// Whether any state has been recorded.
    pub fn has_trajectory(&self) -> (r: bool)
        ensures
            r == (self.trajectory@.len() > 0),
    {
        self.trajectory.len() > 0
    }
}

} // verus!
