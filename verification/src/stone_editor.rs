//! The model behind the shape editor: the outline under construction, its
//! check for self-intersections, and the steps from an empty sheet to a
//! blueprint with an initial state.
use crate::basic_structs::Vector2D;
use crate::bezier::{polyline_spec, BezierInfo};
use crate::fixed::{magnitude, signed_product, Fixed};
use crate::physics::simulation::StoneInfo;
use crate::solver2::TWO;
use crate::trig::PI;
use vstd::prelude::*;

verus! {

/// Pixels per meter in the editor.
pub const EDITOR_SCALE: i64 = 8_000_000_000_000;

/// Squared distance that a freehand stroke must cover before its next point is recorded.
pub const FREEHAND_STEP_SQUARED: i64 = 25_000_000_000;

/// Squared distance between the two ends of a stroke beyond which the outline
/// is closed by repeating its first point.
pub const CLOSING_GAP_SQUARED: i64 = 400_000;

/// Magnitude of the turn measure, in squared raw units, below which three
/// points count as lying on one line.
pub const STRAIGHT_EPSILON: u128 = 100_000_000;

/// Centimeters per meter, in raw units.
pub const CENTIMETERS_PER_METER: i64 = 100_000_000_000;

/// Degrees in half a turn, in raw units.
pub const HALF_TURN_DEGREES: i64 = 180_000_000_000;

/// Number of crossings from which an outline is reported as self-intersecting.
pub const WARNING_THRESHOLD: usize = 2;

/// The screen the editor shows.
#[derive(PartialEq, Eq, Clone, Copy, Debug, Structural)]
pub enum EditorMode {
    Menu,
    BezierDrawing,
    FreehandDrawing,
    Preview,
    SetInitialConditions,
    Finished,
}

/// What the editor hands over: a closed outline, a thickness in meters, and a name.
pub struct StoneBlueprint {
    pub points: Vec<Vector2D>,
    pub thickness: Fixed,
    pub name: String,
}

/// Which way the path from `p` over `q` to `r` turns.
#[derive(PartialEq, Eq, Clone, Copy, Debug, Structural)]
pub enum Turn {
    Straight,
    Clockwise,
    CounterClockwise,
}

/// The quantity whose sign tells the turn, in squared raw units:
/// `(q.y - p.y) * (r.x - q.x) - (q.x - p.x) * (r.y - q.y)`, exactly.
pub open spec fn turn_measure(p: Vector2D, q: Vector2D, r: Vector2D) -> int {
    (q.y.raw - p.y.raw) * (r.x.raw - q.x.raw) - (q.x.raw - p.x.raw) * (r.y.raw - q.y.raw)
}

/// The turn of the path from `p` over `q` to `r`; a path whose measure is
/// below `STRAIGHT_EPSILON` in magnitude counts as straight.
pub open spec fn orientation_spec(p: Vector2D, q: Vector2D, r: Vector2D) -> Turn {
    let val = turn_measure(p, q, r);
    if magnitude(val) < STRAIGHT_EPSILON {
        Turn::Straight
    } else if val > 0 {
        Turn::Clockwise
    } else {
        Turn::CounterClockwise
    }
}

/// Whether `q` lies in the axis-aligned box spanned by `p` and `r`.
pub open spec fn on_segment_spec(p: Vector2D, q: Vector2D, r: Vector2D) -> bool {
    q.x.raw <= p.x.max_spec(r.x).raw && q.x.raw >= p.x.min_spec(r.x).raw && q.y.raw
        <= p.y.max_spec(r.y).raw && q.y.raw >= p.y.min_spec(r.y).raw
}

/// Whether the segments `ab` and `cd` have a point in common.
pub open spec fn line_segments_intersect_spec(
    a: Vector2D,
    b: Vector2D,
    c: Vector2D,
    d: Vector2D,
) -> bool {
    let o1 = orientation_spec(a, b, c);
    let o2 = orientation_spec(a, b, d);
    let o3 = orientation_spec(c, d, a);
    let o4 = orientation_spec(c, d, b);
    (o1 != o2 && o3 != o4) || (o1 == Turn::Straight && on_segment_spec(a, c, b)) || (o2
        == Turn::Straight && on_segment_spec(a, d, b)) || (o3 == Turn::Straight
        && on_segment_spec(c, a, d)) || (o4 == Turn::Straight && on_segment_spec(c, b, d))
}

/// Whether segments `i` and `j` of an open path are compared: they are
/// neither neighbours nor the first and the last segment.
pub open spec fn is_compared(i: int, j: int, num_segments: int) -> bool {
    0 <= i && i + 2 <= j && j < num_segments && !(i == 0 && j == num_segments - 1)
}

/// Number of segments `j < upto` that are compared with segment `i` and intersect it.
pub open spec fn crossings_of_segment(points: Seq<Vector2D>, i: int, upto: int) -> nat
    decreases upto,
{
    if upto <= 0 {
        0
    } else {
        let j = upto - 1;
        let rest = crossings_of_segment(points, i, j);
        if is_compared(i, j, points.len() - 1) && line_segments_intersect_spec(
            points[i],
            points[i + 1],
            points[j],
            points[j + 1],
        ) {
            rest + 1
        } else {
            rest
        }
    }
}

/// Number of intersecting pairs of segments among the first `upto` segments
/// and all segments after them.
pub open spec fn crossings_upto(points: Seq<Vector2D>, upto: int) -> nat
    decreases upto,
{
    if upto <= 0 {
        0
    } else {
        crossings_upto(points, upto - 1) + crossings_of_segment(
            points,
            upto - 1,
            points.len() - 1,
        )
    }
}

/// Number of pairs of segments of the path that intersect, neighbours and
/// the pair of the first and the last segment left aside; zero for fewer
/// than four points.
pub open spec fn count_self_intersections_spec(points: Seq<Vector2D>) -> nat {
    if points.len() < 4 {
        0
    } else {
        crossings_upto(points, points.len() - 1)
    }
}

/// The turn of the path from `p` over `q` to `r`.
pub fn orientation(p: Vector2D, q: Vector2D, r: Vector2D) -> (t: Turn)
    ensures
        t == orientation_spec(p, q, r),
{
    let (first_negative, first) = signed_product(
        q.y.raw as i128 - p.y.raw as i128,
        r.x.raw as i128 - q.x.raw as i128,
    );
    let (second_negative, second) = signed_product(
        q.x.raw as i128 - p.x.raw as i128,
        r.y.raw as i128 - q.y.raw as i128,
    );
    // The measure is the first product less the second.
    if first_negative != second_negative {
        // The products have opposite signs, or one of them is zero and the
        // other negative: their magnitudes add up.
        let large = first >= STRAIGHT_EPSILON || second >= STRAIGHT_EPSILON || first + second
            >= STRAIGHT_EPSILON;
        if !large {
            Turn::Straight
        } else if second_negative {
            Turn::Clockwise
        } else {
            Turn::CounterClockwise
        }
    } else if first >= second {
        if first - second < STRAIGHT_EPSILON {
            Turn::Straight
        } else if first_negative {
            Turn::CounterClockwise
        } else {
            Turn::Clockwise
        }
    } else {
        if second - first < STRAIGHT_EPSILON {
            Turn::Straight
        } else if first_negative {
            Turn::Clockwise
        } else {
            Turn::CounterClockwise
        }
    }
}

/// Whether `q`, known to lie on the line through `p` and `r`, lies between them.
pub fn on_segment(p: Vector2D, q: Vector2D, r: Vector2D) -> (b: bool)
    ensures
        b == on_segment_spec(p, q, r),
{
    q.x.raw <= p.x.max(r.x).raw && q.x.raw >= p.x.min(r.x).raw && q.y.raw <= p.y.max(r.y).raw
        && q.y.raw >= p.y.min(r.y).raw
}

/// Whether the segments `ab` and `cd` have a point in common.
pub fn line_segments_intersect(a: Vector2D, b: Vector2D, c: Vector2D, d: Vector2D) -> (r: bool)
    ensures
        r == line_segments_intersect_spec(a, b, c, d),
{
    let o1 = orientation(a, b, c);
    let o2 = orientation(a, b, d);
    let o3 = orientation(c, d, a);
    let o4 = orientation(c, d, b);
    if o1 != o2 && o3 != o4 {
        return true;
    }
    if o1 == Turn::Straight && on_segment(a, c, b) {
        return true;
    }
    if o2 == Turn::Straight && on_segment(a, d, b) {
        return true;
    }
    if o3 == Turn::Straight && on_segment(c, a, d) {
        return true;
    }
    if o4 == Turn::Straight && on_segment(c, b, d) {
        return true;
    }
    false
}

/// Segments that are not compared with segment `i` add nothing to its count.
proof fn lemma_crossings_start_late(points: Seq<Vector2D>, i: int, upto: int)
    requires
        0 <= i,
        upto <= i + 2,
    ensures
        crossings_of_segment(points, i, upto) == 0,
    decreases upto,
{
    if upto > 0 {
        lemma_crossings_start_late(points, i, upto - 1);
    }
}

/// A count limited to what a machine word holds.
pub open spec fn limited_count(n: nat) -> usize {
    if n <= usize::MAX {
        n as usize
    } else {
        usize::MAX
    }
}

/// Counts the pairs of segments of an open path that intersect.
///
/// Neighbouring segments, which share an end, are not compared, nor are the
/// first and the last segment, which share the point that closes the outline.
pub fn count_self_intersections(points: &[Vector2D]) -> (count: usize)
    ensures
        count == limited_count(count_self_intersections_spec(points@)),
{
    if points.len() < 4 {
        return 0;
    }
    let num_segments = points.len() - 1;
    let mut intersection_count: usize = 0;
    let mut i: usize = 0;
    while i < num_segments
        invariant
            num_segments == points.len() - 1,
            points.len() >= 4,
            0 <= i <= num_segments,
            intersection_count == limited_count(crossings_upto(points@, i as int)),
        decreases num_segments - i,
    {
        let p1 = points[i];
        let p2 = points[i + 1];
        let ghost done = crossings_upto(points@, i as int);
        let mut j: usize = if i + 2 < num_segments {
            i + 2
        } else {
            num_segments
        };
        proof {
            lemma_crossings_start_late(points@, i as int, j as int);
        }
        while j < num_segments
            invariant
                num_segments == points.len() - 1,
                0 <= i < num_segments,
                i + 2 <= j || j == num_segments,
                j <= num_segments,
                p1 == points@[i as int],
                p2 == points@[i + 1],
                intersection_count == limited_count(
                    done + crossings_of_segment(points@, i as int, j as int),
                ),
            decreases num_segments - j,
        {
            if !(i == 0 && j == num_segments - 1) {
                let p3 = points[j];
                let p4 = points[j + 1];
                if line_segments_intersect(p1, p2, p3, p4) {
                    if intersection_count < usize::MAX {
                        intersection_count = intersection_count + 1;
                    }
                }
            }
            j = j + 1;
        }
        i = i + 1;
    }
    intersection_count
}

/// Whether a key may be added to a number that is being typed: digits and
/// the decimal point anywhere, the minus sign in front only.
pub open spec fn accepts_char_spec(c: char, is_empty: bool) -> bool {
    ('0' <= c && c <= '9') || c == '.' || (c == '-' && is_empty)
}

/// Whether a key may be added to a number that is being typed.
pub fn accepts_char(c: char, is_empty: bool) -> (r: bool)
    ensures
        r == accepts_char_spec(c, is_empty),
{
    ('0' <= c && c <= '9') || c == '.' || (c == '-' && is_empty)
}

/// An angle given in degrees, in radians: `deg * PI / 180`, rounded once.
pub open spec fn deg_to_rad_spec(deg: Fixed) -> Fixed {
    deg.mul_div_spec(Fixed { raw: PI }, Fixed { raw: HALF_TURN_DEGREES })
}

/// Converts an angle from degrees to radians.
pub fn deg_to_rad(deg: Fixed) -> (r: Fixed)
    ensures
        r == deg_to_rad_spec(deg),
{
    deg.mul_div(Fixed { raw: PI }, Fixed { raw: HALF_TURN_DEGREES })
}

/// The point of the sheet under the pixel `(mx, my)` of a screen of the given
/// size: the center of the screen is the origin, and y grows upward.
pub open spec fn screen_to_world_spec(
    mx: Fixed,
    my: Fixed,
    screen_width: Fixed,
    screen_height: Fixed,
) -> Vector2D {
    let two = Fixed { raw: TWO };
    let scale = Fixed { raw: EDITOR_SCALE };
    Vector2D {
        x: mx.sub_spec(screen_width.div_spec(two)).div_spec(scale),
        y: screen_height.div_spec(two).sub_spec(my).div_spec(scale),
    }
}

/// The pixel of a screen of the given size that shows the point `v` of the sheet.
pub open spec fn world_to_screen_spec(
    v: Vector2D,
    screen_width: Fixed,
    screen_height: Fixed,
) -> Vector2D {
    let two = Fixed { raw: TWO };
    let scale = Fixed { raw: EDITOR_SCALE };
    Vector2D {
        x: screen_width.div_spec(two).add_spec(v.x.mul_spec(scale)),
        y: screen_height.div_spec(two).sub_spec(v.y.mul_spec(scale)),
    }
}

/// The point of the sheet, in meters, under a pixel of the screen.
pub fn screen_to_world(mx: Fixed, my: Fixed, screen_width: Fixed, screen_height: Fixed) -> (r:
    Vector2D)
    ensures
        r == screen_to_world_spec(mx, my, screen_width, screen_height),
{
    let two = Fixed { raw: TWO };
    let scale = Fixed { raw: EDITOR_SCALE };
    Vector2D {
        x: mx.sub(screen_width.div(two)).div(scale),
        y: screen_height.div(two).sub(my).div(scale),
    }
}

/// The pixel of the screen that shows a point of the sheet given in meters.
pub fn world_to_screen(v: Vector2D, screen_width: Fixed, screen_height: Fixed) -> (r: Vector2D)
    ensures
        r == world_to_screen_spec(v, screen_width, screen_height),
{
    let two = Fixed { raw: TWO };
    let scale = Fixed { raw: EDITOR_SCALE };
    Vector2D {
        x: screen_width.div(two).add(v.x.mul(scale)),
        y: screen_height.div(two).sub(v.y.mul(scale)),
    }
}

/// Squared distance between two points.
pub open spec fn distance_squared(a: Vector2D, b: Vector2D) -> Fixed {
    a.sub_spec(b).length_squared_spec()
}

/// The stroke closed: with its first point repeated at the end where the two
/// ends lie further apart than the closing gap.
pub open spec fn closed_stroke(points: Seq<Vector2D>) -> Seq<Vector2D> {
    if points.len() >= 2 && distance_squared(points.first(), points.last()).raw
        > CLOSING_GAP_SQUARED {
        points.push(points.first())
    } else {
        points
    }
}

/// The outline that a finished drawing gives: for a freehand stroke the
/// closed stroke itself, for control points the polyline of the Bezier curve
/// through the closed list of control points.
pub open spec fn final_outline(mode: EditorMode, points: Seq<Vector2D>) -> Seq<Vector2D> {
    match mode {
        EditorMode::BezierDrawing => polyline_spec(closed_stroke(points)),
        EditorMode::FreehandDrawing => closed_stroke(points),
        _ => Seq::empty(),
    }
}

/// The state of the shape editor.
pub struct StoneEditor {
    /// The screen shown.
    pub mode: EditorMode,
    /// The control points set so far.
    pub bezier_control_points: Vec<Vector2D>,
    /// The points of the freehand stroke so far.
    pub freehand_points: Vec<Vector2D>,
    /// The drawing mode from which the preview was entered.
    pub previous_mode: EditorMode,
    /// The outline shown in the preview.
    pub preview_points: Vec<Vector2D>,
    /// Whether the outline in the preview crosses itself.
    pub self_intersection_warning: bool,
    /// The confirmed blueprint, until the initial state is set.
    pub blueprint_buffer: Option<StoneBlueprint>,
    /// The blueprint and the initial state, once the editor has finished.
    pub result: Option<(StoneBlueprint, StoneInfo)>,
}

/// A copy of a list of points.
fn copy_points(points: &Vec<Vector2D>) -> (out: Vec<Vector2D>)
    ensures
        out@ == points@,
{
    let mut out: Vec<Vector2D> = Vec::new();
    let mut i: usize = 0;
    while i < points.len()
        invariant
            0 <= i <= points.len(),
            out@ == points@.subrange(0, i as int),
        decreases points.len() - i,
    {
        out.push(points[i]);
        assert(out@ =~= points@.subrange(0, i + 1));
        i = i + 1;
    }
    assert(out@ =~= points@);
    out
}

impl StoneEditor {
    /// An editor that shows the menu and holds no drawing.
    pub fn new() -> (r: Self)
        ensures
            r.mode == EditorMode::Menu,
            r.previous_mode == EditorMode::Menu,
            r.bezier_control_points@.len() == 0,
            r.freehand_points@.len() == 0,
            r.preview_points@.len() == 0,
            !r.self_intersection_warning,
            r.blueprint_buffer is None,
            r.result is None,
    {
        StoneEditor {
            mode: EditorMode::Menu,
            bezier_control_points: Vec::new(),
            freehand_points: Vec::new(),
            previous_mode: EditorMode::Menu,
            preview_points: Vec::new(),
            self_intersection_warning: false,
            blueprint_buffer: None,
            result: None,
        }
    }

    /// Starts a drawing by control points on an empty sheet.
    pub fn start_bezier(&mut self)
        ensures
            final(self).bezier_control_points@.len() == 0,
            *final(self) == (StoneEditor {
                mode: EditorMode::BezierDrawing,
                bezier_control_points: final(self).bezier_control_points,
                ..*old(self)
            }),
    {
        self.mode = EditorMode::BezierDrawing;
        self.bezier_control_points.clear();
    }

    /// Starts a freehand drawing on an empty sheet.
    pub fn start_freehand(&mut self)
        ensures
            final(self).freehand_points@.len() == 0,
            *final(self) == (StoneEditor {
                mode: EditorMode::FreehandDrawing,
                freehand_points: final(self).freehand_points,
                ..*old(self)
            }),
    {
        self.mode = EditorMode::FreehandDrawing;
        self.freehand_points.clear();
    }

    /// Adds a control point.
    pub fn add_control_point(&mut self, p: Vector2D)
        ensures
            final(self).bezier_control_points@ == old(self).bezier_control_points@.push(p),
            *final(self) == (StoneEditor {
                bezier_control_points: final(self).bezier_control_points,
                ..*old(self)
            }),
    {
        self.bezier_control_points.push(p);
    }

    /// Adds a point to the freehand stroke if the stroke is empty or the
    /// point lies far enough from its last point.
    pub fn add_freehand_point(&mut self, p: Vector2D)
        ensures
            final(self).freehand_points@ == if old(self).freehand_points@.len() == 0
                || distance_squared(old(self).freehand_points@.last(), p).raw
                > FREEHAND_STEP_SQUARED {
                old(self).freehand_points@.push(p)
            } else {
                old(self).freehand_points@
            },
            *final(self) == (StoneEditor {
                freehand_points: final(self).freehand_points,
                ..*old(self)
            }),
    {
        let n = self.freehand_points.len();
        if n == 0 {
            self.freehand_points.push(p);
        } else {
            let last = self.freehand_points[n - 1];
            if last.sub(p).length_squared().raw > FREEHAND_STEP_SQUARED {
                self.freehand_points.push(p);
            }
        }
    }

    /// Ends the drawing and shows the preview of its outline.
    ///
    /// The points of the current drawing mode are closed and, for control
    /// points, replaced by the polyline of the curve. A drawing of fewer than
    /// two points is left as it is. The outline is flagged when at least
    /// `WARNING_THRESHOLD` pairs of its segments cross.
    pub fn finalize_stone(&mut self)
        ensures
            *final(self) == (StoneEditor {
                mode: final(self).mode,
                previous_mode: old(self).mode,
                preview_points: final(self).preview_points,
                self_intersection_warning: final(self).self_intersection_warning,
                ..*old(self)
            }),
            ({
                let drawn = match old(self).mode {
                    EditorMode::BezierDrawing => old(self).bezier_control_points@,
                    EditorMode::FreehandDrawing => old(self).freehand_points@,
                    _ => Seq::empty(),
                };
                let outline = final_outline(old(self).mode, drawn);
                if drawn.len() < 2 || outline.len() == 0 {
                    &&& final(self).mode == old(self).mode
                    &&& final(self).preview_points == old(self).preview_points
                    &&& final(self).self_intersection_warning == old(
                        self,
                    ).self_intersection_warning
                } else {
                    &&& final(self).mode == EditorMode::Preview
                    &&& final(self).preview_points@ == outline
                    &&& final(self).self_intersection_warning == (limited_count(
                        count_self_intersections_spec(outline),
                    ) >= WARNING_THRESHOLD)
                }
            }),
    {
        self.previous_mode = self.mode;
        let mut points_to_process = match self.mode {
            EditorMode::BezierDrawing => copy_points(&self.bezier_control_points),
            EditorMode::FreehandDrawing => copy_points(&self.freehand_points),
            _ => Vec::new(),
        };
        if points_to_process.len() < 2 {
            return ;
        }
        let first = points_to_process[0];
        let last = points_to_process[points_to_process.len() - 1];
        if first.sub(last).length_squared().raw > CLOSING_GAP_SQUARED {
            points_to_process.push(first);
        }
        let final_points = match self.mode {
            EditorMode::BezierDrawing => {
                let info = BezierInfo::new("final".to_string(), points_to_process);
                info.polyline_points
            },
            EditorMode::FreehandDrawing => points_to_process,
            _ => Vec::new(),
        };
        if final_points.len() == 0 {
            return ;
        }
        let intersection_count = count_self_intersections(final_points.as_slice());
        self.self_intersection_warning = intersection_count >= WARNING_THRESHOLD;
        self.preview_points = final_points;
        self.mode = EditorMode::Preview;
    }

    /// Accepts the outline in the preview, with the thickness given in
    /// centimeters, and goes on to the initial conditions.
    pub fn confirm_preview(&mut self, thickness_cm: Fixed)
        ensures
            final(self).blueprint_buffer is Some,
            final(self).blueprint_buffer->0.points@ == old(self).preview_points@,
            final(self).blueprint_buffer->0.thickness == thickness_cm.div_spec(
                Fixed { raw: CENTIMETERS_PER_METER },
            ),
            *final(self) == (StoneEditor {
                mode: EditorMode::SetInitialConditions,
                blueprint_buffer: final(self).blueprint_buffer,
                ..*old(self)
            }),
    {
        let thickness_meters = thickness_cm.div(Fixed { raw: CENTIMETERS_PER_METER });
        self.blueprint_buffer = Some(
            StoneBlueprint {
                points: copy_points(&self.preview_points),
                thickness: thickness_meters,
                name: "CustomStone".to_string(),
            },
        );
        self.mode = EditorMode::SetInitialConditions;
    }

    /// Leaves the preview and goes back to the drawing it came from.
    pub fn back_to_drawing(&mut self)
        ensures
            final(self).preview_points@.len() == 0,
            *final(self) == (StoneEditor {
                mode: old(self).previous_mode,
                preview_points: final(self).preview_points,
                self_intersection_warning: false,
                ..*old(self)
            }),
    {
        self.preview_points.clear();
        self.self_intersection_warning = false;
        self.mode = self.previous_mode;
    }

    /// Shows the given screen and leaves everything else as it is.
    pub fn show(&mut self, mode: EditorMode)
        ensures
            *final(self) == (StoneEditor { mode, ..*old(self) }),
    {
        self.mode = mode;
    }

    /// Builds the initial state and finishes the editor.
    ///
    /// The pitch is given in degrees and stored in radians; the stone starts
    /// without spin angle and without pitch rate. Where no blueprint has been
    /// confirmed, there is nothing to finish, and the editor shows the menu again.
    pub fn finish_and_build_y0(
        &mut self,
        position: Vector2D,
        velocity: Vector2D,
        angle_deg: Fixed,
        angular_velocity: Fixed,
    )
        ensures
            *final(self) == (StoneEditor {
                mode: final(self).mode,
                blueprint_buffer: None,
                result: final(self).result,
                ..*old(self)
            }),
            match old(self).blueprint_buffer {
                Some(blueprint) => {
                    &&& final(self).mode == EditorMode::Finished
                    &&& final(self).result == Some(
                        (blueprint, initial_state(position, velocity, angle_deg, angular_velocity)),
                    )
                },
                None => {
                    &&& final(self).mode == EditorMode::Menu
                    &&& final(self).result == old(self).result
                },
            },
    {
        let y0 = StoneInfo {
            position,
            velocity,
            angle: Vector2D { x: deg_to_rad(angle_deg), y: Fixed::zero() },
            angle_velocity: Vector2D { x: Fixed::zero(), y: angular_velocity },
        };
        let taken = self.blueprint_buffer.take();
        match taken {
            Some(blueprint) => {
                self.result = Some((blueprint, y0));
                self.mode = EditorMode::Finished;
            },
            None => {
                self.mode = EditorMode::Menu;
            },
        }
    }
}

/// The state in which a throw starts: the pitch converted from degrees, no
/// spin angle, no pitch rate, and the given spin rate.
pub open spec fn initial_state(
    position: Vector2D,
    velocity: Vector2D,
    angle_deg: Fixed,
    angular_velocity: Fixed,
) -> StoneInfo {
    StoneInfo {
        position,
        velocity,
        angle: Vector2D { x: deg_to_rad_spec(angle_deg), y: Fixed { raw: 0 } },
        angle_velocity: Vector2D { x: Fixed { raw: 0 }, y: angular_velocity },
    }
}

} // verus!
