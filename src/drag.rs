//! Dragging with the mouse: a body near the cursor follows it, held
//! kinematic, and gets its own body type back on release; a drag over empty
//! space lays out a new box between the press and the release points.
use vstd::prelude::*;
use crate::finder::{closest_candidate, closest_index, Candidate};
use crate::fixed::{dist_sq, Point, MAX_COORD};
use crate::health::EntityId;

verus! {

/// How close to a body's centre a press must be to pick it up.
pub const DRAG_PICK_RADIUS: i64 = 50;

/// How the physics engine moves a body.
#[derive(Clone, Copy, Debug, PartialEq, Eq, Structural)]
pub enum BodyType {
    Dynamic,
    Fixed,
    KinematicPositionBased,
    KinematicVelocityBased,
}

/// The body being dragged, if any.
#[derive(Clone, Copy, Debug, PartialEq, Eq, Structural)]
pub struct DragState {
    pub dragging_entity: Option<EntityId>,
    pub previous_body_type: Option<BodyType>,
    /// Body centre minus the press point.
    pub drag_offset: Point,
}

impl DragState {
    pub open spec fn wf(&self) -> bool {
        -2 * MAX_COORD <= self.drag_offset.x <= 2 * MAX_COORD
            && -2 * MAX_COORD <= self.drag_offset.y <= 2 * MAX_COORD
    }

    pub fn idle() -> (r: DragState)
        ensures
            r == (DragState { dragging_entity: None, previous_body_type: None, drag_offset: Point { x: 0, y: 0 } }),
            r.wf(),
    {
        DragState { dragging_entity: None, previous_body_type: None, drag_offset: Point { x: 0, y: 0 } }
    }

    /// The press edge: when nothing is being dragged, picks the draggable
    /// body nearest to the cursor within `DRAG_PICK_RADIUS`; `bodies[i]` is
    /// the body type of `candidates[i]`. Returns whether a drag started.
    pub fn start_drag(&mut self, pressed: bool, cursor: Option<Point>, candidates: &Vec<Candidate>, bodies: &Vec<BodyType>) -> (started: bool)
        requires
            old(self).wf(),
            candidates.len() == bodies.len(),
            cursor matches Some(c) ==> c.in_world(),
            forall|i: int| 0 <= i < candidates.len() ==> (#[trigger] candidates[i]).position.in_world(),
        ensures
            final(self).wf(),
            !pressed || old(self).dragging_entity is Some || cursor is None ==> !started && *final(self) == *old(self),
            pressed && old(self).dragging_entity is None && cursor is Some ==> {
                let c = cursor.unwrap();
                &&& started <==> exists|i: int| 0 <= i < candidates.len()
                    && #[trigger] dist_sq(candidates[i].position, c) < DRAG_PICK_RADIUS * DRAG_PICK_RADIUS
                &&& !started ==> *final(self) == *old(self)
                &&& started ==> exists|k: int| {
                    &&& closest_index(candidates@, c, DRAG_PICK_RADIUS as int, k)
                    &&& *final(self) == (DragState {
                        dragging_entity: Some(candidates[k].id),
                        previous_body_type: Some(bodies[k]),
                        drag_offset: Point {
                            x: (candidates[k].position.x - c.x) as i64,
                            y: (candidates[k].position.y - c.y) as i64,
                        },
                    })
                }
            },
    {
        if !pressed || self.dragging_entity.is_some() {
            return false;
        }
        match cursor {
            None => false,
            Some(c) => match closest_candidate(candidates, c, DRAG_PICK_RADIUS) {
                None => false,
                Some(k) => {
                    let pick = candidates[k];
                    self.dragging_entity = Some(pick.id);
                    self.previous_body_type = Some(bodies[k]);
                    self.drag_offset = Point { x: pick.position.x - c.x, y: pick.position.y - c.y };
                    true
                },
            },
        }
    }

    /// While dragging: the body and where it is to be moved, the cursor
    /// plus the offset taken at the press. The caller makes it kinematic
    /// and stops it there.
    pub fn drag_target(&self, cursor: Option<Point>) -> (r: Option<(EntityId, Point)>)
        requires
            self.wf(),
            cursor matches Some(c) ==> c.in_world(),
        ensures
            r == match (self.dragging_entity, cursor) {
                (Some(e), Some(c)) => Some((e, Point {
                    x: (c.x + self.drag_offset.x) as i64,
                    y: (c.y + self.drag_offset.y) as i64,
                })),
                _ => None,
            },
    {
        match (self.dragging_entity, cursor) {
            (Some(e), Some(c)) => Some((e, Point { x: c.x + self.drag_offset.x, y: c.y + self.drag_offset.y })),
            _ => None,
        }
    }

    /// The release edge: ends the drag and returns the body with the body
    /// type to give back to it.
    pub fn end_drag(&mut self, released: bool) -> (r: Option<(EntityId, Option<BodyType>)>)
        requires
            old(self).wf(),
        ensures
            final(self).wf(),
            !released || old(self).dragging_entity is None ==> r is None && *final(self) == *old(self),
            released && old(self).dragging_entity is Some ==> {
                &&& r == Some((old(self).dragging_entity.unwrap(), old(self).previous_body_type))
                &&& *final(self) == (DragState {
                    dragging_entity: None,
                    previous_body_type: None,
                    drag_offset: Point { x: 0, y: 0 },
                })
            },
    {
        if !released {
            return None;
        }
        match self.dragging_entity {
            None => None,
            Some(e) => {
                let body = self.previous_body_type;
                self.dragging_entity = None;
                self.previous_body_type = None;
                self.drag_offset = Point { x: 0, y: 0 };
                Some((e, body))
            },
        }
    }
}

/// Smallest and largest side of a box laid out by dragging.
pub const MIN_CREATE_SIZE: i64 = 20;
pub const MAX_CREATE_SIZE: i64 = 500;

/// Health of a wooden box of side 60, in milli-hit-points; larger boxes get
/// more in proportion to their area.
pub const BOX_HEALTH_PER_3600: i64 = 100_000;

/// A box laid out between two corners.
#[derive(Clone, Copy, Debug, PartialEq, Eq, Structural)]
pub struct CreateRect {
    pub center: Point,
    pub size: Point,
}

/// Side of the box for a drag of `d` along one axis.
pub open spec fn side_of(d: int) -> int {
    let a = if d >= 0 { d } else { -d };
    if a < MIN_CREATE_SIZE { MIN_CREATE_SIZE as int } else if a > MAX_CREATE_SIZE { MAX_CREATE_SIZE as int } else { a }
}

/// The box between `start` and `current`, centred between them, each side
/// the drag's extent held within `[MIN_CREATE_SIZE, MAX_CREATE_SIZE]`.
pub open spec fn rect_of(start: Point, current: Point) -> CreateRect {
    CreateRect {
        center: Point {
            x: crate::fixed::mul_div(start.x + current.x, 1, 2) as i64,
            y: crate::fixed::mul_div(start.y + current.y, 1, 2) as i64,
        },
        size: Point { x: side_of(current.x - start.x) as i64, y: side_of(current.y - start.y) as i64 },
    }
}

fn side(d: i64) -> (r: i64)
    requires
        -2 * MAX_COORD <= d <= 2 * MAX_COORD,
    ensures
        r == side_of(d as int),
{
    let a = if d >= 0 { d } else { -d };
    if a < MIN_CREATE_SIZE {
        MIN_CREATE_SIZE
    } else if a > MAX_CREATE_SIZE {
        MAX_CREATE_SIZE
    } else {
        a
    }
}

pub fn creation_rect(start: Point, current: Point) -> (r: CreateRect)
    requires
        start.in_world(),
        current.in_world(),
    ensures
        r == rect_of(start, current),
{
    CreateRect {
        center: Point {
            x: crate::fixed::mul_div_signed(start.x + current.x, 1, 2),
            y: crate::fixed::mul_div_signed(start.y + current.y, 1, 2),
        },
        size: Point { x: side(current.x - start.x), y: side(current.y - start.y) },
    }
}

/// Health of a wooden box of `size`: `BOX_HEALTH_PER_3600` for each 3600
/// square units of area.
pub open spec fn box_health_of(size: Point) -> int {
    (BOX_HEALTH_PER_3600 * (size.x * size.y)) / 3600
}

pub fn box_health(size: Point) -> (h: i64)
    requires
        MIN_CREATE_SIZE <= size.x <= MAX_CREATE_SIZE,
        MIN_CREATE_SIZE <= size.y <= MAX_CREATE_SIZE,
    ensures
        h == box_health_of(size),
        0 < h <= crate::health::MAX_HEALTH,
{
    proof {
        assert(400 <= size.x * size.y <= 250_000) by (nonlinear_arith)
            requires
                MIN_CREATE_SIZE <= size.x <= MAX_CREATE_SIZE,
                MIN_CREATE_SIZE <= size.y <= MAX_CREATE_SIZE,
        ;
    }
    (BOX_HEALTH_PER_3600 * (size.x * size.y)) / 3600
}

/// A box being laid out by dragging over empty space.
#[derive(Clone, Copy, Debug, PartialEq, Eq, Structural)]
pub struct CreateDragState {
    pub is_creating: bool,
    pub start_position: Point,
}

impl CreateDragState {
    pub fn idle() -> (r: CreateDragState)
        ensures
            r == (CreateDragState { is_creating: false, start_position: Point { x: 0, y: 0 } }),
    {
        CreateDragState { is_creating: false, start_position: Point { x: 0, y: 0 } }
    }

    /// The press edge: starts laying out a box at the cursor when no body is
    /// being dragged, none is being laid out, and the tool makes boxes.
    pub fn start_create(&mut self, pressed: bool, dragging_object: bool, makes_boxes: bool, cursor: Option<Point>) -> (started: bool)
        ensures
            started == (pressed && !dragging_object && !old(self).is_creating && makes_boxes && cursor is Some),
            started ==> *final(self) == (CreateDragState { is_creating: true, start_position: cursor.unwrap() }),
            !started ==> *final(self) == *old(self),
    {
        if !pressed || dragging_object || self.is_creating || !makes_boxes {
            return false;
        }
        match cursor {
            Some(c) => {
                self.is_creating = true;
                self.start_position = c;
                true
            },
            None => false,
        }
    }

    /// The release edge: ends the layout and gives the box to spawn, spanned
    /// from the press point to `last_cursor`.
    pub fn end_create(&mut self, released: bool, last_cursor: Point) -> (r: Option<CreateRect>)
        requires
            old(self).start_position.in_world(),
            last_cursor.in_world(),
        ensures
            !released || !old(self).is_creating ==> r is None && *final(self) == *old(self),
            released && old(self).is_creating ==> r == Some(rect_of(old(self).start_position, last_cursor))
                && *final(self) == (CreateDragState { is_creating: false, start_position: Point { x: 0, y: 0 } }),
    {
        if !released || !self.is_creating {
            return None;
        }
        let rect = creation_rect(self.start_position, last_cursor);
        self.is_creating = false;
        self.start_position = Point { x: 0, y: 0 };
        Some(rect)
    }
}

} // verus!
