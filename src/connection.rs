//! User-made connections between two bodies: the material table, the
//! drag-to-connect state machine, the plan of the connector that a finished
//! drag creates, and the per-tick break check with orphan cleanup.
use vstd::prelude::*;
use crate::fixed::{dist_sq, distance_sq, isqrt, mul_div, mul_div_signed, sqrt_floor, Point, MAX_COORD};
use crate::health::EntityId;
use crate::world::{is_alive_in, Slot, World};

verus! {

/// Material of a connection.
#[derive(Clone, Copy, Debug, PartialEq, Eq, Structural)]
pub enum ConnectionMaterial {
    Wood,
    Metal,
    Rope,
    Plastic,
}

/// A colour, each channel in parts per thousand.
#[derive(Clone, Copy, Debug, PartialEq, Eq, Structural)]
pub struct Rgb {
    pub red: i64,
    pub green: i64,
    pub blue: i64,
}

/// Force above which a connection of each material breaks.
pub open spec fn break_force_of(m: ConnectionMaterial) -> int {
    match m {
        ConnectionMaterial::Wood => 5000,
        ConnectionMaterial::Metal => 50000,
        ConnectionMaterial::Rope => 1500,
        ConnectionMaterial::Plastic => 3000,
    }
}

/// Connector properties of each material: width in world units, density in
/// thousandths, and health multiplier in thousandths.
pub open spec fn connector_properties_of(m: ConnectionMaterial) -> (int, int, int) {
    match m {
        ConnectionMaterial::Wood => (6, 600, 1000),
        ConnectionMaterial::Metal => (4, 7800, 2000),
        ConnectionMaterial::Rope => (3, 300, 500),
        ConnectionMaterial::Plastic => (5, 900, 1500),
    }
}

impl ConnectionMaterial {
    /// Compliance (inverse stiffness), in units of 1e-7.
    pub fn compliance(&self) -> (r: i64)
        ensures
            r == match *self {
                ConnectionMaterial::Wood => 100i64,
                ConnectionMaterial::Metal => 10,
                ConnectionMaterial::Rope => 1000,
                ConnectionMaterial::Plastic => 500,
            },
    {
        match self {
            ConnectionMaterial::Wood => 100,
            ConnectionMaterial::Metal => 10,
            ConnectionMaterial::Rope => 1000,
            ConnectionMaterial::Plastic => 500,
        }
    }

    /// Damping coefficient, in thousandths.
    pub fn damping(&self) -> (r: i64)
        ensures
            r == match *self {
                ConnectionMaterial::Wood => 500i64,
                ConnectionMaterial::Metal => 100,
                ConnectionMaterial::Rope => 2000,
                ConnectionMaterial::Plastic => 1000,
            },
    {
        match self {
            ConnectionMaterial::Wood => 500,
            ConnectionMaterial::Metal => 100,
            ConnectionMaterial::Rope => 2000,
            ConnectionMaterial::Plastic => 1000,
        }
    }

    /// Colour of the connector: brown, silver, tan or blue.
    pub fn color(&self) -> (r: Rgb)
        ensures
            r == match *self {
                ConnectionMaterial::Wood => Rgb { red: 600, green: 400, blue: 200 },
                ConnectionMaterial::Metal => Rgb { red: 700, green: 700, blue: 800 },
                ConnectionMaterial::Rope => Rgb { red: 800, green: 700, blue: 500 },
                ConnectionMaterial::Plastic => Rgb { red: 300, green: 600, blue: 900 },
            },
    {
        match self {
            ConnectionMaterial::Wood => Rgb { red: 600, green: 400, blue: 200 },
            ConnectionMaterial::Metal => Rgb { red: 700, green: 700, blue: 800 },
            ConnectionMaterial::Rope => Rgb { red: 800, green: 700, blue: 500 },
            ConnectionMaterial::Plastic => Rgb { red: 300, green: 600, blue: 900 },
        }
    }

    /// Thickness of the drawn line, in thousandths of a world unit.
    pub fn thickness(&self) -> (r: i64)
        ensures
            r == match *self {
                ConnectionMaterial::Wood => 4000i64,
                ConnectionMaterial::Metal => 3000,
                ConnectionMaterial::Rope => 2000,
                ConnectionMaterial::Plastic => 3500,
            },
    {
        match self {
            ConnectionMaterial::Wood => 4000,
            ConnectionMaterial::Metal => 3000,
            ConnectionMaterial::Rope => 2000,
            ConnectionMaterial::Plastic => 3500,
        }
    }

    /// Force above which a connection of this material breaks.
    pub fn break_force(&self) -> (r: i64)
        ensures
            r == break_force_of(*self),
    {
        match self {
            ConnectionMaterial::Wood => 5000,
            ConnectionMaterial::Metal => 50000,
            ConnectionMaterial::Rope => 1500,
            ConnectionMaterial::Plastic => 3000,
        }
    }

    /// Width, density and health multiplier of the connector.
    pub fn connector_properties(&self) -> (r: (i64, i64, i64))
        ensures
            (r.0 as int, r.1 as int, r.2 as int) == connector_properties_of(*self),
    {
        match self {
            ConnectionMaterial::Wood => (6, 600, 1000),
            ConnectionMaterial::Metal => (4, 7800, 2000),
            ConnectionMaterial::Rope => (3, 300, 500),
            ConnectionMaterial::Plastic => (5, 900, 1500),
        }
    }

    /// Least linear and angular damping, in thousandths, that the bodies a
    /// connection of this material holds are given to calm oscillation.
    pub fn extra_damping(&self) -> (r: (i64, i64))
        ensures
            r == match *self {
                ConnectionMaterial::Wood => (300i64, 800i64),
                ConnectionMaterial::Metal => (100, 300),
                ConnectionMaterial::Rope => (600, 1500),
                ConnectionMaterial::Plastic => (400, 1000),
            },
    {
        match self {
            ConnectionMaterial::Wood => (300, 800),
            ConnectionMaterial::Metal => (100, 300),
            ConnectionMaterial::Rope => (600, 1500),
            ConnectionMaterial::Plastic => (400, 1000),
        }
    }
}

impl Default for ConnectionMaterial {
    fn default() -> (r: ConnectionMaterial)
        ensures
            r == ConnectionMaterial::Metal,
    {
        ConnectionMaterial::Metal
    }
}

/// Damping of a body after a connection asked for at least `extra`.
pub fn raised_damping(current: (i64, i64), extra: (i64, i64)) -> (r: (i64, i64))
    ensures
        r.0 == if current.0 >= extra.0 { current.0 } else { extra.0 },
        r.1 == if current.1 >= extra.1 { current.1 } else { extra.1 },
{
    (if current.0 >= extra.0 { current.0 } else { extra.0 }, if current.1 >= extra.1 { current.1 } else { extra.1 })
}

/// Kind of joint a connection makes.
#[derive(Clone, Copy, Debug, PartialEq, Eq, Structural)]
pub enum ConstraintType {
    /// No relative rotation, like a nail.
    Fixed,
    /// Free rotation about the anchor, like a bearing.
    Hinge,
}

/// The connection settings chosen in the user interface.
#[derive(Clone, Copy, Debug, PartialEq, Eq, Structural)]
pub struct SelectionState {
    pub constraint_type: ConstraintType,
    pub material: ConnectionMaterial,
    pub is_enabled: bool,
}

impl Default for SelectionState {
    fn default() -> (r: SelectionState)
        ensures
            r == (SelectionState {
                constraint_type: ConstraintType::Fixed,
                material: ConnectionMaterial::Metal,
                is_enabled: false,
            }),
    {
        SelectionState { constraint_type: ConstraintType::Fixed, material: ConnectionMaterial::Metal, is_enabled: false }
    }
}

/// A connection being dragged from a body.
#[derive(Clone, Copy, Debug, PartialEq, Eq, Structural)]
pub struct DragConnectionState {
    pub is_dragging: bool,
    pub start_entity: Option<EntityId>,
    /// Where the drag started, on the start body.
    pub start_position: Point,
}

impl Default for DragConnectionState {
    fn default() -> (r: DragConnectionState)
        ensures
            r == (DragConnectionState { is_dragging: false, start_entity: None, start_position: Point { x: 0, y: 0 } }),
    {
        DragConnectionState { is_dragging: false, start_entity: None, start_position: Point { x: 0, y: 0 } }
    }
}

/// A press starts a drag when connecting is enabled, no object and no
/// connection is being dragged, and the cursor is over a connectable body.
pub open spec fn starts_drag(
    state: DragConnectionState,
    selection: SelectionState,
    dragging_object: bool,
    pressed: bool,
    cursor: Option<Point>,
    picked: Option<EntityId>,
) -> bool {
    selection.is_enabled && !dragging_object && !state.is_dragging && pressed && cursor is Some && picked is Some
}

impl DragConnectionState {
    /// The press edge of the mouse: `picked` is the connectable body under
    /// the cursor, if any. Returns whether a drag started, anchored at the
    /// exact click point.
    pub fn start_drag_connection(
        &mut self,
        selection: &SelectionState,
        dragging_object: bool,
        pressed: bool,
        cursor: Option<Point>,
        picked: Option<EntityId>,
    ) -> (started: bool)
        ensures
            started == starts_drag(*old(self), *selection, dragging_object, pressed, cursor, picked),
            started ==> *final(self) == (DragConnectionState {
                is_dragging: true,
                start_entity: picked,
                start_position: cursor.unwrap(),
            }),
            !started ==> *final(self) == *old(self),
    {
        if !selection.is_enabled || dragging_object || self.is_dragging || !pressed {
            return false;
        }
        match (cursor, picked) {
            (Some(c), Some(_)) => {
                self.is_dragging = true;
                self.start_entity = picked;
                self.start_position = c;
                true
            },
            _ => false,
        }
    }
}

/// Everything needed to build a connection: two joints through a connector
/// body laid between the two click points.
#[derive(Clone, Copy, Debug, PartialEq, Eq, Structural)]
pub struct ConnectionPlan {
    pub start: EntityId,
    pub end: EntityId,
    pub start_click: Point,
    pub end_click: Point,
    pub kind: ConstraintType,
    pub material: ConnectionMaterial,
    /// Midpoint of the two clicks, where the connector is centred.
    pub connector_center: Point,
    /// Distance between the clicks, the connector's length.
    pub connector_length: i64,
    /// Click points relative to the centres of the bodies.
    pub anchor_on_start: Point,
    pub anchor_on_end: Point,
    /// Ends of the connector in its own frame, along its length.
    pub anchor_on_connector_start: Point,
    pub anchor_on_connector_end: Point,
    /// Health of the connector, in milli-hit-points.
    pub connector_health: i64,
}

/// Health of a connector of `length`: two hit points per unit of length,
/// scaled by the material's multiplier.
pub open spec fn connector_health_of(length: int, m: ConnectionMaterial) -> int {
    length * connector_properties_of(m).2 * 2
}

/// The plan for a connection dragged from `start_click` on body `start` at
/// `start_body` to `end_click` on body `end` at `end_body`.
pub open spec fn plan_of(
    start: EntityId,
    end: EntityId,
    start_click: Point,
    end_click: Point,
    start_body: Point,
    end_body: Point,
    selection: SelectionState,
) -> ConnectionPlan {
    let len = sqrt_floor(dist_sq(end_click, start_click));
    ConnectionPlan {
        start,
        end,
        start_click,
        end_click,
        kind: selection.constraint_type,
        material: selection.material,
        connector_center: Point {
            x: mul_div(start_click.x + end_click.x, 1, 2) as i64,
            y: mul_div(start_click.y + end_click.y, 1, 2) as i64,
        },
        connector_length: len as i64,
        anchor_on_start: Point { x: (start_click.x - start_body.x) as i64, y: (start_click.y - start_body.y) as i64 },
        anchor_on_end: Point { x: (end_click.x - end_body.x) as i64, y: (end_click.y - end_body.y) as i64 },
        anchor_on_connector_start: Point { x: (-(len / 2)) as i64, y: 0 },
        anchor_on_connector_end: Point { x: (len / 2) as i64, y: 0 },
        connector_health: connector_health_of(len, selection.material) as i64,
    }
}

pub fn plan_connection(
    start: EntityId,
    end: EntityId,
    start_click: Point,
    end_click: Point,
    start_body: Point,
    end_body: Point,
    selection: &SelectionState,
) -> (r: ConnectionPlan)
    requires
        start_click.in_world(),
        end_click.in_world(),
        start_body.in_world(),
        end_body.in_world(),
    ensures
        r == plan_of(start, end, start_click, end_click, start_body, end_body, *selection),
{
    let d2 = distance_sq(end_click, start_click);
    let len = isqrt(d2);
    proof {
        assert(len <= 3 * MAX_COORD) by (nonlinear_arith)
            requires
                len * len <= d2,
                d2 <= 8 * MAX_COORD * MAX_COORD,
                len >= 0,
        ;
    }
    let len = len as i64;
    let (_, _, mult) = selection.material.connector_properties();
    let center = Point {
        x: mul_div_signed(start_click.x + end_click.x, 1, 2),
        y: mul_div_signed(start_click.y + end_click.y, 1, 2),
    };
    ConnectionPlan {
        start,
        end,
        start_click,
        end_click,
        kind: selection.constraint_type,
        material: selection.material,
        connector_center: center,
        connector_length: len,
        anchor_on_start: Point { x: start_click.x - start_body.x, y: start_click.y - start_body.y },
        anchor_on_end: Point { x: end_click.x - end_body.x, y: end_click.y - end_body.y },
        anchor_on_connector_start: Point { x: -(len / 2), y: 0 },
        anchor_on_connector_end: Point { x: len / 2, y: 0 },
        connector_health: len * mult * 2,
    }
}

/// What the release edge of a drag gives: a plan when released over a
/// second, distinct connectable body whose position, like that of the start
/// body, is known; nothing otherwise.
pub open spec fn release_plan_of(
    state: DragConnectionState,
    selection: SelectionState,
    cursor: Option<Point>,
    picked: Option<EntityId>,
    start_body: Option<Point>,
    end_body: Option<Point>,
) -> Option<ConnectionPlan> {
    match (state.start_entity, cursor, picked, start_body, end_body) {
        (Some(s), Some(c), Some(p), Some(sb), Some(eb)) => if p != s {
            Some(plan_of(s, p, state.start_position, c, sb, eb, selection))
        } else {
            None
        },
        _ => None,
    }
}

impl DragConnectionState {
    /// The release edge of the mouse while dragging a connection: `picked`
    /// is the connectable body under the cursor, `start_body` and
    /// `end_body` the positions of the start body and of `picked`, `None`
    /// for a body that is gone. A release always ends the drag.
    pub fn end_drag_connection(
        &mut self,
        selection: &SelectionState,
        released: bool,
        cursor: Option<Point>,
        picked: Option<EntityId>,
        start_body: Option<Point>,
        end_body: Option<Point>,
    ) -> (r: Option<ConnectionPlan>)
        requires
            old(self).start_position.in_world(),
            cursor matches Some(c) ==> c.in_world(),
            start_body matches Some(p) ==> p.in_world(),
            end_body matches Some(p) ==> p.in_world(),
        ensures
            !old(self).is_dragging || !released ==> r is None && *final(self) == *old(self),
            old(self).is_dragging && released ==> {
                &&& r == release_plan_of(*old(self), *selection, cursor, picked, start_body, end_body)
                &&& *final(self) == (DragConnectionState {
                    is_dragging: false,
                    start_entity: None,
                    start_position: Point { x: 0, y: 0 },
                })
            },
    {
        if !self.is_dragging || !released {
            return None;
        }
        let plan = match (self.start_entity, cursor, picked, start_body, end_body) {
            (Some(s), Some(c), Some(p), Some(sb), Some(eb)) => if p != s {
                Some(plan_connection(s, p, self.start_position, c, sb, eb, selection))
            } else {
                None
            },
            _ => None,
        };
        self.is_dragging = false;
        self.start_entity = None;
        self.start_position = Point { x: 0, y: 0 };
        plan
    }
}

/// A connection between bodies `a` and `b`.
#[derive(Clone, Copy, Debug, PartialEq, Eq, Structural)]
pub struct Connection {
    pub a: EntityId,
    pub b: EntityId,
    pub anchor_a: Point,
    pub anchor_b: Point,
    pub kind: ConstraintType,
    pub material: ConnectionMaterial,
    pub break_force: i64,
    /// The joint force sampled on the last tick.
    pub current_force: i64,
}

/// A sampled force breaks a connection when it exceeds the break force.
pub open spec fn breaks(force: int, break_force: int) -> bool {
    force > break_force
}

impl Connection {
    /// The connection record of a plan, with its material's break force.
    pub fn from_plan(plan: &ConnectionPlan) -> (c: Connection)
        ensures
            c.a == plan.start,
            c.b == plan.end,
            c.anchor_a == plan.anchor_on_start,
            c.anchor_b == plan.anchor_on_end,
            c.kind == plan.kind,
            c.material == plan.material,
            c.break_force == break_force_of(plan.material),
            c.current_force == 0,
    {
        Connection {
            a: plan.start,
            b: plan.end,
            anchor_a: plan.anchor_on_start,
            anchor_b: plan.anchor_on_end,
            kind: plan.kind,
            material: plan.material,
            break_force: plan.material.break_force(),
            current_force: 0,
        }
    }

    pub fn should_break(&self, force: i64) -> (r: bool)
        ensures
            r == breaks(force as int, self.break_force as int),
    {
        force > self.break_force
    }
}

/// A connection survives a tick under `force` when the force does not break
/// it and both of its bodies still exist.
pub open spec fn keeps(c: Connection, force: int, s: Seq<Slot>) -> bool {
    !breaks(force, c.break_force as int) && is_alive_in(s, c.a) && is_alive_in(s, c.b)
}

/// The connections left after the first `n` were checked under `forces`,
/// each with its sampled force recorded.
pub open spec fn kept_after(cs: Seq<Connection>, forces: Seq<i64>, s: Seq<Slot>, n: int) -> Seq<Connection>
    decreases n,
{
    if n <= 0 {
        Seq::empty()
    } else {
        let prev = kept_after(cs, forces, s, n - 1);
        if keeps(cs[n - 1], forces[n - 1] as int, s) {
            prev.push(Connection { current_force: forces[n - 1], ..cs[n - 1] })
        } else {
            prev
        }
    }
}

/// Indices of the connections removed among the first `n`, in order.
pub open spec fn broken_indices(cs: Seq<Connection>, forces: Seq<i64>, s: Seq<Slot>, n: int) -> Seq<usize>
    decreases n,
{
    if n <= 0 {
        Seq::empty()
    } else {
        let prev = broken_indices(cs, forces, s, n - 1);
        if keeps(cs[n - 1], forces[n - 1] as int, s) {
            prev
        } else {
            prev.push((n - 1) as usize)
        }
    }
}

/// The per-tick break check: `forces[i]` is the force the physics engine
/// reports on the joint of `connections[i]`. A connection whose force
/// exceeds its break force, or one of whose bodies is gone, is removed; its
/// index in the old list is returned, so that its joint and connector can be
/// destroyed with it. The others stay, in order, with the force recorded.
pub fn break_check(connections: &mut Vec<Connection>, forces: &Vec<i64>, world: &World) -> (removed: Vec<usize>)
    requires
        old(connections).len() == forces.len(),
    ensures
        final(connections)@ == kept_after(old(connections)@, forces@, world.view(), forces.len() as int),
        removed@ == broken_indices(old(connections)@, forces@, world.view(), forces.len() as int),
{
    let mut kept: Vec<Connection> = Vec::new();
    let mut removed: Vec<usize> = Vec::new();
    let mut i: usize = 0;
    while i < connections.len()
        invariant
            i <= connections.len(),
            connections.len() == forces.len(),
            *connections == *old(connections),
            kept@ == kept_after(connections@, forces@, world.view(), i as int),
            removed@ == broken_indices(connections@, forces@, world.view(), i as int),
        decreases connections.len() - i,
    {
        let c = connections[i];
        let f = forces[i];
        if !c.should_break(f) && world.is_alive(c.a) && world.is_alive(c.b) {
            kept.push(Connection { current_force: f, ..c });
        } else {
            removed.push(i);
        }
        i += 1;
    }
    *connections = kept;
    removed
}

/// One connection checked by `break_check` alone over consecutive ticks, with
/// `forces[t]` sampled on tick `t`: the record left after the first `n`
/// ticks, or `None` once a tick removed it.
pub open spec fn after_ticks(c: Connection, forces: Seq<i64>, s: Seq<Slot>, n: int) -> Option<Connection>
    decreases n,
{
    if n <= 0 {
        Some(c)
    } else {
        match after_ticks(c, forces, s, n - 1) {
            Some(p) => {
                let k = kept_after(seq![p], seq![forces[n - 1]], s, 1);
                if k.len() == 1 { Some(k[0]) } else { None }
            },
            None => None,
        }
    }
}

proof fn lemma_one_tick(p: Connection, f: i64, s: Seq<Slot>)
    ensures
        kept_after(seq![p], seq![f], s, 1) == (if keeps(p, f as int, s) {
            seq![Connection { current_force: f, ..p }]
        } else {
            Seq::<Connection>::empty()
        }),
{
    assert(seq![p][0] == p);
    assert(seq![f][0] == f);
    assert(kept_after(seq![p], seq![f], s, 0) == Seq::<Connection>::empty());
    assert(Seq::<Connection>::empty().push(Connection { current_force: f, ..p })
        == seq![Connection { current_force: f, ..p }]);
}

proof fn lemma_ticks_keep_identity(c: Connection, forces: Seq<i64>, s: Seq<Slot>, n: int)
    requires
        0 <= n <= forces.len(),
    ensures
        after_ticks(c, forces, s, n) matches Some(p) ==> p.a == c.a && p.b == c.b && p.break_force == c.break_force,
    decreases n,
{
    if n > 0 {
        lemma_ticks_keep_identity(c, forces, s, n - 1);
        if let Some(p) = after_ticks(c, forces, s, n - 1) {
            lemma_one_tick(p, forces[n - 1], s);
        }
    }
}

/// A connection between two living bodies whose sampled force never exceeds
/// its break force stays joined for any number of ticks.
pub proof fn lemma_holds_under_threshold(c: Connection, forces: Seq<i64>, s: Seq<Slot>, n: int)
    requires
        0 <= n <= forces.len(),
        is_alive_in(s, c.a),
        is_alive_in(s, c.b),
        forall|t: int| 0 <= t < forces.len() ==> #[trigger] forces[t] <= c.break_force,
    ensures
        after_ticks(c, forces, s, n) is Some,
    decreases n,
{
    if n > 0 {
        lemma_holds_under_threshold(c, forces, s, n - 1);
        lemma_ticks_keep_identity(c, forces, s, n - 1);
        let p = after_ticks(c, forces, s, n - 1).unwrap();
        lemma_one_tick(p, forces[n - 1], s);
    }
}

/// A connection is gone after any tick whose sampled force exceeds its
/// break force, and stays gone.
pub proof fn lemma_breaks_over_threshold(c: Connection, forces: Seq<i64>, s: Seq<Slot>, t: int, n: int)
    requires
        0 <= t < n <= forces.len(),
        forces[t] > c.break_force,
    ensures
        after_ticks(c, forces, s, n) is None,
    decreases n,
{
    if n - 1 > t {
        lemma_breaks_over_threshold(c, forces, s, t, n - 1);
    } else {
        lemma_ticks_keep_identity(c, forces, s, n - 1);
        if let Some(p) = after_ticks(c, forces, s, n - 1) {
            lemma_one_tick(p, forces[n - 1], s);
        }
    }
}

/// A force just under the break force never breaks a connection between
/// two living bodies within the tick; one just over it always removes it.
pub proof fn lemma_break_threshold(c: Connection, eps: int, s: Seq<Slot>)
    requires
        eps > 0,
        i64::MIN <= c.break_force - eps,
        c.break_force + eps <= i64::MAX,
        is_alive_in(s, c.a),
        is_alive_in(s, c.b),
    ensures
        kept_after(seq![c], seq![(c.break_force - eps) as i64], s, 1)
            == seq![Connection { current_force: (c.break_force - eps) as i64, ..c }],
        kept_after(seq![c], seq![(c.break_force + eps) as i64], s, 1) == Seq::<Connection>::empty(),
        broken_indices(seq![c], seq![(c.break_force + eps) as i64], s, 1) == seq![0usize],
{
    assert(kept_after(seq![c], seq![(c.break_force - eps) as i64], s, 0) == Seq::<Connection>::empty());
    assert(Seq::<Connection>::empty().push(Connection { current_force: (c.break_force - eps) as i64, ..c })
        == seq![Connection { current_force: (c.break_force - eps) as i64, ..c }]);
    assert(Seq::<Connection>::empty().push(c) == seq![c]);
    let plus = seq![(c.break_force + eps) as i64];
    assert(plus[0] == c.break_force + eps);
    assert(seq![c][0] == c);
    assert(kept_after(seq![c], plus, s, 0) == Seq::<Connection>::empty());
    assert(broken_indices(seq![c], plus, s, 0) == Seq::<usize>::empty());
    assert(Seq::<usize>::empty().push(0usize) == seq![0usize]);
    assert(!keeps(seq![c][0], plus[0] as int, s));
}

/// What the toolbar offers.
#[derive(Clone, Copy, Debug, PartialEq, Eq, Structural)]
pub enum ObjectType {
    Ragdoll,
    Bomb,
    WoodenBox,
    IronBlock,
    Fire,
    FixedConstraint,
    HingeConstraint,
    MaterialWood,
    MaterialMetal,
    MaterialRope,
    MaterialPlastic,
}

/// How a toolbar choice changes the connection settings.
pub open spec fn selected(s: SelectionState, choice: ObjectType) -> SelectionState {
    match choice {
        ObjectType::FixedConstraint => SelectionState { is_enabled: true, constraint_type: ConstraintType::Fixed, ..s },
        ObjectType::HingeConstraint => SelectionState { is_enabled: true, constraint_type: ConstraintType::Hinge, ..s },
        ObjectType::MaterialWood => SelectionState { material: ConnectionMaterial::Wood, ..s },
        ObjectType::MaterialMetal => SelectionState { material: ConnectionMaterial::Metal, ..s },
        ObjectType::MaterialRope => SelectionState { material: ConnectionMaterial::Rope, ..s },
        ObjectType::MaterialPlastic => SelectionState { material: ConnectionMaterial::Plastic, ..s },
        _ => SelectionState { is_enabled: false, ..s },
    }
}

/// A change of connect mode that the toolbar shows: the material buttons
/// appear when it turns on and go when it turns off.
#[derive(Clone, Copy, Debug, PartialEq, Eq, Structural)]
pub enum ModeChange {
    Unchanged,
    Enabled,
    Disabled,
}

impl SelectionState {
    /// Applies a toolbar choice: a constraint turns connect mode on with
    /// its kind, a material changes the material and leaves the mode as it
    /// is, anything else turns connect mode off.
    pub fn select(&mut self, choice: ObjectType) -> (r: ModeChange)
        ensures
            *final(self) == selected(*old(self), choice),
            r == (if !old(self).is_enabled && final(self).is_enabled {
                ModeChange::Enabled
            } else if old(self).is_enabled && !final(self).is_enabled {
                ModeChange::Disabled
            } else {
                ModeChange::Unchanged
            }),
    {
        let was_enabled = self.is_enabled;
        match choice {
            ObjectType::FixedConstraint => {
                self.is_enabled = true;
                self.constraint_type = ConstraintType::Fixed;
            },
            ObjectType::HingeConstraint => {
                self.is_enabled = true;
                self.constraint_type = ConstraintType::Hinge;
            },
            ObjectType::MaterialWood => self.material = ConnectionMaterial::Wood,
            ObjectType::MaterialMetal => self.material = ConnectionMaterial::Metal,
            ObjectType::MaterialRope => self.material = ConnectionMaterial::Rope,
            ObjectType::MaterialPlastic => self.material = ConnectionMaterial::Plastic,
            _ => self.is_enabled = false,
        }
        if !was_enabled && self.is_enabled {
            ModeChange::Enabled
        } else if was_enabled && !self.is_enabled {
            ModeChange::Disabled
        } else {
            ModeChange::Unchanged
        }
    }
}

} // verus!
