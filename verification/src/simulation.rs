//! The simulation: a scene of objects, the physics that moves them, the
//! inputs that steer the view, and the renderer that shows the result.

use vstd::prelude::*;
use crate::model::Primitive;
use crate::navigation::{
    lemma_pan_composes, pan_in_range, pan_region, panned, zoomed, ZoomFactor,
};
use crate::numeric::Vector;
use crate::physics::{new_body, stepped, Body, BodyId, PhysicsEngine, Pose};
use crate::renderer::{lemma_frame_presents_what_was_drawn, Renderer};
use crate::view::{region_check, Region, RegionError};

verus! {

/// One thing in the scene: a shape, and the body that carries it, if any.
#[derive(Clone, Copy, Debug, PartialEq, Eq)]
pub struct Object {
    pub graphics_model: Primitive,
    pub physics_body: Option<BodyId>,
    pub id: u32,
}

/// What the user currently asks of the view.
#[derive(Clone, Copy, Debug, PartialEq, Eq)]
pub struct Inputs {
    /// How fast the view moves, in quanta per tick along each axis.
    pub view_region_scroll_speed: (i32, i32),
    pub view_region_scroll_speed_multiplier: i32,
    /// How fast the view zooms; positive shows less, larger.
    pub view_region_zoom_speed: i32,
    pub view_region_zoom_speed_multiplier: i32,
}

/// Why an object could not be added.
#[derive(Clone, Copy, Debug, PartialEq, Eq)]
pub enum SimulationError {
    /// Every object identifier has been given out.
    IdsExhausted,
}

/// The objects of a simulation, oldest first, and the identifier that the
/// next one will get. Identifiers are given out in increasing order and never
/// again, whatever is removed.
pub struct Scene {
    objects: Vec<Object>,
    object_uid_counter: u32,
}

/// Couples the scene with its physics, its inputs and its renderer.
pub struct Simulation<R: Renderer> {
    pub scene: Scene,
    pub renderer: R,
    pub physics: PhysicsEngine,
    pub inputs: Inputs,
}

impl Default for Inputs {
    fn default() -> (inputs: Inputs)
        ensures
            inputs == (Inputs {
                view_region_scroll_speed: (0i32, 0i32),
                view_region_scroll_speed_multiplier: 1,
                view_region_zoom_speed: 0,
                view_region_zoom_speed_multiplier: 1,
            }),
    {
        Inputs {
            view_region_scroll_speed: (0, 0),
            view_region_scroll_speed_multiplier: 1,
            view_region_zoom_speed: 0,
            view_region_zoom_speed_multiplier: 1,
        }
    }
}

impl Inputs {
    /// Whether the view is being moved or zoomed.
    pub open spec fn navigating(self) -> bool {
        ||| self.view_region_scroll_speed.0 != 0
        ||| self.view_region_scroll_speed.1 != 0
        ||| self.view_region_zoom_speed != 0
    }

    /// How far the view moves in `dt` ticks: speed times time times
    /// multiplier, along each axis.
    pub open spec fn scroll_delta(self, dt: u64) -> (int, int) {
        (
            self.view_region_scroll_speed.0 * dt * self.view_region_scroll_speed_multiplier,
            self.view_region_scroll_speed.1 * dt * self.view_region_scroll_speed_multiplier,
        )
    }

    /// How far the view zooms in `dt` ticks: speed times time times
    /// multiplier. The extent of the view changes by two to the power of
    /// minus this, in the unit of the zoom speed.
    pub open spec fn zoom_exponent(self, dt: u64) -> int {
        self.view_region_zoom_speed * dt * self.view_region_zoom_speed_multiplier
    }

    /// The region shown after `dt` ticks of these inputs, starting from
    /// `region`: first moved, then scaled about its centre. `zoom` is the
    /// scale for this step; it counts only where the zoom exponent is not
    /// zero.
    pub open spec fn navigated(self, region: Region, dt: u64, zoom: ZoomFactor) -> Region {
        let moved = panned(region, self.scroll_delta(dt));
        if self.zoom_exponent(dt) == 0 {
            moved
        } else {
            zoomed(moved, zoom.numer(), zoom.denom())
        }
    }

    /// Computes a rate times a time times a multiplier.
    fn scaled_rate(rate: i32, dt: u64, multiplier: i32) -> (r: i128)
        ensures
            r == rate * dt * multiplier,
    {
        let rate_wide: i128 = rate as i128;
        let dt_wide: i128 = dt as i128;
        let multiplier_wide: i128 = multiplier as i128;
        assert(-0x8000_0000 * 0xffff_ffff_ffff_ffff <= rate_wide * dt_wide <= 0x8000_0000
            * 0xffff_ffff_ffff_ffff) by (nonlinear_arith)
            requires
                -0x8000_0000 <= rate_wide <= 0x8000_0000,
                0 <= dt_wide <= 0xffff_ffff_ffff_ffff,
        ;
        let product: i128 = rate_wide * dt_wide;
        assert(-0x8000_0000 * 0xffff_ffff_ffff_ffff * 0x8000_0000 <= product * multiplier_wide
            <= 0x8000_0000 * 0xffff_ffff_ffff_ffff * 0x8000_0000) by (nonlinear_arith)
            requires
                -0x8000_0000 * 0xffff_ffff_ffff_ffff <= product <= 0x8000_0000
                    * 0xffff_ffff_ffff_ffff,
                -0x8000_0000 <= multiplier_wide <= 0x8000_0000,
        ;
        product * multiplier_wide
    }

    /// Computes how far the view moves in `dt` ticks.
    pub fn scroll_displacement(&self, dt: u64) -> (delta: (i128, i128))
        ensures
            (delta.0 as int, delta.1 as int) == self.scroll_delta(dt),
    {
        (
            Self::scaled_rate(
                self.view_region_scroll_speed.0,
                dt,
                self.view_region_scroll_speed_multiplier,
            ),
            Self::scaled_rate(
                self.view_region_scroll_speed.1,
                dt,
                self.view_region_scroll_speed_multiplier,
            ),
        )
    }

    /// Computes how far the view zooms in `dt` ticks.
    pub fn zoom_step(&self, dt: u64) -> (exponent: i128)
        ensures
            exponent == self.zoom_exponent(dt),
    {
        Self::scaled_rate(self.view_region_zoom_speed, dt, self.view_region_zoom_speed_multiplier)
    }

    /// Computes the region shown after `dt` ticks of these inputs.
    pub fn navigate(&self, region: Region, dt: u64, zoom: ZoomFactor) -> (r: Region)
        ensures
            r == self.navigated(region, dt, zoom),
    {
        let moved = pan_region(region, self.scroll_displacement(dt));
        if self.zoom_step(dt) == 0 {
            moved
        } else {
            zoom.zoom_region(moved)
        }
    }
}

/// Scrolling is linear in time: without zoom, two steps in a row show the
/// region that one step of their combined length shows, as long as the
/// first step keeps the region on the lattice.
pub proof fn lemma_scrolling_composes(
    inputs: Inputs,
    region: Region,
    first: u64,
    second: u64,
    zoom: ZoomFactor,
)
    requires
        inputs.view_region_zoom_speed == 0,
        first + second <= u64::MAX,
        pan_in_range(region, inputs.scroll_delta(first)),
    ensures
        inputs.navigated(inputs.navigated(region, first, zoom), second, zoom) == inputs.navigated(
            region,
            (first + second) as u64,
            zoom,
        ),
{
    let both = (first + second) as u64;
    let (x, y) = inputs.view_region_scroll_speed;
    let m = inputs.view_region_scroll_speed_multiplier;
    let k = inputs.view_region_zoom_speed_multiplier;
    assert(0 * first * k == 0 && 0 * second * k == 0 && 0 * both * k == 0) by (nonlinear_arith);
    assert(x * first * m + x * second * m == x * (first + second) * m) by (nonlinear_arith);
    assert(y * first * m + y * second * m == y * (first + second) * m) by (nonlinear_arith);
    lemma_pan_composes(region, inputs.scroll_delta(first), inputs.scroll_delta(second));
}

/// Zooming the other way takes the exponent to its negative: over the same
/// time, the opposite zoom speed asks for the reciprocal scale.
pub proof fn lemma_opposite_zoom_negates_exponent(inputs: Inputs, dt: u64)
    requires
        inputs.view_region_zoom_speed > i32::MIN,
    ensures
        (Inputs {
            view_region_zoom_speed: (-inputs.view_region_zoom_speed) as i32,
            ..inputs
        }).zoom_exponent(dt) == -inputs.zoom_exponent(dt),
{
    let z = inputs.view_region_zoom_speed as int;
    let k = inputs.view_region_zoom_speed_multiplier as int;
    assert((-z) * dt * k == -(z * dt * k)) by (nonlinear_arith);
}

/// The shape of `object` where it is drawn: moved by the position of its
/// body, or where it stands if it has no body among `bodies`.
pub open spec fn drawn_shape(object: Object, bodies: Seq<Body>) -> Primitive {
    match object.physics_body {
        Some(id) if id.index() < bodies.len() => object.graphics_model.placed(
            bodies[id.index() as int].pose,
        ),
        _ => object.graphics_model,
    }
}

/// The shapes of a scene where they are drawn, in the order of the scene.
pub open spec fn drawn_shapes(scene: Seq<Object>, bodies: Seq<Body>) -> Seq<Primitive> {
    Seq::new(scene.len(), |i: int| drawn_shape(scene[i], bodies))
}

/// A body as `add_object_with_model_at_pos` leaves it: at rest at
/// `position`.
pub open spec fn body_at(id: BodyId, model: Primitive, position: Vector) -> Body {
    Body {
        pose: Pose { position, orientation: 0 },
        ..new_body(id, model.footprint())
    }
}

/// Identifiers grow along `objects` and stay below `next_id`.
pub open spec fn ids_increase(objects: Seq<Object>, next_id: u32) -> bool {
    &&& forall|i: int, j: int| 0 <= i < j < objects.len() ==> objects[i].id < objects[j].id
    &&& forall|i: int| 0 <= i < objects.len() ==> (#[trigger] objects[i]).id < next_id
}

/// Where identifiers grow along a sequence, no two objects share one.
pub proof fn lemma_ids_are_unique(objects: Seq<Object>, next_id: u32)
    requires
        ids_increase(objects, next_id),
    ensures
        forall|i: int, j: int|
            0 <= i < objects.len() && 0 <= j < objects.len() && i != j ==> objects[i].id
                != objects[j].id,
{
    assert forall|i: int, j: int|
        0 <= i < objects.len() && 0 <= j < objects.len() && i != j implies objects[i].id
        != objects[j].id by {
        if i < j {
            assert(objects[i].id < objects[j].id);
        } else {
            assert(objects[j].id < objects[i].id);
        }
    }
}

/// `objects` without those that carry the identifier `id`.
pub open spec fn without(objects: Seq<Object>, id: u32) -> Seq<Object> {
    objects.filter(|object: Object| object.id != id)
}

/// Where identifiers grow along a sequence, taking out those that carry `id`
/// takes out the one object that does, and nothing where none does.
pub proof fn lemma_without_removes_one(objects: Seq<Object>, next_id: u32, id: u32)
    requires
        ids_increase(objects, next_id),
    ensures
        forall|k: int|
            0 <= k < objects.len() && (#[trigger] objects[k]).id == id ==> without(objects, id)
                == objects.remove(k),
        (forall|k: int| 0 <= k < objects.len() ==> (#[trigger] objects[k]).id != id) ==> without(
            objects,
            id,
        ) == objects,
    decreases objects.len(),
{
    reveal(Seq::filter);
    if objects.len() > 0 {
        let front = objects.drop_last();
        let last = objects.last();
        lemma_without_removes_one(front, next_id, id);
        assert forall|k: int| 0 <= k < objects.len() && (#[trigger] objects[k]).id == id implies
            without(objects, id) == objects.remove(k) by {
            if k < objects.len() - 1 {
                assert(front[k].id == id);
                assert(front.remove(k).push(last) =~= objects.remove(k));
            } else {
                assert forall|m: int| 0 <= m < front.len() implies (#[trigger] front[m]).id
                    != id by {
                    assert(objects[m].id < objects[k].id);
                }
                assert(front =~= objects.remove(k));
            }
        }
        if forall|k: int| 0 <= k < objects.len() ==> (#[trigger] objects[k]).id != id {
            assert forall|m: int| 0 <= m < front.len() implies (#[trigger] front[m]).id != id by {
                assert(objects[m].id != id);
            }
            assert(front.push(last) =~= objects);
        }
    }
}

impl View for Scene {
    type V = Seq<Object>;

    closed spec fn view(&self) -> Seq<Object> {
        self.objects@
    }
}

impl Scene {
    #[verifier::type_invariant]
    spec fn identifiers_in_order(&self) -> bool {
        ids_increase(self.objects@, self.object_uid_counter)
    }

    /// The identifier that the next object will get.
    pub closed spec fn next_id(&self) -> u32 {
        self.object_uid_counter
    }

    /// A scene without objects; the first identifier is zero.
    pub fn new() -> (scene: Scene)
        ensures
            scene@ == Seq::<Object>::empty(),
            scene.next_id() == 0,
    {
        Scene { objects: Vec::new(), object_uid_counter: 0 }
    }

    /// A scene without objects whose first identifier is `first_id`.
    pub fn starting_at(first_id: u32) -> (scene: Scene)
        ensures
            scene@ == Seq::<Object>::empty(),
            scene.next_id() == first_id,
    {
        Scene { objects: Vec::new(), object_uid_counter: first_id }
    }

    /// The objects, oldest first. Their identifiers grow along the list and
    /// are all below the next one.
    pub fn objects(&self) -> (objects: &Vec<Object>)
        ensures
            objects@ == self@,
            ids_increase(self@, self.next_id()),
    {
        proof {
            use_type_invariant(self);
        }
        &self.objects
    }

    /// The identifier that the next object will get.
    pub fn next_object_id(&self) -> (id: u32)
        ensures
            id == self.next_id(),
    {
        self.object_uid_counter
    }

    /// Appends an object with the next identifier. When none is left,
    /// nothing changes.
    pub fn add(&mut self, graphics_model: Primitive, physics_body: Option<BodyId>) -> (r: Result<
        Object,
        SimulationError,
    >)
        ensures
            match r {
                Ok(object) => {
                    &&& old(self).next_id() < u32::MAX
                    &&& object == (Object { graphics_model, physics_body, id: old(self).next_id() })
                    &&& final(self)@ == old(self)@.push(object)
                    &&& final(self).next_id() == old(self).next_id() + 1
                },
                Err(SimulationError::IdsExhausted) => {
                    &&& old(self).next_id() == u32::MAX
                    &&& final(self)@ == old(self)@
                    &&& final(self).next_id() == old(self).next_id()
                },
            },
    {
        proof {
            use_type_invariant(&*self);
        }
        if self.object_uid_counter == u32::MAX {
            return Err(SimulationError::IdsExhausted);
        }
        let object = Object { graphics_model, physics_body, id: self.object_uid_counter };
        // The list is taken out while it changes, so that the scene is in
        // order whenever it can be seen.
        let mut objects: Vec<Object> = Vec::new();
        std::mem::swap(&mut self.objects, &mut objects);
        objects.push(object);
        self.object_uid_counter += 1;
        std::mem::swap(&mut self.objects, &mut objects);
        Ok(object)
    }

    /// Takes out the object with the identifier `id` and returns it. Where
    /// no object carries `id`, nothing changes. Identifiers that were given
    /// out stay used.
    pub fn remove(&mut self, id: u32) -> (removed: Option<Object>)
        ensures
            final(self)@ == without(old(self)@, id),
            final(self).next_id() == old(self).next_id(),
            match removed {
                Some(object) => exists|k: int|
                    0 <= k < old(self)@.len() && old(self)@[k] == object && object.id == id
                        && final(self)@ == old(self)@.remove(k),
                None => final(self)@ == old(self)@ && forall|k: int|
                    0 <= k < old(self)@.len() ==> (#[trigger] old(self)@[k]).id != id,
            },
            forall|k: int|
                0 <= k < old(self)@.len() && (#[trigger] old(self)@[k]).id == id ==> removed
                    == Some(old(self)@[k]) && final(self)@ == old(self)@.remove(k),
    {
        let mut i: usize = 0;
        while i < self.objects.len()
            invariant
                i <= self.objects@.len(),
                *self == *old(self),
                forall|k: int| 0 <= k < i ==> (#[trigger] self.objects@[k]).id != id,
            decreases self.objects@.len() - i,
        {
            if self.objects[i].id == id {
                proof {
                    use_type_invariant(&*self);
                    lemma_without_removes_one(self.objects@, self.object_uid_counter, id);
                }
                let mut objects: Vec<Object> = Vec::new();
                std::mem::swap(&mut self.objects, &mut objects);
                let object = objects.remove(i);
                std::mem::swap(&mut self.objects, &mut objects);
                return Some(object);
            }
            i += 1;
        }
        proof {
            use_type_invariant(&*self);
            lemma_without_removes_one(self.objects@, self.object_uid_counter, id);
        }
        None
    }
}

impl<R: Renderer> Simulation<R> {
    /// Every body that an object of the scene names exists.
    pub open spec fn bodies_live(&self) -> bool {
        forall|i: int|
            0 <= i < self.scene@.len() ==> match (#[trigger] self.scene@[i]).physics_body {
                Some(id) => id.index() < self.physics@.len(),
                None => true,
            }
    }

    /// A simulation with an empty scene, no bodies and resting inputs.
    pub fn new(renderer: R) -> (simulation: Simulation<R>)
        ensures
            simulation.scene@ == Seq::<Object>::empty(),
            simulation.scene.next_id() == 0,
            simulation.renderer == renderer,
            simulation.physics@ == Seq::<Body>::empty(),
            simulation.physics.well_formed(),
            simulation.inputs == (Inputs {
                view_region_scroll_speed: (0i32, 0i32),
                view_region_scroll_speed_multiplier: 1,
                view_region_zoom_speed: 0,
                view_region_zoom_speed_multiplier: 1,
            }),
            simulation.bodies_live(),
    {
        Simulation {
            scene: Scene::new(),
            renderer,
            physics: PhysicsEngine::new(),
            inputs: Inputs::default(),
        }
    }

    /// Advances the simulation by `delta_time` ticks.
    ///
    /// While the view is being moved or zoomed, the region shown is moved by
    /// the scroll displacement and, where the zoom exponent is not zero,
    /// scaled by `zoom` about its centre. If what comes out has no width or
    /// no height, the region shown stays as it was and the error says which.
    /// The bodies move in either case.
    pub fn update(&mut self, delta_time: u64, zoom: ZoomFactor) -> (r: Result<(), RegionError>)
        ensures
            final(self).physics@ == stepped(old(self).physics@, delta_time),
            old(self).physics.well_formed() ==> final(self).physics.well_formed(),
            final(self).scene == old(self).scene,
            final(self).inputs == old(self).inputs,
            old(self).bodies_live() ==> final(self).bodies_live(),
            !old(self).inputs.navigating() ==> r.is_ok() && final(self).renderer.state() == old(
                self,
            ).renderer.state(),
            old(self).inputs.navigating() ==> ({
                let target = old(self).inputs.navigated(
                    old(self).renderer.state().view_region,
                    delta_time,
                    zoom,
                );
                &&& r == region_check(target.0, target.1)
                &&& final(self).renderer.state() == old(self).renderer.state().with_region(
                    target.0,
                    target.1,
                )
            }),
    {
        let mut outcome: Result<(), RegionError> = Ok(());
        if self.inputs.view_region_scroll_speed.0 != 0 || self.inputs.view_region_scroll_speed.1
            != 0 || self.inputs.view_region_zoom_speed != 0 {
            let region = self.renderer.get_physics_view_region();
            let target = self.inputs.navigate(region, delta_time, zoom);
            outcome = self.renderer.set_physics_region(target.0, target.1);
        }
        self.physics.update(delta_time);
        outcome
    }

    /// Adds an object that a new body carries. The body rests at `position`;
    /// its footprint is that of `model`. The object gets the next
    /// identifier; when none is left, nothing changes.
    pub fn add_object_with_model_at_pos(&mut self, model: Primitive, position: Vector) -> (r:
        Result<Object, SimulationError>)
        ensures
            final(self).renderer == old(self).renderer,
            final(self).inputs == old(self).inputs,
            match r {
                Ok(object) => {
                    &&& old(self).scene.next_id() < u32::MAX
                    &&& object.graphics_model == model
                    &&& object.id == old(self).scene.next_id()
                    &&& object.physics_body.is_some()
                    &&& object.physics_body.unwrap().index() == old(self).physics@.len()
                    &&& final(self).physics@ == old(self).physics@.push(
                        body_at(object.physics_body.unwrap(), model, position),
                    )
                    &&& final(self).scene@ == old(self).scene@.push(object)
                    &&& final(self).scene.next_id() == old(self).scene.next_id() + 1
                },
                Err(SimulationError::IdsExhausted) => {
                    &&& old(self).scene.next_id() == u32::MAX
                    &&& final(self).physics == old(self).physics
                    &&& final(self).scene == old(self).scene
                },
            },
            old(self).physics.well_formed() ==> final(self).physics.well_formed(),
            old(self).bodies_live() ==> final(self).bodies_live(),
    {
        if self.scene.next_object_id() == u32::MAX {
            return Err(SimulationError::IdsExhausted);
        }
        let body_id = self.physics.add_object(model.physics_footprint());
        match self.physics.get_object_mut(body_id) {
            Some(body) => {
                body.pose.position = position;
            },
            None => {},
        }
        assert(self.physics@ =~= old(self).physics@.push(body_at(body_id, model, position)));
        self.scene.add(model, Some(body_id))
    }

    /// Adds an object that no body carries: it stays where its shape says.
    /// The object gets the next identifier; when none is left, nothing
    /// changes.
    pub fn add_object_with_model(&mut self, model: Primitive) -> (r: Result<
        Object,
        SimulationError,
    >)
        ensures
            final(self).renderer == old(self).renderer,
            final(self).inputs == old(self).inputs,
            final(self).physics == old(self).physics,
            match r {
                Ok(object) => {
                    &&& old(self).scene.next_id() < u32::MAX
                    &&& object == (Object {
                        graphics_model: model,
                        physics_body: None,
                        id: old(self).scene.next_id(),
                    })
                    &&& final(self).scene@ == old(self).scene@.push(object)
                    &&& final(self).scene.next_id() == old(self).scene.next_id() + 1
                },
                Err(SimulationError::IdsExhausted) => {
                    &&& old(self).scene.next_id() == u32::MAX
                    &&& final(self).scene@ == old(self).scene@
                    &&& final(self).scene.next_id() == old(self).scene.next_id()
                },
            },
            old(self).bodies_live() ==> final(self).bodies_live(),
    {
        self.scene.add(model, None)
    }

    /// Removes the object with the identifier `id` from the scene. Where no
    /// object carries `id`, nothing changes. The body of a removed object
    /// stays in the physics engine, and its identifier is not given out
    /// again.
    pub fn remove_object(&mut self, id: u32)
        ensures
            final(self).scene@ == without(old(self).scene@, id),
            forall|k: int|
                0 <= k < old(self).scene@.len() && (#[trigger] old(self).scene@[k]).id == id
                    ==> final(self).scene@ == old(self).scene@.remove(k),
            (forall|k: int|
                0 <= k < old(self).scene@.len() ==> (#[trigger] old(self).scene@[k]).id != id)
                ==> final(self).scene@ == old(self).scene@,
            final(self).scene.next_id() == old(self).scene.next_id(),
            final(self).renderer == old(self).renderer,
            final(self).inputs == old(self).inputs,
            final(self).physics == old(self).physics,
            old(self).bodies_live() ==> final(self).bodies_live(),
    {
        let _ = self.scene.remove(id);
    }

    /// Draws every object of the scene, oldest first, where its body is.
    pub fn draw_all(&mut self)
        ensures
            final(self).renderer.state() == old(self).renderer.state().with_shapes(
                drawn_shapes(old(self).scene@, old(self).physics@),
            ),
            final(self).scene == old(self).scene,
            final(self).physics == old(self).physics,
            final(self).inputs == old(self).inputs,
    {
        let count = self.scene.objects().len();
        let mut i: usize = 0;
        while i < count
            invariant
                i <= count,
                count == self.scene@.len(),
                self.scene == old(self).scene,
                self.physics == old(self).physics,
                self.inputs == old(self).inputs,
                self.renderer.state() == old(self).renderer.state().with_shapes(
                    drawn_shapes(self.scene@, self.physics@).subrange(0, i as int),
                ),
            decreases count - i,
        {
            let object = self.scene.objects()[i];
            let body = match object.physics_body {
                Some(id) => self.physics.get_object(id),
                None => None,
            };
            match body {
                Some(body) => self.renderer.draw_primitive_with_motion(
                    &object.graphics_model,
                    &body.pose,
                ),
                None => self.renderer.draw_primitive(&object.graphics_model),
            }
            proof {
                let shapes = drawn_shapes(self.scene@, self.physics@);
                let before = old(self).renderer.state().canvas;
                assert((before + shapes.subrange(0, i as int)).push(shapes[i as int]) =~= before
                    + shapes.subrange(0, i + 1));
            }
            i += 1;
        }
        proof {
            let shapes = drawn_shapes(self.scene@, self.physics@);
            assert(shapes.subrange(0, count as int) =~= shapes);
        }
    }

    /// Renders one frame: clears the surface, draws the scene and hands the
    /// frame to the display.
    pub fn next_frame(&mut self)
        ensures
            final(self).renderer.state() == old(self).renderer.state().cleared().with_shapes(
                drawn_shapes(old(self).scene@, old(self).physics@),
            ).submitted(),
            final(self).renderer.state().presented == drawn_shapes(
                old(self).scene@,
                old(self).physics@,
            ),
            final(self).scene == old(self).scene,
            final(self).physics == old(self).physics,
            final(self).inputs == old(self).inputs,
    {
        proof {
            lemma_frame_presents_what_was_drawn(
                self.renderer.state(),
                drawn_shapes(self.scene@, self.physics@),
            );
        }
        self.renderer.begin_new_frame();
        self.draw_all();
        self.renderer.end_frame();
    }
}

} // verus!
