//! Constant-velocity motion of point bodies.
//!
//! The engine keeps its bodies in creation order and never removes one, so a
//! body's identifier is its index and stays valid for the engine's lifetime.

use vstd::prelude::*;
use crate::numeric::{advance, saturate, Vector};

verus! {

/// Where a body is, and which way it faces.
#[derive(Clone, Copy, Debug, PartialEq, Eq)]
pub struct Pose {
    pub position: Vector,
    pub orientation: i64,
}

/// How a body moves: quanta per tick along each axis.
#[derive(Clone, Copy, Debug, PartialEq, Eq)]
pub struct Dynamics {
    pub velocity: Vector,
}

/// The circular footprint of a body, relative to its position.
#[derive(Clone, Copy, Debug, PartialEq, Eq)]
pub struct Circle {
    pub origin: Vector,
    pub radius: i64,
}

/// Names one body of one engine.
#[derive(Clone, Copy, Debug, PartialEq, Eq, Hash)]
pub struct BodyId(usize);

/// One simulated body.
#[derive(Clone, Copy, Debug, PartialEq, Eq)]
pub struct Body {
    pub id: BodyId,
    pub pose: Pose,
    pub dynamics: Dynamics,
    pub circle: Circle,
}

/// Owns the bodies and moves them.
pub struct PhysicsEngine {
    objects: Vec<Body>,
}

impl Default for Pose {
    fn default() -> (pose: Pose)
        ensures
            pose == (Pose { position: (0i64, 0i64), orientation: 0 }),
    {
        Pose { position: (0, 0), orientation: 0 }
    }
}

impl Default for Dynamics {
    fn default() -> (dynamics: Dynamics)
        ensures
            dynamics == (Dynamics { velocity: (0i64, 0i64) }),
    {
        Dynamics { velocity: (0, 0) }
    }
}

impl BodyId {
    /// The creation-order index that this identifier stands for.
    pub closed spec fn index(self) -> nat {
        self.0 as nat
    }

    /// The creation-order index that this identifier stands for.
    pub fn position(&self) -> (i: usize)
        ensures
            i == self.index(),
    {
        self.0
    }

    /// Two identifiers with the same index are the same identifier.
    pub proof fn lemma_index_is_injective(a: BodyId, b: BodyId)
        requires
            a.index() == b.index(),
        ensures
            a == b,
    {
    }
}

/// A body as the engine creates it: at rest at the origin.
pub open spec fn new_body(id: BodyId, circle: Circle) -> Body {
    Body {
        id,
        pose: Pose { position: (0i64, 0i64), orientation: 0 },
        dynamics: Dynamics { velocity: (0i64, 0i64) },
        circle,
    }
}

/// `body` after `dt` ticks at its current velocity.
pub open spec fn moved(body: Body, dt: u64) -> Body {
    Body {
        pose: Pose {
            position: (
                saturate(body.pose.position.0 + body.dynamics.velocity.0 * dt),
                saturate(body.pose.position.1 + body.dynamics.velocity.1 * dt),
            ),
            orientation: body.pose.orientation,
        },
        ..body
    }
}

/// Every body of `bodies` after `dt` ticks.
pub open spec fn stepped(bodies: Seq<Body>, dt: u64) -> Seq<Body> {
    Seq::new(bodies.len(), |i: int| moved(bodies[i], dt))
}

/// Whether `body` can move for `dt` ticks without leaving the lattice.
pub open spec fn stays_in_range(body: Body, dt: u64) -> bool {
    &&& i64::MIN <= body.pose.position.0 + body.dynamics.velocity.0 * dt <= i64::MAX
    &&& i64::MIN <= body.pose.position.1 + body.dynamics.velocity.1 * dt <= i64::MAX
}

/// Motion is exact: a body that stays on the lattice ends at its position
/// plus its velocity times the time, and nothing else about it changes.
pub proof fn lemma_motion_is_exact(body: Body, dt: u64)
    requires
        stays_in_range(body, dt),
    ensures
        moved(body, dt).pose.position.0 == body.pose.position.0 + body.dynamics.velocity.0 * dt,
        moved(body, dt).pose.position.1 == body.pose.position.1 + body.dynamics.velocity.1 * dt,
        moved(body, dt).pose.orientation == body.pose.orientation,
        moved(body, dt).dynamics == body.dynamics,
        moved(body, dt).id == body.id,
        moved(body, dt).circle == body.circle,
{
}

/// Motion is linear in time: two steps in a row are one step of their
/// combined length, as long as the first step stays on the lattice.
pub proof fn lemma_motion_composes(body: Body, first: u64, second: u64)
    requires
        first + second <= u64::MAX,
        stays_in_range(body, first),
    ensures
        moved(moved(body, first), second) == moved(body, (first + second) as u64),
{
    let (x, y) = body.pose.position;
    let (vx, vy) = body.dynamics.velocity;
    assert(vx * first + vx * second == vx * (first + second)) by (nonlinear_arith);
    assert(vy * first + vy * second == vy * (first + second)) by (nonlinear_arith);
}

impl View for PhysicsEngine {
    type V = Seq<Body>;

    closed spec fn view(&self) -> Seq<Body> {
        self.objects@
    }
}

impl PhysicsEngine {
    /// Every body carries the identifier of its own slot.
    pub open spec fn well_formed(&self) -> bool {
        forall|i: int| 0 <= i < self@.len() ==> (#[trigger] self@[i]).id.index() == i
    }

    /// The body that `id` names, if there is one.
    pub open spec fn lookup(&self, id: BodyId) -> Option<Body> {
        if id.index() < self@.len() {
            Some(self@[id.index() as int])
        } else {
            None
        }
    }

    /// An engine without bodies.
    pub fn new() -> (engine: PhysicsEngine)
        ensures
            engine@ == Seq::<Body>::empty(),
            engine.well_formed(),
    {
        PhysicsEngine { objects: Vec::new() }
    }

    /// The number of bodies created so far.
    pub fn len(&self) -> (n: usize)
        ensures
            n == self@.len(),
    {
        self.objects.len()
    }

    /// Looks a body up; an identifier beyond the last body finds nothing.
    pub fn get_object(&self, id: BodyId) -> (found: Option<&Body>)
        ensures
            match found {
                Some(body) => self.lookup(id) == Some(*body),
                None => self.lookup(id).is_none(),
            },
    {
        if id.0 < self.objects.len() {
            Some(&self.objects[id.0])
        } else {
            None
        }
    }

    /// Lends a body out for modification; an identifier beyond the last body
    /// finds nothing and leaves the engine as it was.
    pub fn get_object_mut(&mut self, id: BodyId) -> (found: Option<&mut Body>)
        ensures
            match found {
                Some(body) => {
                    &&& old(self).lookup(id) == Some(*body)
                    &&& final(self)@ == old(self)@.update(id.index() as int, *final(body))
                },
                None => old(self).lookup(id).is_none() && final(self)@ == old(self)@,
            },
    {
        if id.0 < self.objects.len() {
            Some(&mut self.objects[id.0])
        } else {
            None
        }
    }

    /// Creates a body at rest at the origin and returns its identifier, which
    /// is the number of bodies created before it.
    pub fn add_object(&mut self, circle: Circle) -> (id: BodyId)
        ensures
            id.index() == old(self)@.len(),
            final(self)@ == old(self)@.push(new_body(id, circle)),
            old(self).well_formed() ==> final(self).well_formed(),
    {
        let id = BodyId(self.objects.len());
        self.objects.push(
            Body { id, pose: Pose::default(), dynamics: Dynamics::default(), circle },
        );
        id
    }

    /// Moves every body by its velocity times `dt`.
    pub fn update(&mut self, dt: u64)
        ensures
            final(self)@ == stepped(old(self)@, dt),
            old(self).well_formed() ==> final(self).well_formed(),
    {
        let count = self.objects.len();
        let mut i: usize = 0;
        while i < count
            invariant
                i <= count,
                self.objects@.len() == count,
                old(self).objects@.len() == count,
                forall|k: int| 0 <= k < i ==> self.objects@[k] == moved(old(self).objects@[k], dt),
                forall|k: int| i <= k < count ==> self.objects@[k] == old(self).objects@[k],
            decreases count - i,
        {
            let body = &mut self.objects[i];
            body.pose.position = (
                advance(body.pose.position.0, body.dynamics.velocity.0, dt),
                advance(body.pose.position.1, body.dynamics.velocity.1, dt),
            );
            i += 1;
        }
        assert(self.objects@ =~= stepped(old(self).objects@, dt));
    }
}

} // verus!
