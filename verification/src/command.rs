use vstd::prelude::*;

use crate::ecs::component::ComponentStorage;
use crate::ecs::entity::{Entity, EntityManager};
use crate::error::EcsError;

verus! {

/// The axis along which a collision pushes back.
#[derive(Debug, Clone, Copy, PartialEq, Eq, Structural)]
pub enum Axis {
    X,
    Y,
}

/// A detected collision of one entity: with the window edge or with
/// another entity.
#[derive(Debug, Clone, Copy, PartialEq, Eq, Structural)]
pub enum Collision {
    WindowEdge(Entity, Axis),
    Entities(Entity, Axis),
}

impl Collision {
    /// The entity that collided.
    pub open spec fn entity_of(self) -> Entity {
        match self {
            Collision::WindowEdge(e, _) => e,
            Collision::Entities(e, _) => e,
        }
    }

    /// The axis of the collision.
    pub open spec fn axis_of(self) -> Axis {
        match self {
            Collision::WindowEdge(_, a) => a,
            Collision::Entities(_, a) => a,
        }
    }

    /// The entity that collided.
    pub fn entity(&self) -> (res: Entity)
        ensures
            res == self.entity_of(),
    {
        match self {
            Collision::WindowEdge(e, _) => *e,
            Collision::Entities(e, _) => *e,
        }
    }

    /// The axis of the collision.
    pub fn axis(&self) -> (res: Axis)
        ensures
            res == self.axis_of(),
    {
        match self {
            Collision::WindowEdge(_, a) => *a,
            Collision::Entities(_, a) => *a,
        }
    }
}

/// A change to the world, planned during a frame and applied at its end;
/// `P` is how positions are written.
#[derive(Debug, Clone, Copy)]
pub enum Command<P> {
    /// Move the entity to the position.
    Movement(Entity, P),
    /// Bounce the entity back along the collision's axis.
    Bounce(Entity, Collision),
    /// Give a fresh entity its components at the position.
    Spawn(Entity, P),
    /// Remove the entity and its components.
    Despawn(Entity),
}

/// The first collision in `cs` of entity `e`, if any.
pub open spec fn first_collision_of(cs: Seq<Collision>, e: Entity) -> Option<Collision>
    decreases cs.len(),
{
    if cs.len() == 0 {
        None
    } else if cs[0].entity_of() == e {
        Some(cs[0])
    } else {
        first_collision_of(cs.drop_first(), e)
    }
}

/// The command planned for an entity that wants to move to `plan.1`: it
/// bounces on its first detected collision, and moves otherwise.
pub open spec fn command_for<P>(plan: (Entity, P), cs: Seq<Collision>) -> Command<P> {
    match first_collision_of(cs, plan.0) {
        Some(c) => Command::Bounce(plan.0, c),
        None => Command::Movement(plan.0, plan.1),
    }
}

/// The first collision of `entity` among `collisions`.
fn find_collision(collisions: &[Collision], entity: Entity) -> (res: Option<Collision>)
    ensures
        res == first_collision_of(collisions@, entity),
{
    let mut j: usize = 0;
    assert(collisions@.skip(0) =~= collisions@);
    while j < collisions.len()
        invariant
            j <= collisions@.len(),
            first_collision_of(collisions@, entity) == first_collision_of(collisions@.skip(j as int), entity),
        decreases collisions@.len() - j,
    {
        let c = collisions[j];
        assert(collisions@.skip(j as int)[0] == c);
        if c.entity() == entity {
            return Some(c);
        }
        assert(collisions@.skip(j as int).drop_first() =~= collisions@.skip(j + 1));
        j = j + 1;
    }
    None
}

/// Turns the movement plans of a frame into commands.
pub struct MovementCommandSystem;

impl MovementCommandSystem {
    /// One command per plan, in plan order: an entity with a detected
    /// collision bounces on the first one, any other entity moves to its
    /// planned position.
    pub fn update<P: Copy>(move_plans: &[(Entity, P)], detected_collisions: &[Collision]) -> (res: Vec<Command<P>>)
        ensures
            res@.len() == move_plans@.len(),
            forall|i: int| 0 <= i < move_plans@.len() ==>
                #[trigger] res@[i] == command_for(move_plans@[i], detected_collisions@),
    {
        let mut res: Vec<Command<P>> = Vec::new();
        let mut i: usize = 0;
        while i < move_plans.len()
            invariant
                i <= move_plans@.len(),
                res@.len() == i,
                forall|k: int| 0 <= k < i ==> #[trigger] res@[k] == command_for(move_plans@[k], detected_collisions@),
            decreases move_plans@.len() - i,
        {
            let (entity, pos) = move_plans[i];
            let command = match find_collision(detected_collisions, entity) {
                Some(collision) => Command::Bounce(entity, collision),
                None => Command::Movement(entity, pos),
            };
            res.push(command);
            i = i + 1;
        }
        res
    }
}

/// Plans new entities from clicks.
pub struct CreateEntitySystem;

impl CreateEntitySystem {
    /// On a click at `click`, spawns an entity and plans to give it its
    /// components there; nothing happens without a click, and no command
    /// comes when every entity slot is in use.
    pub fn update<P: Copy>(entity_manager: &mut EntityManager, click: Option<P>) -> (res: Option<Command<P>>)
        requires
            old(entity_manager).wf(),
        ensures
            final(entity_manager).wf(),
            click is None ==> res is None && final(entity_manager).free_ids() == old(entity_manager).free_ids()
                && final(entity_manager).issued() == old(entity_manager).issued(),
            click matches Some(p) ==> {
                &&& EntityManager::spawn_step(old(entity_manager), final(entity_manager))
                &&& res == (match old(entity_manager).next_spawn() {
                    Some(e) => Some(Command::Spawn(e, p)),
                    None => None,
                })
            },
    {
        let pos = match click {
            Some(p) => p,
            None => {
                return None;
            },
        };
        match entity_manager.spawn() {
            Some(entity) => Some(Command::Spawn(entity, pos)),
            None => None,
        }
    }
}

/// Moves `entity` to `new_pos`; fails with `NotFound`, changing nothing,
/// when the entity has no position.
pub fn move_entity<P>(positions: &mut ComponentStorage<P>, entity: Entity, new_pos: P) -> (res: Result<(), EcsError>)
    requires
        old(positions).wf(),
    ensures
        final(positions).wf(),
        res is Ok <==> old(positions)@.dom().contains(entity.index),
        res is Ok ==> final(positions)@ == old(positions)@.insert(entity.index, new_pos),
        res is Err ==> res == Err::<(), EcsError>(EcsError::NotFound) && final(positions)@ == old(positions)@,
{
    match positions.get_mut(entity) {
        Some(slot) => {
            *slot = new_pos;
            Ok(())
        },
        None => Err(EcsError::NotFound),
    }
}

/// A collision reports the entity and the axis it was detected with, for
/// the window edge and for another entity alike.
pub proof fn law_collision_keeps_entity_and_axis(e: Entity, a: Axis)
    ensures
        Collision::WindowEdge(e, a).entity_of() == e,
        Collision::WindowEdge(e, a).axis_of() == a,
        Collision::Entities(e, a).entity_of() == e,
        Collision::Entities(e, a).axis_of() == a,
{
}

} // verus!
