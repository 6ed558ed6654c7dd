use vstd::prelude::*;

use crate::config::MAX_ENTITIES;
use crate::ecs::component::{alive_in_both, ComponentStorage};
use crate::ecs::entity::{Entity, EntityManager};
use crate::error::EcsError;

verus! {

/// The components of the moving-sprite world: position `P`, velocity `V`,
/// size `S` and animation state `A` of every entity.
pub struct Components<P, V, S, A> {
    pub positions: ComponentStorage<P>,
    pub velocities: ComponentStorage<V>,
    pub sizes: ComponentStorage<S>,
    pub animations: ComponentStorage<A>,
}

impl<P, V, S, A> Components<P, V, S, A> {
    /// Every storage is well formed.
    pub open spec fn wf(&self) -> bool {
        &&& self.positions.wf()
        &&& self.velocities.wf()
        &&& self.sizes.wf()
        &&& self.animations.wf()
    }

    /// The entities with a position, in increasing index order.
    pub fn iter_alive(&self) -> (res: Vec<Entity>)
        requires
            self.wf(),
        ensures
            forall|k: int| 0 <= k < res@.len() ==> self.positions@.dom().contains(#[trigger] res@[k].index),
            forall|i: usize| #[trigger] self.positions@.dom().contains(i) ==> exists|k: int|
                0 <= k < res@.len() && #[trigger] res@[k].index == i,
            forall|k: int, l: int| 0 <= k < l < res@.len() ==> res@[k].index < res@[l].index,
    {
        self.positions.alive_entities()
    }

    /// The entities with both a position and a size, in increasing index
    /// order.
    pub fn with_pos_and_size(&self) -> (res: Vec<Entity>)
        requires
            self.wf(),
        ensures
            forall|k: int| 0 <= k < res@.len() ==> self.positions@.dom().contains(#[trigger] res@[k].index)
                && self.sizes@.dom().contains(res@[k].index),
            forall|i: usize| #[trigger] self.positions@.dom().contains(i) && self.sizes@.dom().contains(i)
                ==> exists|k: int| 0 <= k < res@.len() && #[trigger] res@[k].index == i,
            forall|k: int, l: int| 0 <= k < l < res@.len() ==> res@[k].index < res@[l].index,
    {
        alive_in_both(&self.positions, &self.sizes)
    }

    /// The entities with an animation state, in increasing index order.
    pub fn with_animation_state(&self) -> (res: Vec<Entity>)
        requires
            self.wf(),
        ensures
            forall|k: int| 0 <= k < res@.len() ==> self.animations@.dom().contains(#[trigger] res@[k].index),
            forall|i: usize| #[trigger] self.animations@.dom().contains(i) ==> exists|k: int|
                0 <= k < res@.len() && #[trigger] res@[k].index == i,
            forall|k: int, l: int| 0 <= k < l < res@.len() ==> res@[k].index < res@[l].index,
    {
        self.animations.alive_entities()
    }

    /// Gives `entity` its position, velocity, size and animation state;
    /// refused, changing nothing, when the index is not a valid slot.
    pub fn create_entity(&mut self, entity: Entity, pos: P, vel: V, size: S, anim: A) -> (res: Result<(), EcsError>)
        requires
            old(self).wf(),
        ensures
            final(self).wf(),
            entity.index >= MAX_ENTITIES ==> {
                &&& res == Err::<(), EcsError>(EcsError::IndexOutOfBounds)
                &&& final(self).positions@ == old(self).positions@
                &&& final(self).velocities@ == old(self).velocities@
                &&& final(self).sizes@ == old(self).sizes@
                &&& final(self).animations@ == old(self).animations@
            },
            entity.index < MAX_ENTITIES ==> {
                &&& res is Ok
                &&& final(self).positions@ == old(self).positions@.insert(entity.index, pos)
                &&& final(self).velocities@ == old(self).velocities@.insert(entity.index, vel)
                &&& final(self).sizes@ == old(self).sizes@.insert(entity.index, size)
                &&& final(self).animations@ == old(self).animations@.insert(entity.index, anim)
            },
    {
        self.positions.insert(entity, pos)?;
        self.velocities.insert(entity, vel)?;
        self.sizes.insert(entity, size)?;
        self.animations.insert(entity, anim)?;
        Ok(())
    }
}

/// Removes `entity`: its id goes back to `entity_manager` for reuse, then
/// its position, velocity, size and animation state are removed in that
/// order. An index that is not a valid slot is refused with nothing
/// changed; the first storage that holds nothing for the entity stops the
/// removal with `NotFound`, after the steps before it.
pub fn kill_entity<P, V, S, A>(
    entity_manager: &mut EntityManager,
    components: &mut Components<P, V, S, A>,
    entity: Entity,
) -> (res: Result<(), EcsError>)
    requires
        old(entity_manager).wf(),
        old(components).wf(),
    ensures
        final(entity_manager).wf(),
        final(components).wf(),
        final(entity_manager).issued() == old(entity_manager).issued(),
        ({
            let i = entity.index;
            let p = old(components).positions@.dom().contains(i);
            let v = old(components).velocities@.dom().contains(i);
            let s = old(components).sizes@.dom().contains(i);
            let a = old(components).animations@.dom().contains(i);
            &&& (i >= MAX_ENTITIES ==> res == Err::<(), EcsError>(EcsError::IndexOutOfBounds))
            &&& (i < MAX_ENTITIES && !(p && v && s && a) ==> res == Err::<(), EcsError>(EcsError::NotFound))
            &&& (res is Ok <==> i < MAX_ENTITIES && p && v && s && a)
            &&& final(entity_manager).free_ids() == if i < MAX_ENTITIES {
                old(entity_manager).free_ids().push(i)
            } else {
                old(entity_manager).free_ids()
            }
            &&& final(components).positions@ == if i < MAX_ENTITIES && p {
                old(components).positions@.remove(i)
            } else {
                old(components).positions@
            }
            &&& final(components).velocities@ == if i < MAX_ENTITIES && p && v {
                old(components).velocities@.remove(i)
            } else {
                old(components).velocities@
            }
            &&& final(components).sizes@ == if i < MAX_ENTITIES && p && v && s {
                old(components).sizes@.remove(i)
            } else {
                old(components).sizes@
            }
            &&& final(components).animations@ == if i < MAX_ENTITIES && p && v && s && a {
                old(components).animations@.remove(i)
            } else {
                old(components).animations@
            }
        }),
{
    entity_manager.despawn(entity)?;
    components.positions.remove(entity)?;
    components.velocities.remove(entity)?;
    components.sizes.remove(entity)?;
    components.animations.remove(entity)?;
    Ok(())
}

/// After a successful `kill_entity`, the entity's slot is empty in every
/// storage, every other slot is as before, and the next `spawn` hands the
/// same entity out again.
pub proof fn law_kill_then_spawn_reuses<P, V, S, A>(
    manager_before: &EntityManager,
    manager_after: &EntityManager,
    before: &Components<P, V, S, A>,
    after: &Components<P, V, S, A>,
    entity: Entity,
    other: usize,
)
    requires
        manager_before.wf(),
        entity.index < MAX_ENTITIES,
        manager_after.free_ids() == manager_before.free_ids().push(entity.index),
        manager_after.issued() == manager_before.issued(),
        after.positions@ == before.positions@.remove(entity.index),
        after.velocities@ == before.velocities@.remove(entity.index),
        after.sizes@ == before.sizes@.remove(entity.index),
        after.animations@ == before.animations@.remove(entity.index),
    ensures
        manager_after.next_spawn() == Some(entity),
        !after.positions@.dom().contains(entity.index),
        !after.velocities@.dom().contains(entity.index),
        !after.sizes@.dom().contains(entity.index),
        !after.animations@.dom().contains(entity.index),
        other != entity.index ==> (after.positions@.dom().contains(other) <==> before.positions@.dom().contains(other)),
        other != entity.index ==> (after.animations@.dom().contains(other) <==> before.animations@.dom().contains(other)),
{
    assert(manager_after.free_ids().last() == entity.index);
}

impl<P: Default, V: Default, S: Default, A: Default> Components<P, V, S, A> {
    /// Components with no live entity.
    pub fn new() -> (res: Self)
        ensures
            res.wf(),
            res.positions@ == Map::<usize, P>::empty(),
            res.velocities@ == Map::<usize, V>::empty(),
            res.sizes@ == Map::<usize, S>::empty(),
            res.animations@ == Map::<usize, A>::empty(),
    {
        Components {
            positions: ComponentStorage::new(),
            velocities: ComponentStorage::new(),
            sizes: ComponentStorage::new(),
            animations: ComponentStorage::new(),
        }
    }
}

} // verus!
