use vstd::prelude::*;

use crate::config::MAX_ENTITIES;
use crate::ecs::component::ComponentStorage;
use crate::ecs::entity::Entity;

verus! {

/// Walks the entity slots in increasing order, yielding the entities that
/// hold the queried components.
pub struct QueryIter {
    next_entity: usize,
}

impl QueryIter {
    /// The first slot not yet looked at.
    pub closed spec fn position(&self) -> nat {
        self.next_entity as nat
    }

    /// A walk that starts at slot 0.
    pub fn new() -> (res: Self)
        ensures
            res.position() == 0,
    {
        QueryIter { next_entity: 0 }
    }

    /// The next entity, from the current position on, that has a component
    /// in `storage`; the walk continues after it. `None`, with the walk at
    /// its end, when there is none.
    pub fn next<T>(&mut self, storage: &ComponentStorage<T>) -> (res: Option<Entity>)
        requires
            storage.wf(),
        ensures
            res matches Some(e) ==> {
                &&& old(self).position() <= e.index
                &&& storage@.dom().contains(e.index)
                &&& forall|i: usize| old(self).position() <= i < e.index ==> !#[trigger] storage@.dom().contains(i)
                &&& final(self).position() == e.index + 1
            },
            res is None ==> {
                &&& forall|i: usize| old(self).position() <= i ==> !#[trigger] storage@.dom().contains(i)
                &&& final(self).position() == if old(self).position() < MAX_ENTITIES {
                    MAX_ENTITIES as nat
                } else {
                    old(self).position()
                }
            },
    {
        proof {
            storage.lemma_dom_bounded();
        }
        while self.next_entity < MAX_ENTITIES
            invariant
                storage.wf(),
                old(self).position() <= self.position(),
                old(self).position() < MAX_ENTITIES ==> self.position() <= MAX_ENTITIES,
                old(self).position() >= MAX_ENTITIES ==> self.position() == old(self).position(),
                forall|i: usize| old(self).position() <= i < self.position() ==> !#[trigger] storage@.dom().contains(i),
                forall|i: usize| #[trigger] storage@.dom().contains(i) ==> i < MAX_ENTITIES,
            decreases MAX_ENTITIES - self.next_entity,
        {
            let entity = Entity::new(self.next_entity);
            self.next_entity = self.next_entity + 1;
            if storage.is_alive(entity) {
                return Some(entity);
            }
        }
        None
    }

    /// The next entity, from the current position on, that has a component
    /// in both `a` and `b`; the walk continues after it. `None`, with the
    /// walk at its end, when there is none.
    pub fn next_in_both<A, B>(&mut self, a: &ComponentStorage<A>, b: &ComponentStorage<B>) -> (res: Option<Entity>)
        requires
            a.wf(),
            b.wf(),
        ensures
            res matches Some(e) ==> {
                &&& old(self).position() <= e.index
                &&& a@.dom().contains(e.index) && b@.dom().contains(e.index)
                &&& forall|i: usize| old(self).position() <= i < e.index ==> !(#[trigger] a@.dom().contains(i) && b@.dom().contains(i))
                &&& final(self).position() == e.index + 1
            },
            res is None ==> {
                &&& forall|i: usize| old(self).position() <= i ==> !(#[trigger] a@.dom().contains(i) && b@.dom().contains(i))
                &&& final(self).position() == if old(self).position() < MAX_ENTITIES {
                    MAX_ENTITIES as nat
                } else {
                    old(self).position()
                }
            },
    {
        proof {
            a.lemma_dom_bounded();
        }
        while self.next_entity < MAX_ENTITIES
            invariant
                a.wf(),
                b.wf(),
                old(self).position() <= self.position(),
                old(self).position() < MAX_ENTITIES ==> self.position() <= MAX_ENTITIES,
                old(self).position() >= MAX_ENTITIES ==> self.position() == old(self).position(),
                forall|i: usize| old(self).position() <= i < self.position() ==> !(#[trigger] a@.dom().contains(i) && b@.dom().contains(i)),
                forall|i: usize| #[trigger] a@.dom().contains(i) ==> i < MAX_ENTITIES,
            decreases MAX_ENTITIES - self.next_entity,
        {
            let entity = Entity::new(self.next_entity);
            self.next_entity = self.next_entity + 1;
            if a.is_alive(entity) && b.is_alive(entity) {
                return Some(entity);
            }
        }
        None
    }
}

} // verus!
