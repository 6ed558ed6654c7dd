use vstd::prelude::*;

use crate::config::MAX_ENTITIES;
use crate::ecs::entity::Entity;
use crate::error::EcsError;

verus! {

/// One kind of component for every entity slot. A slot either holds a live
/// component or is empty; the storage is seen as the map from the indices of
/// live slots to their components.
pub struct ComponentStorage<T> {
    components: Vec<T>,
    alive: Vec<bool>,
}

impl<T> View for ComponentStorage<T> {
    type V = Map<usize, T>;

    closed spec fn view(&self) -> Map<usize, T> {
        Map::new(
            |i: usize| i < MAX_ENTITIES && i < self.alive@.len() && self.alive@[i as int],
            |i: usize| self.components@[i as int],
        )
    }
}

impl<T> ComponentStorage<T> {
    /// Well-formedness: one component cell and one liveness flag per slot.
    pub closed spec fn wf(&self) -> bool {
        &&& self.components@.len() == MAX_ENTITIES
        &&& self.alive@.len() == MAX_ENTITIES
    }

    /// Every live slot is a valid entity index.
    pub proof fn lemma_dom_bounded(&self)
        ensures
            forall|i: usize| #[trigger] self@.dom().contains(i) ==> i < MAX_ENTITIES,
    {
    }

    /// Stores `component` for `entity`, making its slot live; an index that
    /// is not a valid slot is refused and nothing changes.
    pub fn insert(&mut self, entity: Entity, component: T) -> (res: Result<(), EcsError>)
        requires
            old(self).wf(),
        ensures
            final(self).wf(),
            entity.index >= MAX_ENTITIES ==> {
                &&& res == Err::<(), EcsError>(EcsError::IndexOutOfBounds)
                &&& final(self)@ == old(self)@
            },
            entity.index < MAX_ENTITIES ==> {
                &&& res is Ok
                &&& final(self)@ == old(self)@.insert(entity.index, component)
            },
    {
        if entity.index >= MAX_ENTITIES {
            return Err(EcsError::IndexOutOfBounds);
        }
        self.components.set(entity.index, component);
        self.alive.set(entity.index, true);
        assert(self@ =~= old(self)@.insert(entity.index, component));
        Ok(())
    }

    /// The component of `entity`, if its slot is live.
    pub fn get(&self, entity: Entity) -> (res: Option<&T>)
        requires
            self.wf(),
        ensures
            res == (if self@.dom().contains(entity.index) {
                Some(&self@[entity.index])
            } else {
                None
            }),
    {
        if entity.index >= MAX_ENTITIES || !self.alive[entity.index] {
            return None;
        }
        Some(&self.components[entity.index])
    }

    /// Mutable access to the component of `entity`, if its slot is live.
    /// Whatever is written through the reference becomes the component.
    pub fn get_mut(&mut self, entity: Entity) -> (res: Option<&mut T>)
        requires
            old(self).wf(),
        ensures
            final(self).wf(),
            res is Some <==> old(self)@.dom().contains(entity.index),
            res is None ==> final(self)@ == old(self)@,
            res matches Some(r) ==> {
                &&& *r == old(self)@[entity.index]
                &&& final(self)@ == old(self)@.insert(entity.index, *final(r))
            },
    {
        if entity.index >= MAX_ENTITIES || !self.alive[entity.index] {
            return None;
        }
        Some(&mut self.components[entity.index])
    }

    /// Empties the slot of `entity`; fails with `NotFound` when the slot
    /// holds no component, which includes an index that is not a valid slot.
    pub fn remove(&mut self, entity: Entity) -> (res: Result<(), EcsError>)
        requires
            old(self).wf(),
        ensures
            final(self).wf(),
            !old(self)@.dom().contains(entity.index) ==> res == Err::<(), EcsError>(EcsError::NotFound),
            res is Err ==> final(self)@ == old(self)@,
            res is Ok <==> old(self)@.dom().contains(entity.index),
            res is Ok ==> final(self)@ == old(self)@.remove(entity.index),
    {
        if entity.index >= MAX_ENTITIES || !self.alive[entity.index] {
            return Err(EcsError::NotFound);
        }
        self.alive.set(entity.index, false);
        assert(self@ =~= old(self)@.remove(entity.index));
        Ok(())
    }

    /// The live entities in increasing index order.
    pub fn alive_entities(&self) -> (res: Vec<Entity>)
        requires
            self.wf(),
        ensures
            forall|k: int| 0 <= k < res@.len() ==> self@.dom().contains(#[trigger] res@[k].index),
            forall|i: usize| #[trigger] self@.dom().contains(i) ==> exists|k: int|
                0 <= k < res@.len() && #[trigger] res@[k].index == i,
            forall|k: int, l: int| 0 <= k < l < res@.len() ==> res@[k].index < res@[l].index,
    {
        let mut res: Vec<Entity> = Vec::new();
        let mut i: usize = 0;
        while i < MAX_ENTITIES
            invariant
                self.wf(),
                i <= MAX_ENTITIES,
                forall|k: int| 0 <= k < res@.len() ==> self@.dom().contains(#[trigger] res@[k].index),
                forall|k: int| 0 <= k < res@.len() ==> #[trigger] res@[k].index < i,
                forall|j: usize| j < i && #[trigger] self@.dom().contains(j) ==> exists|k: int|
                    0 <= k < res@.len() && #[trigger] res@[k].index == j,
                forall|k: int, l: int| 0 <= k < l < res@.len() ==> res@[k].index < res@[l].index,
            decreases MAX_ENTITIES - i,
        {
            if self.alive[i] {
                let ghost old_res = res@;
                res.push(Entity::new(i));
                assert forall|j: usize| j < i + 1 && #[trigger] self@.dom().contains(j) implies exists|k: int|
                    0 <= k < res@.len() && #[trigger] res@[k].index == j by {
                    if j == i {
                        assert(res@[res@.len() - 1].index == j);
                    } else {
                        let k = choose|k: int| 0 <= k < old_res.len() && #[trigger] old_res[k].index == j;
                        assert(res@[k] == old_res[k]);
                    }
                }
            }
            i = i + 1;
        }
        res
    }

    /// Whether `entity`'s slot holds a component.
    pub fn is_alive(&self, entity: Entity) -> (res: bool)
        requires
            self.wf(),
        ensures
            res == self@.dom().contains(entity.index),
    {
        entity.index < MAX_ENTITIES && self.alive[entity.index]
    }
}

/// The entities live in both `a` and `b`, in increasing index order.
pub fn alive_in_both<A, B>(a: &ComponentStorage<A>, b: &ComponentStorage<B>) -> (res: Vec<Entity>)
    requires
        a.wf(),
        b.wf(),
    ensures
        forall|k: int| 0 <= k < res@.len() ==> a@.dom().contains(#[trigger] res@[k].index)
            && b@.dom().contains(res@[k].index),
        forall|i: usize| #[trigger] a@.dom().contains(i) && b@.dom().contains(i) ==> exists|k: int|
            0 <= k < res@.len() && #[trigger] res@[k].index == i,
        forall|k: int, l: int| 0 <= k < l < res@.len() ==> res@[k].index < res@[l].index,
{
    let mut res: Vec<Entity> = Vec::new();
    let mut i: usize = 0;
    while i < MAX_ENTITIES
        invariant
            a.wf(),
            b.wf(),
            i <= MAX_ENTITIES,
            forall|k: int| 0 <= k < res@.len() ==> a@.dom().contains(#[trigger] res@[k].index)
                && b@.dom().contains(res@[k].index),
            forall|k: int| 0 <= k < res@.len() ==> #[trigger] res@[k].index < i,
            forall|j: usize| j < i && #[trigger] a@.dom().contains(j) && b@.dom().contains(j) ==> exists|k: int|
                0 <= k < res@.len() && #[trigger] res@[k].index == j,
            forall|k: int, l: int| 0 <= k < l < res@.len() ==> res@[k].index < res@[l].index,
        decreases MAX_ENTITIES - i,
    {
        let e = Entity::new(i);
        if a.is_alive(e) && b.is_alive(e) {
            let ghost old_res = res@;
            res.push(e);
            assert forall|j: usize| j < i + 1 && #[trigger] a@.dom().contains(j) && b@.dom().contains(j) implies exists|k: int|
                0 <= k < res@.len() && #[trigger] res@[k].index == j by {
                if j == i {
                    assert(res@[res@.len() - 1].index == j);
                } else {
                    let k = choose|k: int| 0 <= k < old_res.len() && #[trigger] old_res[k].index == j;
                    assert(res@[k] == old_res[k]);
                }
            }
        }
        i = i + 1;
    }
    res
}

/// Reading back a write: once `insert` has stored `component` for `entity`,
/// `get(entity)` gives that component, and every other slot reads as before.
pub proof fn law_insert_then_get<T>(
    before: &ComponentStorage<T>,
    after: &ComponentStorage<T>,
    entity: Entity,
    component: T,
    other: usize,
)
    requires
        entity.index < MAX_ENTITIES,
        after@ == before@.insert(entity.index, component),
    ensures
        after@.dom().contains(entity.index),
        after@[entity.index] == component,
        other != entity.index ==> (after@.dom().contains(other) <==> before@.dom().contains(other)),
        other != entity.index && before@.dom().contains(other) ==> after@[other] == before@[other],
{
}

/// Once `remove` has emptied `entity`'s slot, `get(entity)` gives `None`
/// and a second `remove` of it fails, while every other slot reads as before.
pub proof fn law_remove_then_get<T>(
    before: &ComponentStorage<T>,
    after: &ComponentStorage<T>,
    entity: Entity,
    other: usize,
)
    requires
        before@.dom().contains(entity.index),
        after@ == before@.remove(entity.index),
    ensures
        !after@.dom().contains(entity.index),
        other != entity.index ==> (after@.dom().contains(other) <==> before@.dom().contains(other)),
        other != entity.index && before@.dom().contains(other) ==> after@[other] == before@[other],
{
}

/// Inserting and then removing a component for an entity whose slot was
/// empty gives back the storage that was there before.
pub proof fn law_insert_remove_roundtrip<T>(
    before: &ComponentStorage<T>,
    mid: &ComponentStorage<T>,
    after: &ComponentStorage<T>,
    entity: Entity,
    component: T,
)
    requires
        entity.index < MAX_ENTITIES,
        !before@.dom().contains(entity.index),
        mid@ == before@.insert(entity.index, component),
        after@ == mid@.remove(entity.index),
    ensures
        after@ == before@,
{
    assert(after@ =~= before@);
}

impl<T: Default> ComponentStorage<T> {
    /// Creates a storage in which no slot is live.
    pub fn new() -> (res: Self)
        ensures
            res.wf(),
            res@ == Map::<usize, T>::empty(),
    {
        let mut components: Vec<T> = Vec::new();
        let mut alive: Vec<bool> = Vec::new();
        let mut i: usize = 0;
        while i < MAX_ENTITIES
            invariant
                i <= MAX_ENTITIES,
                components@.len() == i,
                alive@.len() == i,
                forall|j: int| 0 <= j < i ==> !#[trigger] alive@[j],
            decreases MAX_ENTITIES - i,
        {
            components.push(T::default());
            alive.push(false);
            i = i + 1;
        }
        let res = Self { components, alive };
        assert(res@ =~= Map::<usize, T>::empty());
        res
    }
}

} // verus!
