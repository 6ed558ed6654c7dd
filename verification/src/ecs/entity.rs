use vstd::prelude::*;

use crate::config::MAX_ENTITIES;
use crate::error::EcsError;

verus! {

/// A handle to an entity slot.
#[derive(Debug, Clone, Copy, PartialEq, Eq, Structural)]
pub struct Entity {
    pub index: usize,
}

impl Entity {
    /// Creates a handle for slot `index`.
    pub fn new(index: usize) -> (res: Self)
        ensures
            res.index == index,
    {
        Self { index }
    }
}

/// Hands out entity slots: ids that were given back are reused first
/// (last given back, first reused), then fresh ids are issued in increasing
/// order until `MAX_ENTITIES` is reached.
pub struct EntityManager {
    next_id: usize,
    free_list: Vec<usize>,
}

impl EntityManager {
    /// Well-formedness: the fresh counter never passes `MAX_ENTITIES` and
    /// every id waiting for reuse is a valid slot.
    pub open spec fn wf(&self) -> bool {
        &&& self.issued() <= MAX_ENTITIES
        &&& forall|i: int| 0 <= i < self.free_ids().len() ==> #[trigger] self.free_ids()[i] < MAX_ENTITIES
    }

    /// Number of ids issued fresh so far; the next fresh id.
    pub closed spec fn issued(&self) -> nat {
        self.next_id as nat
    }

    /// Ids given back for reuse; the last one is reused first.
    pub closed spec fn free_ids(&self) -> Seq<usize> {
        self.free_list@
    }

    /// Creates a manager that has issued no id.
    pub fn new() -> (res: Self)
        ensures
            res.wf(),
            res.issued() == 0,
            res.free_ids() == Seq::<usize>::empty(),
    {
        Self { next_id: 0, free_list: Vec::new() }
    }

    /// The entity `spawn` hands out next: the id given back last, else the
    /// next fresh id, else none once all `MAX_ENTITIES` ids are issued.
    pub open spec fn next_spawn(&self) -> Option<Entity> {
        if self.free_ids().len() > 0 {
            Some(Entity { index: self.free_ids().last() })
        } else if self.issued() < MAX_ENTITIES {
            Some(Entity { index: self.issued() as usize })
        } else {
            None
        }
    }

    /// `after` is `before` once `spawn` has run: a reused id leaves the
    /// reuse list, a fresh id advances the counter, and nothing changes when
    /// every slot is issued.
    pub open spec fn spawn_step(before: &Self, after: &Self) -> bool {
        if before.free_ids().len() > 0 {
            &&& after.free_ids() == before.free_ids().drop_last()
            &&& after.issued() == before.issued()
        } else if before.issued() < MAX_ENTITIES {
            &&& after.free_ids() == before.free_ids()
            &&& after.issued() == before.issued() + 1
        } else {
            &&& after.free_ids() == before.free_ids()
            &&& after.issued() == before.issued()
        }
    }

    /// Returns an entity: the id given back last if there is one, else a
    /// fresh id, else `None` when all `MAX_ENTITIES` slots are issued.
    pub fn spawn(&mut self) -> (res: Option<Entity>)
        requires
            old(self).wf(),
        ensures
            final(self).wf(),
            res == old(self).next_spawn(),
            Self::spawn_step(old(self), final(self)),
            res matches Some(e) ==> e.index < MAX_ENTITIES,
    {
        if let Some(id) = self.free_list.pop() {
            Some(Entity::new(id))
        } else if self.next_id < MAX_ENTITIES {
            let id: usize = self.next_id;
            self.next_id = self.next_id + 1;
            Some(Entity::new(id))
        } else {
            None
        }
    }

    /// Gives `entity`'s id back for reuse; an index that is not a valid
    /// slot is refused.
    pub fn despawn(&mut self, entity: Entity) -> (res: Result<(), EcsError>)
        requires
            old(self).wf(),
        ensures
            final(self).wf(),
            entity.index >= MAX_ENTITIES ==> {
                &&& res == Err::<(), EcsError>(EcsError::IndexOutOfBounds)
                &&& final(self).free_ids() == old(self).free_ids()
            },
            entity.index < MAX_ENTITIES ==> {
                &&& res is Ok
                &&& final(self).free_ids() == old(self).free_ids().push(entity.index)
            },
            final(self).issued() == old(self).issued(),
    {
        if entity.index >= MAX_ENTITIES {
            return Err(EcsError::IndexOutOfBounds);
        }
        self.free_list.push(entity.index);
        assert forall|i: int| 0 <= i < self.free_ids().len() implies #[trigger] self.free_ids()[i] < MAX_ENTITIES by {
            if i < old(self).free_ids().len() {
                assert(self.free_ids()[i] == old(self).free_ids()[i]);
            }
        }
        Ok(())
    }
}

/// The id a manager with reuse list `free` and fresh counter `issued` hands
/// out next, if any.
pub open spec fn next_id_of(free: Seq<usize>, issued: nat) -> Option<usize> {
    if free.len() > 0 {
        Some(free.last())
    } else if issued < MAX_ENTITIES {
        Some(issued as usize)
    } else {
        None
    }
}

/// The reuse list and fresh counter after one `spawn`.
pub open spec fn spawn_once(free: Seq<usize>, issued: nat) -> (Seq<usize>, nat) {
    if free.len() > 0 {
        (free.drop_last(), issued)
    } else if issued < MAX_ENTITIES {
        (free, issued + 1)
    } else {
        (free, issued)
    }
}

/// The reuse list and fresh counter after `n` calls of `spawn`.
pub open spec fn spawn_state(free: Seq<usize>, issued: nat, n: nat) -> (Seq<usize>, nat)
    decreases n,
{
    if n == 0 {
        (free, issued)
    } else {
        let prev = spawn_state(free, issued, (n - 1) as nat);
        spawn_once(prev.0, prev.1)
    }
}

/// The ids handed out by `n` calls of `spawn`, in order; shorter than `n`
/// when the manager runs out of ids.
pub open spec fn spawn_ids(free: Seq<usize>, issued: nat, n: nat) -> Seq<usize>
    decreases n,
{
    if n == 0 {
        Seq::empty()
    } else {
        let prev = spawn_ids(free, issued, (n - 1) as nat);
        let st = spawn_state(free, issued, (n - 1) as nat);
        match next_id_of(st.0, st.1) {
            Some(id) => prev.push(id),
            None => prev,
        }
    }
}

/// Once the manager has run out of ids, further spawns hand out nothing
/// and change nothing.
pub proof fn lemma_spawn_exhausted(free: Seq<usize>, issued: nat, k: nat, n: nat)
    requires
        k <= n,
        next_id_of(spawn_state(free, issued, k).0, spawn_state(free, issued, k).1) is None,
    ensures
        spawn_state(free, issued, n) == spawn_state(free, issued, k),
        spawn_ids(free, issued, n) == spawn_ids(free, issued, k),
    decreases n - k,
{
    if n > k {
        lemma_spawn_exhausted(free, issued, k, (n - 1) as nat);
    }
}

/// A fresh manager hands out the ids `0, 1, ..., n - 1` to its first `n`
/// spawns, for any `n` up to `MAX_ENTITIES`, and then has issued `n` ids
/// and none waits for reuse.
pub proof fn law_fresh_spawns_count_up(n: nat)
    requires
        n <= MAX_ENTITIES,
    ensures
        spawn_ids(Seq::<usize>::empty(), 0, n) == Seq::new(n, |i: int| i as usize),
        spawn_state(Seq::<usize>::empty(), 0, n) == (Seq::<usize>::empty(), n),
    decreases n,
{
    if n > 0 {
        law_fresh_spawns_count_up((n - 1) as nat);
        assert(spawn_ids(Seq::<usize>::empty(), 0, n) =~= Seq::new(n, |i: int| i as usize));
    }
}

/// Every entity a well-formed manager hands out is a valid slot, so every
/// component storage accepts it.
pub proof fn law_spawned_entity_is_storable(m: &EntityManager)
    requires
        m.wf(),
        m.next_spawn() is Some,
    ensures
        m.next_spawn()->0.index < MAX_ENTITIES,
{
    if m.free_ids().len() > 0 {
        assert(m.free_ids().last() == m.free_ids()[m.free_ids().len() - 1]);
    }
}

/// The ids currently in use: issued and not waiting for reuse.
pub open spec fn in_use(m: &EntityManager) -> Set<usize> {
    Set::new(|i: usize| i < m.issued() && !m.free_ids().contains(i))
}

/// Every id waiting for reuse was issued, and none waits twice.
pub open spec fn reuse_list_consistent(m: &EntityManager) -> bool {
    &&& m.free_ids().no_duplicates()
    &&& forall|k: int| 0 <= k < m.free_ids().len() ==> #[trigger] m.free_ids()[k] < m.issued()
}

/// `spawn` never hands out an id that is in use, as long as each id is given
/// back at most once while in use: the spawned id joins the ids in use and
/// the reuse list stays consistent.
pub proof fn law_spawn_hands_out_unused_id(before: &EntityManager, after: &EntityManager)
    requires
        before.wf(),
        reuse_list_consistent(before),
        EntityManager::spawn_step(before, after),
        before.next_spawn() is Some,
    ensures
        !in_use(before).contains(before.next_spawn()->0.index),
        in_use(after) == in_use(before).insert(before.next_spawn()->0.index),
        reuse_list_consistent(after),
{
    let e = before.next_spawn()->0.index;
    if before.free_ids().len() > 0 {
        let f = before.free_ids();
        assert(f.last() == f[f.len() - 1]);
        assert(f.contains(e));
        assert forall|i: usize| #[trigger] in_use(after).contains(i) <==> in_use(before).insert(e).contains(i) by {
            if i == e {
                if after.free_ids().contains(i) {
                    let k = choose|k: int| 0 <= k < after.free_ids().len() && after.free_ids()[k] == i;
                    assert(f[k] == f[f.len() - 1]);
                }
            } else {
                if f.contains(i) {
                    let k = choose|k: int| 0 <= k < f.len() && f[k] == i;
                    assert(k != f.len() - 1);
                    assert(after.free_ids()[k] == i);
                }
                if after.free_ids().contains(i) {
                    let k = choose|k: int| 0 <= k < after.free_ids().len() && after.free_ids()[k] == i;
                    assert(f[k] == i);
                }
            }
        }
        assert(in_use(after) =~= in_use(before).insert(e));
    } else {
        assert(e == before.issued());
        assert forall|i: usize| #[trigger] in_use(after).contains(i) <==> in_use(before).insert(e).contains(i) by {
            assert(!before.free_ids().contains(i));
        }
        assert(in_use(after) =~= in_use(before).insert(e));
    }
}

/// Giving back an id that is in use removes it from the ids in use and
/// keeps the reuse list consistent; the next `spawn` hands it out again.
pub proof fn law_despawn_then_spawn_reuses(before: &EntityManager, after: &EntityManager, entity: Entity)
    requires
        before.wf(),
        reuse_list_consistent(before),
        in_use(before).contains(entity.index),
        after.issued() == before.issued(),
        after.free_ids() == before.free_ids().push(entity.index),
    ensures
        in_use(after) == in_use(before).remove(entity.index),
        reuse_list_consistent(after),
        after.next_spawn() == Some(entity),
{
    let f = before.free_ids();
    let g = after.free_ids();
    assert(g.last() == entity.index);
    assert forall|i: usize| #[trigger] g.contains(i) <==> (f.contains(i) || i == entity.index) by {
        if g.contains(i) {
            let k = choose|k: int| 0 <= k < g.len() && g[k] == i;
            if k < f.len() {
                assert(f[k] == i);
            }
        }
        if f.contains(i) {
            let k = choose|k: int| 0 <= k < f.len() && f[k] == i;
            assert(g[k] == i);
        }
        if i == entity.index {
            assert(g[g.len() - 1] == i);
        }
    }
    assert(in_use(after) =~= in_use(before).remove(entity.index));
    assert forall|a: int, b: int| 0 <= a < g.len() && 0 <= b < g.len() && a != b implies g[a] != g[b] by {
        if a == f.len() && b < f.len() {
            assert(f.contains(g[b]));
        } else if b == f.len() && a < f.len() {
            assert(f.contains(g[a]));
        }
    }
}

} // verus!
