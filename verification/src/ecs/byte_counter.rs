use vstd::prelude::*;

verus! {

/// Hands out `u8` entity ids with no slot limit below 255: ids that were
/// given back are reused first (last given back, first reused), else the
/// counter's next value is issued.
pub struct EntityManager {
    next_id: u8,
    free_list: Vec<u8>,
}

impl EntityManager {
    /// Number of ids issued fresh so far; the next fresh id.
    pub closed spec fn issued(&self) -> nat {
        self.next_id as nat
    }

    /// Ids given back for reuse; the last one is reused first.
    pub closed spec fn free_ids(&self) -> Seq<u8> {
        self.free_list@
    }

    /// Creates a manager that has issued no id.
    pub fn new() -> (res: Self)
        ensures
            res.issued() == 0,
            res.free_ids() == Seq::<u8>::empty(),
    {
        Self { next_id: 0, free_list: Vec::new() }
    }

    /// `after` and `id` are what `spawn` leaves and returns from `before`:
    /// the id given back last leaves the reuse list, or else the counter's
    /// value is returned and the counter advances by one.
    pub open spec fn spawn_step(before: &Self, after: &Self, id: u8) -> bool {
        if before.free_ids().len() > 0 {
            &&& id == before.free_ids().last()
            &&& after.free_ids() == before.free_ids().drop_last()
            &&& after.issued() == before.issued()
        } else {
            &&& id == before.issued()
            &&& after.free_ids() == before.free_ids()
            &&& after.issued() == before.issued() + 1
        }
    }

    /// Returns the id given back last if there is one, else the counter's
    /// value, which then advances. The counter must not be at `u8::MAX`
    /// when it is used.
    pub fn spawn(&mut self) -> (res: u8)
        requires
            old(self).free_ids().len() == 0 ==> old(self).issued() < u8::MAX,
        ensures
            Self::spawn_step(old(self), final(self), res),
    {
        if let Some(id) = self.free_list.pop() {
            id
        } else {
            let id: u8 = self.next_id;
            self.next_id = self.next_id + 1;
            id
        }
    }

    /// Gives `id` back for reuse.
    pub fn despawn(&mut self, id: u8)
        ensures
            final(self).free_ids() == old(self).free_ids().push(id),
            final(self).issued() == old(self).issued(),
    {
        self.free_list.push(id);
    }
}

/// Giving an id back and spawning again returns that id and leaves the
/// manager as it was before the id was given back.
pub proof fn law_despawn_then_spawn_reuses(
    before: &EntityManager,
    mid: &EntityManager,
    after: &EntityManager,
    id: u8,
    res: u8,
)
    requires
        mid.free_ids() == before.free_ids().push(id),
        mid.issued() == before.issued(),
        EntityManager::spawn_step(mid, after, res),
    ensures
        res == id,
        after.free_ids() == before.free_ids(),
        after.issued() == before.issued(),
{
    assert(mid.free_ids().drop_last() =~= before.free_ids());
}

/// While no id waits for reuse, each spawn returns the counter's value and
/// advances it by one, so a fresh manager hands out `0, 1, 2, ...`.
pub proof fn law_fresh_spawn_returns_count(before: &EntityManager, after: &EntityManager, res: u8)
    requires
        before.free_ids() == Seq::<u8>::empty(),
        EntityManager::spawn_step(before, after, res),
    ensures
        res == before.issued(),
        after.issued() == before.issued() + 1,
        after.free_ids() == Seq::<u8>::empty(),
{
}

} // verus!
