use vstd::prelude::*;

use crate::ecs::component::ComponentStorage;
use crate::ecs::entity::{spawn_ids, spawn_state, lemma_spawn_exhausted, Entity, EntityManager};
use crate::error::EcsError;
use crate::grid::{constant, stamped, GridLayout, PixelPos, PixelSize};
use crate::random::random_u8;

verus! {

/// An 8-bit RGB colour.
#[derive(Debug, Clone, Copy, PartialEq, Eq, Structural)]
pub struct Colour {
    pub r: u8,
    pub g: u8,
    pub b: u8,
}

impl Default for Colour {
    fn default() -> (res: Self)
        ensures
            res == (Colour { r: 0, g: 0, b: 0 }),
    {
        Colour { r: 0, g: 0, b: 0 }
    }
}

impl Colour {
    /// The colours the coloured grid starts with: red and blue in
    /// `200..250`, green in `50..100`.
    pub open spec fn is_pastel(self) -> bool {
        &&& 200 <= self.r < 250
        &&& 50 <= self.g < 100
        &&& 200 <= self.b < 250
    }

    /// A random pastel colour.
    pub fn random_pastel() -> (res: Colour)
        ensures
            res.is_pastel(),
    {
        Colour { r: random_u8(200, 250), g: random_u8(50, 100), b: random_u8(200, 250) }
    }

    /// White.
    pub fn white() -> (res: Colour)
        ensures
            res == (Colour { r: 255, g: 255, b: 255 }),
    {
        Colour { r: 255, g: 255, b: 255 }
    }
}

/// The components of the coloured grid world.
pub struct ColourComponents {
    pub positions: ComponentStorage<PixelPos>,
    pub sizes: ComponentStorage<PixelSize>,
    pub colours: ComponentStorage<Colour>,
}

impl ColourComponents {
    /// Every storage is well formed.
    pub open spec fn wf(&self) -> bool {
        &&& self.positions.wf()
        &&& self.sizes.wf()
        &&& self.colours.wf()
    }

    /// Components with no live entity.
    pub fn new() -> (res: Self)
        ensures
            res.wf(),
            res.positions@ == Map::<usize, PixelPos>::empty(),
            res.sizes@ == Map::<usize, PixelSize>::empty(),
            res.colours@ == Map::<usize, Colour>::empty(),
    {
        ColourComponents {
            positions: ComponentStorage::new(),
            sizes: ComponentStorage::new(),
            colours: ComponentStorage::new(),
        }
    }
}

/// `after` holds a pastel colour for every id in `ids`, and what `before`
/// held for every other slot.
pub open spec fn painted(before: Map<usize, Colour>, after: Map<usize, Colour>, ids: Seq<usize>) -> bool {
    &&& forall|i: usize| #[trigger] after.dom().contains(i) <==> before.dom().contains(i) || ids.contains(i)
    &&& forall|i: usize| #[trigger] ids.contains(i) ==> after[i].is_pastel()
    &&& forall|i: usize| #[trigger] before.dom().contains(i) && !ids.contains(i) ==> after[i] == before[i]
}

/// Spawns one entity per grid cell for the coloured grid. Each spawned
/// entity sits at the pixel position of the cell of its own index, has the
/// cell's size and gets a random pastel colour. Fails with `NoFreeSlot` at
/// the first spawn that finds no id.
pub fn create_rects(
    entity_manager: &mut EntityManager,
    components: &mut ColourComponents,
    layout: GridLayout,
) -> (res: Result<(), EcsError>)
    requires
        old(entity_manager).wf(),
        old(components).wf(),
        layout.wf(),
    ensures
        final(entity_manager).wf(),
        final(components).wf(),
        ({
            let ids = spawn_ids(old(entity_manager).free_ids(), old(entity_manager).issued(), layout.cells());
            let st = spawn_state(old(entity_manager).free_ids(), old(entity_manager).issued(), layout.cells());
            &&& final(entity_manager).free_ids() == st.0
            &&& final(entity_manager).issued() == st.1
            &&& (res is Ok <==> ids.len() == layout.cells())
            &&& (res is Err ==> res == Err::<(), EcsError>(EcsError::NoFreeSlot))
            &&& final(components).positions@ == stamped(old(components).positions@, ids, layout.pos_fn())
            &&& final(components).sizes@ == stamped(old(components).sizes@, ids, constant(layout.size_of()))
            &&& painted(old(components).colours@, final(components).colours@, ids)
        }),
{
    let ghost free0 = entity_manager.free_ids();
    let ghost issued0 = entity_manager.issued();
    let ghost pos_f = layout.pos_fn();
    let ghost size_f = constant(layout.size_of());
    let ghost p0 = components.positions@;
    let ghost s0 = components.sizes@;
    let ghost c0 = components.colours@;
    proof {
        crate::grid::lemma_stamp_empty(p0, pos_f);
        crate::grid::lemma_stamp_empty(s0, size_f);
    }
    let n: usize = layout.cell_count();
    let mut k: usize = 0;
    while k < n
        invariant
            layout.wf(),
            n == layout.cells(),
            k <= n,
            free0 == old(entity_manager).free_ids(),
            issued0 == old(entity_manager).issued(),
            p0 == old(components).positions@,
            s0 == old(components).sizes@,
            c0 == old(components).colours@,
            pos_f == layout.pos_fn(),
            size_f == constant(layout.size_of()),
            entity_manager.wf(),
            components.wf(),
            entity_manager.free_ids() == spawn_state(free0, issued0, k as nat).0,
            entity_manager.issued() == spawn_state(free0, issued0, k as nat).1,
            spawn_ids(free0, issued0, k as nat).len() == k,
            components.positions@ == stamped(p0, spawn_ids(free0, issued0, k as nat), pos_f),
            components.sizes@ == stamped(s0, spawn_ids(free0, issued0, k as nat), size_f),
            painted(c0, components.colours@, spawn_ids(free0, issued0, k as nat)),
        decreases n - k,
    {
        let ghost ids = spawn_ids(free0, issued0, k as nat);
        let ghost cprev = components.colours@;
        let spawned = entity_manager.spawn();
        let entity = match spawned {
            Some(e) => e,
            None => {
                proof {
                    lemma_spawn_exhausted(free0, issued0, k as nat, n as nat);
                }
                return Err(EcsError::NoFreeSlot);
            },
        };
        let ghost ids2 = ids.push(entity.index);
        proof {
            assert(spawn_ids(free0, issued0, (k + 1) as nat) == ids2);
            crate::grid::lemma_stamp_push(p0, ids, entity.index, pos_f);
            crate::grid::lemma_stamp_push(s0, ids, entity.index, size_f);
        }
        let pos = layout.pixel_pos(entity.index);
        let size = layout.cell_size();
        components.positions.insert(entity, pos)?;
        components.sizes.insert(entity, size)?;
        let colour = Colour::random_pastel();
        components.colours.insert(entity, colour)?;
        proof {
            assert forall|i: usize| #[trigger] ids2.contains(i) <==> (ids.contains(i) || i == entity.index) by {
                if ids2.contains(i) {
                    let j = choose|j: int| 0 <= j < ids2.len() && ids2[j] == i;
                    if j < ids.len() {
                        assert(ids[j] == i);
                    }
                }
                if ids.contains(i) {
                    let j = choose|j: int| 0 <= j < ids.len() && ids[j] == i;
                    assert(ids2[j] == i);
                }
                if i == entity.index {
                    assert(ids2[ids.len() as int] == i);
                }
            }
            assert forall|i: usize| #[trigger] ids2.contains(i) implies components.colours@[i].is_pastel() by {
                if i != entity.index {
                    assert(ids.contains(i));
                }
            }
        }
        k = k + 1;
    }
    Ok(())
}

/// Reacts to clicks on the coloured grid.
pub struct HighlightSystem;

impl HighlightSystem {
    /// Paints the cell in column `gx`, row `gy` (cell index
    /// `gy * cols + gx`) white; fails with `NotFound`, changing nothing,
    /// when that cell holds no colour.
    pub fn update(components: &mut ComponentStorage<Colour>, layout: GridLayout, gx: u8, gy: u8) -> (res: Result<(), EcsError>)
        requires
            old(components).wf(),
            layout.index_of(gx, gy) <= u8::MAX,
        ensures
            final(components).wf(),
            ({
                let i = layout.index_of(gx, gy) as usize;
                &&& (res is Ok <==> old(components)@.dom().contains(i))
                &&& (res is Ok ==> final(components)@ == old(components)@.insert(i, Colour { r: 255, g: 255, b: 255 }))
                &&& (res is Err ==> res == Err::<(), EcsError>(EcsError::NotFound) && final(components)@ == old(components)@)
            }),
    {
        let idx: u8 = gy * layout.cols + gx;
        let entity = Entity::new(idx as usize);
        match components.get_mut(entity) {
            Some(slot) => {
                *slot = Colour::white();
                Ok(())
            },
            None => Err(EcsError::NotFound),
        }
    }
}

} // verus!
