use vstd::prelude::*;

use crate::config::{MAX_COL, MAX_ENTITIES, MAX_ROW, RECT_HEIGHT, RECT_WIDTH};
use crate::ecs::component::ComponentStorage;
use crate::ecs::entity::{law_fresh_spawns_count_up, lemma_spawn_exhausted, spawn_ids, spawn_state, Entity, EntityManager};
use crate::error::EcsError;
use crate::sprite::Sprite;

verus! {

/// A position in whole pixels of the logical world.
#[derive(Debug, Clone, Copy, PartialEq, Eq, Structural)]
pub struct PixelPos {
    pub x: u8,
    pub y: u8,
}

/// A size in whole pixels of the logical world.
#[derive(Debug, Clone, Copy, PartialEq, Eq, Structural)]
pub struct PixelSize {
    pub w: u8,
    pub h: u8,
}

impl Default for PixelPos {
    fn default() -> (res: Self)
        ensures
            res == (PixelPos { x: 0, y: 0 }),
    {
        PixelPos { x: 0, y: 0 }
    }
}

impl Default for PixelSize {
    fn default() -> (res: Self)
        ensures
            res == (PixelSize { w: 0, h: 0 }),
    {
        PixelSize { w: 0, h: 0 }
    }
}

/// A grid of `cols` x `rows` cells of `cell_w` x `cell_h` pixels; entity
/// `i` sits in column `i % cols`, row `i / cols`.
#[derive(Debug, Clone, Copy, PartialEq, Eq, Structural)]
pub struct GridLayout {
    pub cols: u8,
    pub rows: u8,
    pub cell_w: u8,
    pub cell_h: u8,
}

/// `before` with the slots in `ids` set to `f` of their index.
pub open spec fn stamped<T>(before: Map<usize, T>, ids: Seq<usize>, f: spec_fn(usize) -> T) -> Map<usize, T> {
    Map::new(
        |i: usize| before.dom().contains(i) || ids.contains(i),
        |i: usize| if ids.contains(i) { f(i) } else { before[i] },
    )
}

/// The function that is `v` everywhere.
pub open spec fn constant<T>(v: T) -> spec_fn(usize) -> T {
    |i: usize| v
}

pub(crate) proof fn lemma_stamp_push<T>(before: Map<usize, T>, ids: Seq<usize>, id: usize, f: spec_fn(usize) -> T)
    ensures
        stamped(before, ids.push(id), f) == stamped(before, ids, f).insert(id, f(id)),
{
    assert forall|i: usize| #[trigger] ids.push(id).contains(i) <==> (ids.contains(i) || i == id) by {
        if ids.push(id).contains(i) {
            let k = choose|k: int| 0 <= k < ids.push(id).len() && ids.push(id)[k] == i;
            if k < ids.len() {
                assert(ids[k] == i);
            }
        }
        if ids.contains(i) {
            let k = choose|k: int| 0 <= k < ids.len() && ids[k] == i;
            assert(ids.push(id)[k] == i);
        }
        if i == id {
            assert(ids.push(id)[ids.len() as int] == i);
        }
    }
    assert(stamped(before, ids.push(id), f) =~= stamped(before, ids, f).insert(id, f(id)));
}

pub(crate) proof fn lemma_stamp_empty<T>(before: Map<usize, T>, f: spec_fn(usize) -> T)
    ensures
        stamped(before, Seq::<usize>::empty(), f) == before,
{
    assert(stamped(before, Seq::<usize>::empty(), f) =~= before);
}

impl GridLayout {
    /// The layout of the animated grid: 4 x 4 cells of 32 x 32 pixels.
    pub fn animation_grid() -> (res: Self)
        ensures
            res == (GridLayout { cols: MAX_COL, rows: MAX_ROW, cell_w: RECT_WIDTH, cell_h: RECT_HEIGHT }),
            res.wf(),
            res.cells() == MAX_ENTITIES,
    {
        let res = GridLayout { cols: MAX_COL, rows: MAX_ROW, cell_w: RECT_WIDTH, cell_h: RECT_HEIGHT };
        assert(res.cols * res.rows == 16) by (nonlinear_arith)
            requires
                res.cols == 4,
                res.rows == 4,
        ;
        res
    }

    /// The layout of the coloured grid: 4 x 3 cells of 41 x 46 pixels
    /// (a 166 x 140 world).
    pub fn colour_grid() -> (res: Self)
        ensures
            res == (GridLayout { cols: 4, rows: 3, cell_w: 41, cell_h: 46 }),
            res.wf(),
            res.cells() == 12,
    {
        GridLayout { cols: 4, rows: 3, cell_w: 41, cell_h: 46 }
    }

    /// Well-formedness: at least one cell, no more cells than entity slots,
    /// and the pixel position of every entity slot fits in a `u8`.
    pub open spec fn wf(&self) -> bool {
        &&& self.cols >= 1
        &&& self.rows >= 1
        &&& self.cols * self.rows <= MAX_ENTITIES
        &&& self.cell_w * (self.cols - 1) <= u8::MAX
        &&& self.cell_h * ((MAX_ENTITIES - 1) / (self.cols as int)) <= u8::MAX
    }

    /// Number of cells.
    pub open spec fn cells(&self) -> nat {
        (self.cols * self.rows) as nat
    }

    /// Pixel position of the cell of entity slot `i`.
    pub open spec fn pos_of(&self, i: usize) -> PixelPos {
        PixelPos {
            x: (self.cell_w * ((i as int) % (self.cols as int))) as u8,
            y: (self.cell_h * ((i as int) / (self.cols as int))) as u8,
        }
    }

    /// `pos_of` as a function value.
    pub open spec fn pos_fn(&self) -> spec_fn(usize) -> PixelPos {
        |i: usize| self.pos_of(i)
    }

    /// Size of one cell.
    pub open spec fn size_of(&self) -> PixelSize {
        PixelSize { w: self.cell_w, h: self.cell_h }
    }

    /// Index of the cell in column `gx`, row `gy`.
    pub open spec fn index_of(&self, gx: u8, gy: u8) -> int {
        gy * self.cols + gx
    }

    /// Number of cells.
    pub fn cell_count(&self) -> (res: usize)
        requires
            self.wf(),
        ensures
            res == self.cells(),
    {
        (self.cols as usize) * (self.rows as usize)
    }

    /// Pixel position of the cell of entity slot `index`.
    pub fn pixel_pos(&self, index: usize) -> (res: PixelPos)
        requires
            self.wf(),
            index < MAX_ENTITIES,
        ensures
            res == self.pos_of(index),
    {
        let i: u8 = index as u8;
        let col: u8 = i % self.cols;
        let row: u8 = i / self.cols;
        proof {
            assert(col <= self.cols - 1);
            assert(row <= (MAX_ENTITIES - 1) / (self.cols as int)) by (nonlinear_arith)
                requires
                    row == i / self.cols,
                    i <= MAX_ENTITIES - 1,
                    self.cols >= 1,
            ;
            assert(self.cell_w * col <= self.cell_w * (self.cols - 1)) by (nonlinear_arith)
                requires
                    col <= self.cols - 1,
            ;
            assert(self.cell_h * row <= self.cell_h * ((MAX_ENTITIES - 1) / (self.cols as int))) by (nonlinear_arith)
                requires
                    row <= (MAX_ENTITIES - 1) / (self.cols as int),
            ;
        }
        PixelPos { x: self.cell_w * col, y: self.cell_h * row }
    }

    /// Size of one cell.
    pub fn cell_size(&self) -> (res: PixelSize)
        ensures
            res == self.size_of(),
    {
        PixelSize { w: self.cell_w, h: self.cell_h }
    }
}

/// The components of the animated grid world: where each entity sits, its
/// size, its sprite, its animation frame and the time spent on that frame.
pub struct GridComponents<S, E> {
    pub positions: ComponentStorage<PixelPos>,
    pub sizes: ComponentStorage<PixelSize>,
    pub sprites: ComponentStorage<S>,
    pub flames: ComponentStorage<u8>,
    pub elapsed: ComponentStorage<E>,
}

impl<S, E> GridComponents<S, E> {
    /// Every storage is well formed.
    pub open spec fn wf(&self) -> bool {
        &&& self.positions.wf()
        &&& self.sizes.wf()
        &&& self.sprites.wf()
        &&& self.flames.wf()
        &&& self.elapsed.wf()
    }
}

impl<S: Default, E: Default> GridComponents<S, E> {
    /// Components with no live entity.
    pub fn new() -> (res: Self)
        ensures
            res.wf(),
            res.positions@ == Map::<usize, PixelPos>::empty(),
            res.sizes@ == Map::<usize, PixelSize>::empty(),
            res.sprites@ == Map::<usize, S>::empty(),
            res.flames@ == Map::<usize, u8>::empty(),
            res.elapsed@ == Map::<usize, E>::empty(),
    {
        GridComponents {
            positions: ComponentStorage::new(),
            sizes: ComponentStorage::new(),
            sprites: ComponentStorage::new(),
            flames: ComponentStorage::new(),
            elapsed: ComponentStorage::new(),
        }
    }
}

/// Spawns one entity per grid cell. Each spawned entity sits at the pixel
/// position of the cell of its own index, has the cell's size, shows
/// `sprite` from frame 0, and starts with `elapsed_start` time on that
/// frame. Fails with `NoFreeSlot` at the first spawn that finds no id; the
/// entities spawned before it keep their components.
pub fn create_grid_entities<S: Copy, E: Copy>(
    entity_manager: &mut EntityManager,
    components: &mut GridComponents<S, E>,
    layout: GridLayout,
    sprite: S,
    elapsed_start: E,
) -> (res: Result<(), EcsError>)
    requires
        old(entity_manager).wf(),
        old(components).wf(),
        layout.wf(),
    ensures
        final(entity_manager).wf(),
        final(components).wf(),
        ({
            let ids = spawn_ids(old(entity_manager).free_ids(), old(entity_manager).issued(), layout.cells());
            let st = spawn_state(old(entity_manager).free_ids(), old(entity_manager).issued(), layout.cells());
            &&& final(entity_manager).free_ids() == st.0
            &&& final(entity_manager).issued() == st.1
            &&& (res is Ok <==> ids.len() == layout.cells())
            &&& (res is Err ==> res == Err::<(), EcsError>(EcsError::NoFreeSlot))
            &&& final(components).positions@ == stamped(old(components).positions@, ids, layout.pos_fn())
            &&& final(components).sizes@ == stamped(old(components).sizes@, ids, constant(layout.size_of()))
            &&& final(components).sprites@ == stamped(old(components).sprites@, ids, constant(sprite))
            &&& final(components).flames@ == stamped(old(components).flames@, ids, constant(0u8))
            &&& final(components).elapsed@ == stamped(old(components).elapsed@, ids, constant(elapsed_start))
        }),
{
    let ghost free0 = entity_manager.free_ids();
    let ghost issued0 = entity_manager.issued();
    let ghost pos_f = layout.pos_fn();
    let ghost size_f = constant(layout.size_of());
    let ghost sprite_f = constant(sprite);
    let ghost flame_f = constant(0u8);
    let ghost elapsed_f = constant(elapsed_start);
    let ghost p0 = components.positions@;
    let ghost s0 = components.sizes@;
    let ghost sp0 = components.sprites@;
    let ghost f0 = components.flames@;
    let ghost e0 = components.elapsed@;
    proof {
        lemma_stamp_empty(p0, pos_f);
        lemma_stamp_empty(s0, size_f);
        lemma_stamp_empty(sp0, sprite_f);
        lemma_stamp_empty(f0, flame_f);
        lemma_stamp_empty(e0, elapsed_f);
    }
    let n: usize = layout.cell_count();
    let mut k: usize = 0;
    while k < n
        invariant
            layout.wf(),
            n == layout.cells(),
            free0 == old(entity_manager).free_ids(),
            issued0 == old(entity_manager).issued(),
            p0 == old(components).positions@,
            s0 == old(components).sizes@,
            sp0 == old(components).sprites@,
            f0 == old(components).flames@,
            e0 == old(components).elapsed@,
            pos_f == layout.pos_fn(),
            size_f == constant(layout.size_of()),
            sprite_f == constant(sprite),
            flame_f == constant(0u8),
            elapsed_f == constant(elapsed_start),
            k <= n,
            entity_manager.wf(),
            components.wf(),
            entity_manager.free_ids() == spawn_state(free0, issued0, k as nat).0,
            entity_manager.issued() == spawn_state(free0, issued0, k as nat).1,
            spawn_ids(free0, issued0, k as nat).len() == k,
            components.positions@ == stamped(p0, spawn_ids(free0, issued0, k as nat), pos_f),
            components.sizes@ == stamped(s0, spawn_ids(free0, issued0, k as nat), size_f),
            components.sprites@ == stamped(sp0, spawn_ids(free0, issued0, k as nat), sprite_f),
            components.flames@ == stamped(f0, spawn_ids(free0, issued0, k as nat), flame_f),
            components.elapsed@ == stamped(e0, spawn_ids(free0, issued0, k as nat), elapsed_f),
        decreases n - k,
    {
        let ghost ids = spawn_ids(free0, issued0, k as nat);
        let spawned = entity_manager.spawn();
        let entity = match spawned {
            Some(e) => e,
            None => {
                proof {
                    lemma_spawn_exhausted(free0, issued0, k as nat, n as nat);
                }
                return Err(EcsError::NoFreeSlot);
            },
        };
        proof {
            assert(spawn_ids(free0, issued0, (k + 1) as nat) == ids.push(entity.index));
            lemma_stamp_push(p0, ids, entity.index, pos_f);
            lemma_stamp_push(s0, ids, entity.index, size_f);
            lemma_stamp_push(sp0, ids, entity.index, sprite_f);
            lemma_stamp_push(f0, ids, entity.index, flame_f);
            lemma_stamp_push(e0, ids, entity.index, elapsed_f);
        }
        let pos = layout.pixel_pos(entity.index);
        let size = layout.cell_size();
        components.positions.insert(entity, pos)?;
        components.sizes.insert(entity, size)?;
        components.sprites.insert(entity, sprite)?;
        components.flames.insert(entity, 0)?;
        components.elapsed.insert(entity, elapsed_start)?;
        k = k + 1;
    }
    Ok(())
}

/// The flower of entity slot `i` in the flower grid: red on even slots,
/// yellow on odd ones.
pub open spec fn flower_of(i: usize) -> Sprite {
    if i % 2 == 0 {
        Sprite::RedFlower
    } else {
        Sprite::YellowFlower
    }
}

/// `flower_of` as a function value.
pub open spec fn flower_fn() -> spec_fn(usize) -> Sprite {
    |i: usize| flower_of(i)
}

/// Spawns one entity per grid cell for the flower grid. Each spawned entity
/// sits at the pixel position of the cell of its own index, has the cell's
/// size, and shows a red flower on an even index and a yellow one on an odd
/// index. Fails with `NoFreeSlot` at the first spawn that finds no id.
pub fn create_entities<E>(
    entity_manager: &mut EntityManager,
    components: &mut GridComponents<Sprite, E>,
    layout: GridLayout,
) -> (res: Result<(), EcsError>)
    requires
        old(entity_manager).wf(),
        old(components).wf(),
        layout.wf(),
    ensures
        final(entity_manager).wf(),
        final(components).wf(),
        ({
            let ids = spawn_ids(old(entity_manager).free_ids(), old(entity_manager).issued(), layout.cells());
            let st = spawn_state(old(entity_manager).free_ids(), old(entity_manager).issued(), layout.cells());
            &&& final(entity_manager).free_ids() == st.0
            &&& final(entity_manager).issued() == st.1
            &&& (res is Ok <==> ids.len() == layout.cells())
            &&& (res is Err ==> res == Err::<(), EcsError>(EcsError::NoFreeSlot))
            &&& final(components).positions@ == stamped(old(components).positions@, ids, layout.pos_fn())
            &&& final(components).sizes@ == stamped(old(components).sizes@, ids, constant(layout.size_of()))
            &&& final(components).sprites@ == stamped(old(components).sprites@, ids, flower_fn())
            &&& final(components).flames@ == old(components).flames@
            &&& final(components).elapsed@ == old(components).elapsed@
        }),
{
    let ghost free0 = entity_manager.free_ids();
    let ghost issued0 = entity_manager.issued();
    let ghost pos_f = layout.pos_fn();
    let ghost size_f = constant(layout.size_of());
    let ghost sprite_f = flower_fn();
    let ghost p0 = components.positions@;
    let ghost s0 = components.sizes@;
    let ghost sp0 = components.sprites@;
    proof {
        lemma_stamp_empty(p0, pos_f);
        lemma_stamp_empty(s0, size_f);
        lemma_stamp_empty(sp0, sprite_f);
    }
    let n: usize = layout.cell_count();
    let mut k: usize = 0;
    while k < n
        invariant
            layout.wf(),
            n == layout.cells(),
            k <= n,
            free0 == old(entity_manager).free_ids(),
            issued0 == old(entity_manager).issued(),
            p0 == old(components).positions@,
            s0 == old(components).sizes@,
            sp0 == old(components).sprites@,
            components.flames@ == old(components).flames@,
            components.elapsed@ == old(components).elapsed@,
            pos_f == layout.pos_fn(),
            size_f == constant(layout.size_of()),
            sprite_f == flower_fn(),
            entity_manager.wf(),
            components.wf(),
            entity_manager.free_ids() == spawn_state(free0, issued0, k as nat).0,
            entity_manager.issued() == spawn_state(free0, issued0, k as nat).1,
            spawn_ids(free0, issued0, k as nat).len() == k,
            components.positions@ == stamped(p0, spawn_ids(free0, issued0, k as nat), pos_f),
            components.sizes@ == stamped(s0, spawn_ids(free0, issued0, k as nat), size_f),
            components.sprites@ == stamped(sp0, spawn_ids(free0, issued0, k as nat), sprite_f),
        decreases n - k,
    {
        let ghost ids = spawn_ids(free0, issued0, k as nat);
        let spawned = entity_manager.spawn();
        let entity = match spawned {
            Some(e) => e,
            None => {
                proof {
                    lemma_spawn_exhausted(free0, issued0, k as nat, n as nat);
                }
                return Err(EcsError::NoFreeSlot);
            },
        };
        proof {
            assert(spawn_ids(free0, issued0, (k + 1) as nat) == ids.push(entity.index));
            lemma_stamp_push(p0, ids, entity.index, pos_f);
            lemma_stamp_push(s0, ids, entity.index, size_f);
            lemma_stamp_push(sp0, ids, entity.index, sprite_f);
        }
        let pos = layout.pixel_pos(entity.index);
        let size = layout.cell_size();
        components.positions.insert(entity, pos)?;
        components.sizes.insert(entity, size)?;
        let sprite = if entity.index % 2 == 0 {
            Sprite::RedFlower
        } else {
            Sprite::YellowFlower
        };
        components.sprites.insert(entity, sprite)?;
        k = k + 1;
    }
    Ok(())
}

/// On a fresh manager and empty storages, the grid world holds exactly one
/// entity per cell: entity `i` for every cell `i`, at that cell's position.
pub proof fn law_fresh_grid_fills_each_cell(layout: GridLayout, after: Map<usize, PixelPos>)
    requires
        layout.wf(),
        after == stamped(
            Map::<usize, PixelPos>::empty(),
            spawn_ids(Seq::<usize>::empty(), 0, layout.cells()),
            layout.pos_fn(),
        ),
    ensures
        forall|i: usize| #[trigger] after.dom().contains(i) <==> i < layout.cells(),
        forall|i: usize| i < layout.cells() ==> #[trigger] after[i] == layout.pos_of(i),
{
    let n = layout.cells();
    law_fresh_spawns_count_up(n);
    let ids = spawn_ids(Seq::<usize>::empty(), 0, n);
    assert forall|i: usize| #[trigger] ids.contains(i) <==> i < n by {
        if i < n {
            assert(ids[i as int] == i);
        }
    }
}

/// Reacts to clicks on the flower grid.
pub struct ReactSystem;

impl ReactSystem {
    /// Toggles the flower in column `gx`, row `gy` of the grid (cell index
    /// `gy * cols + gx`); fails with `NotFound`, changing nothing, when that
    /// cell holds no flower.
    pub fn update(components: &mut ComponentStorage<Sprite>, layout: GridLayout, gx: u8, gy: u8) -> (res: Result<(), EcsError>)
        requires
            old(components).wf(),
            layout.index_of(gx, gy) <= u8::MAX,
        ensures
            final(components).wf(),
            ({
                let i = layout.index_of(gx, gy) as usize;
                &&& (res is Ok <==> old(components)@.dom().contains(i))
                &&& (res is Ok ==> final(components)@ == old(components)@.insert(i, old(components)@[i].other()))
                &&& (res is Err ==> res == Err::<(), EcsError>(EcsError::NotFound) && final(components)@ == old(components)@)
            }),
    {
        let idx: u8 = gy * layout.cols + gx;
        let entity = Entity::new(idx as usize);
        let sprite = match components.get(entity) {
            Some(s) => *s,
            None => {
                return Err(EcsError::NotFound);
            },
        };
        let new_sprite = sprite.toggled();
        match components.get_mut(entity) {
            Some(slot) => {
                *slot = new_sprite;
            },
            None => {
                return Err(EcsError::NotFound);
            },
        }
        Ok(())
    }
}

/// Clicking the same cell twice gives back the flowers there were before.
pub proof fn law_toggle_twice_restores(
    before: &ComponentStorage<Sprite>,
    mid: &ComponentStorage<Sprite>,
    after: &ComponentStorage<Sprite>,
    i: usize,
)
    requires
        before@.dom().contains(i),
        mid@ == before@.insert(i, before@[i].other()),
        after@ == mid@.insert(i, mid@[i].other()),
    ensures
        after@ == before@,
{
    assert(after@ =~= before@);
}

/// The flower grid alternates: cell 0 is red, an even cell red and an odd
/// cell yellow, and each cell shows the other flower than the one before.
pub proof fn law_flowers_alternate(i: usize)
    ensures
        flower_of(0) == Sprite::RedFlower,
        i % 2 == 0 ==> flower_of(i) == Sprite::RedFlower,
        i % 2 == 1 ==> flower_of(i) == Sprite::YellowFlower,
        i < usize::MAX ==> flower_of((i + 1) as usize) == flower_of(i).other(),
{
}

} // verus!
