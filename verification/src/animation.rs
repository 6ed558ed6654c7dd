use vstd::prelude::*;

use crate::config::{MAX_ANIMATIONS, MAX_TOTAL_FRAMES};
use crate::error::EcsError;
use crate::sprite::GridPos;

verus! {

/// Identifies an animation registered in an [`AnimationRegistry`].
#[derive(Debug, Clone, Copy, PartialEq, Eq, Structural)]
pub struct AnimationId {
    pub index: usize,
}

impl AnimationId {
    /// The id with index `id`.
    pub fn new(id: u8) -> (res: Self)
        ensures
            res.index == id as usize,
    {
        Self { index: id as usize }
    }
}

/// Flat storage of the frames of all animations; frames are handed out as
/// consecutive ranges from the front.
pub struct FrameStorage {
    frames: Vec<GridPos>,
    count: usize,
}

impl FrameStorage {
    /// The frame cells.
    pub closed spec fn frames_view(&self) -> Seq<GridPos> {
        self.frames@
    }

    /// Number of frame cells already handed out.
    pub closed spec fn used(&self) -> nat {
        self.count as nat
    }

    /// Well-formedness: `MAX_TOTAL_FRAMES` cells, of which at most all are used.
    pub open spec fn wf(&self) -> bool {
        &&& self.frames_view().len() == MAX_TOTAL_FRAMES
        &&& self.used() <= MAX_TOTAL_FRAMES
    }

    /// An empty storage whose cells all hold the cell (0, 0).
    pub fn new() -> (res: Self)
        ensures
            res.wf(),
            res.used() == 0,
            forall|i: int| 0 <= i < MAX_TOTAL_FRAMES ==> #[trigger] res.frames_view()[i] == (GridPos { gx: 0, gy: 0 }),
    {
        let mut frames: Vec<GridPos> = Vec::new();
        let mut i: usize = 0;
        while i < MAX_TOTAL_FRAMES
            invariant
                i <= MAX_TOTAL_FRAMES,
                frames@.len() == i,
                forall|j: int| 0 <= j < i ==> #[trigger] frames@[j] == (GridPos { gx: 0, gy: 0 }),
            decreases MAX_TOTAL_FRAMES - i,
        {
            frames.push(GridPos { gx: 0, gy: 0 });
            i = i + 1;
        }
        Self { frames, count: 0 }
    }

    /// Reserves `frame_count` consecutive cells and returns their offset and
    /// number, or `None` when they do not fit.
    pub fn allocate(&mut self, frame_count: usize) -> (res: Option<(usize, usize)>)
        requires
            old(self).wf(),
        ensures
            final(self).wf(),
            final(self).frames_view() == old(self).frames_view(),
            old(self).used() + frame_count > MAX_TOTAL_FRAMES ==> {
                &&& res is None
                &&& final(self).used() == old(self).used()
            },
            old(self).used() + frame_count <= MAX_TOTAL_FRAMES ==> {
                &&& res == Some((old(self).used() as usize, frame_count))
                &&& final(self).used() == old(self).used() + frame_count
            },
    {
        if frame_count > MAX_TOTAL_FRAMES - self.count {
            return None;
        }
        let offset: usize = self.count;
        self.count = self.count + frame_count;
        Some((offset, frame_count))
    }

    /// The cell stored at `offset + frame`.
    pub fn get(&self, offset: usize, frame: usize) -> (res: GridPos)
        requires
            self.wf(),
            offset + frame < MAX_TOTAL_FRAMES,
        ensures
            res == self.frames_view()[offset + frame],
    {
        self.frames[offset + frame]
    }

    /// Copies `src` into the cells starting at `offset`.
    fn write(&mut self, offset: usize, src: &[GridPos])
        requires
            old(self).wf(),
            offset + src@.len() <= MAX_TOTAL_FRAMES,
        ensures
            final(self).wf(),
            final(self).used() == old(self).used(),
            final(self).frames_view() == old(self).frames_view().take(offset as int) + src@
                + old(self).frames_view().skip(offset + src@.len()),
    {
        let mut j: usize = 0;
        while j < src.len()
            invariant
                self.wf(),
                self.used() == old(self).used(),
                offset + src@.len() <= MAX_TOTAL_FRAMES,
                j <= src@.len(),
                forall|i: int| 0 <= i < offset ==> #[trigger] self.frames_view()[i] == old(self).frames_view()[i],
                forall|i: int| offset <= i < offset + j ==> #[trigger] self.frames_view()[i] == src@[i - offset],
                forall|i: int| offset + j <= i < MAX_TOTAL_FRAMES ==> #[trigger] self.frames_view()[i] == old(self).frames_view()[i],
            decreases src@.len() - j,
        {
            self.frames.set(offset + j, src[j]);
            j = j + 1;
        }
        assert(self.frames_view() =~= old(self).frames_view().take(offset as int) + src@
            + old(self).frames_view().skip(offset + src@.len()));
    }
}

/// Where an animation's frames lie in the frame storage, and how long each
/// frame is shown (in whatever time unit the caller uses).
#[derive(Debug)]
pub struct AnimationDef<D> {
    /// Offset of the first frame in the frame storage.
    pub frame_offset: usize,
    /// Number of frames.
    pub frame_count: usize,
    /// Time each frame is shown.
    pub duration_per_frame: D,
}

/// The registered animations and their frames. Ids are handed out in
/// registration order, starting at 0.
pub struct AnimationRegistry<D> {
    definitions: Vec<AnimationDef<D>>,
    anim_count: usize,
    frame_storage: FrameStorage,
}

impl<D> AnimationRegistry<D> {
    /// All definition slots; those at or beyond `count()` are unregistered.
    pub closed spec fn defs(&self) -> Seq<AnimationDef<D>> {
        self.definitions@
    }

    /// Number of registered animations.
    pub closed spec fn count(&self) -> nat {
        self.anim_count as nat
    }

    /// The frame cells of the frame storage.
    pub closed spec fn frames(&self) -> Seq<GridPos> {
        self.frame_storage.frames_view()
    }

    /// Number of frame cells in use.
    pub closed spec fn frames_used(&self) -> nat {
        self.frame_storage.used()
    }

    /// Well-formedness: every definition points inside the used frames, and
    /// unregistered slots hold no frames.
    pub open spec fn wf(&self) -> bool {
        &&& self.frames().len() == MAX_TOTAL_FRAMES
        &&& self.frames_used() <= MAX_TOTAL_FRAMES
        &&& self.defs().len() == MAX_ANIMATIONS
        &&& self.count() <= MAX_ANIMATIONS
        &&& forall|i: int| 0 <= i < MAX_ANIMATIONS ==>
            #[trigger] self.defs()[i].frame_offset + self.defs()[i].frame_count <= self.frames_used()
        &&& forall|i: int| self.count() <= i < MAX_ANIMATIONS ==>
            #[trigger] self.defs()[i].frame_count == 0 && self.defs()[i].frame_offset == 0
    }

    /// The frame shown at step `k` of animation `index`: the animation's
    /// frames are cycled through; an unknown or empty animation has none.
    pub open spec fn frame_of(&self, index: int, k: int) -> Option<GridPos> {
        if 0 <= index < MAX_ANIMATIONS && self.defs()[index].frame_count > 0 {
            Some(self.frames()[self.defs()[index].frame_offset + k % (self.defs()[index].frame_count as int)])
        } else {
            None
        }
    }

    /// `after` is `before` with `frames` registered as a new animation that
    /// shows each frame for `duration`.
    pub open spec fn registered(before: &Self, after: &Self, frames: Seq<GridPos>, duration: D) -> bool {
        let offset = before.frames_used();
        &&& after.count() == before.count() + 1
        &&& after.frames_used() == offset + frames.len()
        &&& after.defs() == before.defs().update(
            before.count() as int,
            (AnimationDef {
                frame_offset: offset as usize,
                frame_count: frames.len() as usize,
                duration_per_frame: duration,
            }),
        )
        &&& after.frames() == before.frames().take(offset as int) + frames
            + before.frames().skip((offset + frames.len()) as int)
    }

    /// Registers `frames` as a new animation whose frames each last
    /// `duration`, and returns its id; fails, changing nothing, when the
    /// frame storage cannot hold the frames.
    pub fn register(&mut self, frames: &[GridPos], duration: D) -> (res: Result<AnimationId, EcsError>)
        requires
            old(self).wf(),
            old(self).count() < MAX_ANIMATIONS || old(self).frames_used() + frames@.len() > MAX_TOTAL_FRAMES,
        ensures
            final(self).wf(),
            old(self).frames_used() + frames@.len() > MAX_TOTAL_FRAMES ==> {
                &&& res == Err::<AnimationId, EcsError>(EcsError::FrameStorageFull)
                &&& final(self).defs() == old(self).defs()
                &&& final(self).count() == old(self).count()
                &&& final(self).frames() == old(self).frames()
                &&& final(self).frames_used() == old(self).frames_used()
            },
            old(self).frames_used() + frames@.len() <= MAX_TOTAL_FRAMES ==> {
                &&& res == Ok::<AnimationId, EcsError>(AnimationId { index: old(self).count() as usize })
                &&& Self::registered(old(self), final(self), frames@, duration)
            },
    {
        let alloc = self.frame_storage.allocate(frames.len());
        let (offset, count) = match alloc {
            Some(r) => r,
            None => {
                return Err(EcsError::FrameStorageFull);
            },
        };
        self.frame_storage.write(offset, frames);
        let anim_id = AnimationId { index: self.anim_count };
        self.definitions.set(
            self.anim_count,
            AnimationDef { frame_offset: offset, frame_count: count, duration_per_frame: duration },
        );
        self.anim_count = self.anim_count + 1;
        proof {
            assert forall|i: int| 0 <= i < MAX_ANIMATIONS implies
                #[trigger] self.defs()[i].frame_offset + self.defs()[i].frame_count <= self.frames_used() by {
                if i != old(self).count() {
                    assert(self.defs()[i] == old(self).defs()[i]);
                }
            }
        }
        Ok(anim_id)
    }

    /// The definition in slot `anim_id.index` (registered or not).
    pub fn get_def(&self, anim_id: AnimationId) -> (res: &AnimationDef<D>)
        requires
            self.wf(),
            anim_id.index < MAX_ANIMATIONS,
        ensures
            *res == self.defs()[anim_id.index as int],
    {
        &self.definitions[anim_id.index]
    }

    /// The frame shown at step `current_frame` of the animation, or `None`
    /// when the id is unknown or the animation has no frames.
    pub fn get_frame(&self, anim_id: AnimationId, current_frame: u8) -> (res: Option<GridPos>)
        requires
            self.wf(),
        ensures
            res == self.frame_of(anim_id.index as int, current_frame as int),
    {
        if anim_id.index >= MAX_ANIMATIONS {
            return None;
        }
        let def = self.get_def(anim_id);
        if def.frame_count == 0 {
            return None;
        }
        let idx: usize = (current_frame as usize) % def.frame_count;
        Some(self.frame_storage.get(def.frame_offset, idx))
    }
}

/// The frames of the walking animation: cells 0..8 of the first sheet row.
pub open spec fn walk_frames() -> Seq<GridPos> {
    Seq::new(8, |i: int| GridPos { gx: i as u8, gy: 0 })
}

/// The frames of the enemy animation: cells 0..6 of the second sheet row.
pub open spec fn enemy_frames() -> Seq<GridPos> {
    Seq::new(6, |i: int| GridPos { gx: i as u8, gy: 1 })
}

/// The cells `(0, row) .. (n, row)` of one sheet row.
fn row_frames(n: u8, row: u8) -> (res: Vec<GridPos>)
    ensures
        res@ == Seq::new(n as nat, |i: int| GridPos { gx: i as u8, gy: row }),
{
    let mut res: Vec<GridPos> = Vec::new();
    let mut i: u8 = 0;
    while i < n
        invariant
            i <= n,
            res@ == Seq::new(i as nat, |j: int| GridPos { gx: j as u8, gy: row }),
        decreases n - i,
    {
        res.push(GridPos { gx: i, gy: row });
        i = i + 1;
        assert(res@ =~= Seq::new(i as nat, |j: int| GridPos { gx: j as u8, gy: row }));
    }
    res
}

/// Registers the walking animation (id 0 on an empty registry) and then
/// the enemy animation (id 1), each frame lasting `duration`. Stops with
/// the storage error at the first animation that does not fit.
pub fn init_animation_registry<D: Copy>(registry: &mut AnimationRegistry<D>, duration: D) -> (res: Result<(), EcsError>)
    requires
        old(registry).wf(),
        !(old(registry).count() == MAX_ANIMATIONS && old(registry).frames_used() + 8 <= MAX_TOTAL_FRAMES),
        !(old(registry).count() + 1 == MAX_ANIMATIONS && old(registry).frames_used() + 14 <= MAX_TOTAL_FRAMES),
    ensures
        final(registry).wf(),
        old(registry).frames_used() + 8 > MAX_TOTAL_FRAMES ==> {
            &&& res == Err::<(), EcsError>(EcsError::FrameStorageFull)
            &&& final(registry).defs() == old(registry).defs()
            &&& final(registry).count() == old(registry).count()
            &&& final(registry).frames() == old(registry).frames()
            &&& final(registry).frames_used() == old(registry).frames_used()
        },
        old(registry).frames_used() + 8 <= MAX_TOTAL_FRAMES < old(registry).frames_used() + 14 ==> {
            &&& res == Err::<(), EcsError>(EcsError::FrameStorageFull)
            &&& AnimationRegistry::registered(old(registry), final(registry), walk_frames(), duration)
        },
        old(registry).frames_used() + 14 <= MAX_TOTAL_FRAMES ==> {
            &&& res is Ok
            &&& exists|mid: AnimationRegistry<D>|
                mid.wf() && AnimationRegistry::registered(old(registry), &mid, walk_frames(), duration)
                && #[trigger] AnimationRegistry::registered(&mid, final(registry), enemy_frames(), duration)
        },
{
    let walk = row_frames(8, 0);
    let enemy = row_frames(6, 1);
    assert(walk@ =~= walk_frames());
    assert(enemy@ =~= enemy_frames());
    let ghost start = *registry;
    match registry.register(walk.as_slice(), duration) {
        Ok(_) => {},
        Err(e) => {
            return Err(e);
        },
    }
    let ghost mid = *registry;
    match registry.register(enemy.as_slice(), duration) {
        Ok(_) => {},
        Err(e) => {
            return Err(e);
        },
    }
    assert(AnimationRegistry::registered(&mid, registry, enemy_frames(), duration));
    Ok(())
}

/// The step after `current_frame` in an animation of `frame_count` frames,
/// wrapping to 0; fails when the frame count does not fit in a `u8`.
pub fn next_frame(current_frame: u8, frame_count: usize) -> (res: Result<u8, EcsError>)
    requires
        current_frame < u8::MAX,
        frame_count > 0,
    ensures
        frame_count > u8::MAX ==> res == Err::<u8, EcsError>(EcsError::FrameCountTooLarge),
        frame_count <= u8::MAX ==> res == Ok::<u8, EcsError>(((current_frame + 1) % (frame_count as int)) as u8),
{
    let next: u8 = current_frame + 1;
    if frame_count > 255 {
        return Err(EcsError::FrameCountTooLarge);
    }
    let count: u8 = frame_count as u8;
    Ok(next % count)
}

/// The frame after `flame` in an animation whose last frame index is
/// `max_flame_idx`, wrapping to 0 past the last one.
pub fn calc_next_flame(flame: u8, max_flame_idx: u8) -> (res: u8)
    requires
        flame < u8::MAX,
    ensures
        res == (if flame + 1 > max_flame_idx { 0 } else { flame + 1 }),
{
    let flame_plus_one: u8 = flame + 1;
    if flame_plus_one > max_flame_idx {
        0
    } else {
        flame_plus_one
    }
}

/// Reading back a registration: step `k` of a freshly registered animation
/// shows frame `k mod n` of the `n` frames it was registered with.
pub proof fn law_registered_frames_cycle<D>(
    before: &AnimationRegistry<D>,
    after: &AnimationRegistry<D>,
    frames: Seq<GridPos>,
    duration: D,
    k: nat,
)
    requires
        before.wf(),
        after.wf(),
        before.count() < MAX_ANIMATIONS,
        AnimationRegistry::registered(before, after, frames, duration),
        frames.len() > 0,
    ensures
        after.frame_of(before.count() as int, k as int) == Some(frames[(k % frames.len()) as int]),
{
    let idx = before.count() as int;
    let offset = before.frames_used() as int;
    assert(after.defs()[idx].frame_offset == offset);
    assert(after.defs()[idx].frame_count == frames.len());
    let j = (k % frames.len()) as int;
    assert(0 <= j < frames.len());
    assert(after.frames()[offset + j] == frames[j]);
}

/// Registering an animation leaves what every other slot shows unchanged.
pub proof fn law_register_preserves_others<D>(
    before: &AnimationRegistry<D>,
    after: &AnimationRegistry<D>,
    frames: Seq<GridPos>,
    duration: D,
    index: int,
    k: int,
)
    requires
        before.wf(),
        after.wf(),
        AnimationRegistry::registered(before, after, frames, duration),
        index != before.count(),
    ensures
        after.frame_of(index, k) == before.frame_of(index, k),
{
    if 0 <= index < MAX_ANIMATIONS && before.defs()[index].frame_count > 0 {
        let d = before.defs()[index];
        assert(after.defs()[index] == d);
        let pos = d.frame_offset + k % (d.frame_count as int);
        assert(pos < before.frames_used());
        assert(after.frames()[pos] == before.frames()[pos]);
    } else if 0 <= index < MAX_ANIMATIONS {
        assert(after.defs()[index] == before.defs()[index]);
    }
}

/// After the walking and then the enemy animation are registered, step `k`
/// of the walking animation shows cell `(k mod 8, 0)` and step `k` of the
/// enemy animation shows cell `(k mod 6, 1)`.
pub proof fn law_initial_animations_cycle_their_rows<D>(
    before: &AnimationRegistry<D>,
    mid: &AnimationRegistry<D>,
    after: &AnimationRegistry<D>,
    duration: D,
    k: nat,
)
    requires
        before.wf(),
        mid.wf(),
        after.wf(),
        before.count() + 1 < MAX_ANIMATIONS,
        AnimationRegistry::registered(before, mid, walk_frames(), duration),
        AnimationRegistry::registered(mid, after, enemy_frames(), duration),
    ensures
        after.frame_of(before.count() as int, k as int) == Some(GridPos { gx: (k % 8) as u8, gy: 0 }),
        after.frame_of((before.count() + 1) as int, k as int) == Some(GridPos { gx: (k % 6) as u8, gy: 1 }),
{
    law_registered_frames_cycle(before, mid, walk_frames(), duration, k);
    law_register_preserves_others(mid, after, enemy_frames(), duration, before.count() as int, k as int);
    law_registered_frames_cycle(mid, after, enemy_frames(), duration, k);
    assert(walk_frames()[(k % 8) as int] == GridPos { gx: (k % 8) as u8, gy: 0 });
    assert(enemy_frames()[(k % 6) as int] == GridPos { gx: (k % 6) as u8, gy: 1 });
}

impl<D: Default> AnimationRegistry<D> {
    /// An empty registry: no animation, no frame used, every slot empty.
    pub fn new() -> (res: Self)
        ensures
            res.wf(),
            res.count() == 0,
            res.frames_used() == 0,
            forall|i: int| 0 <= i < MAX_TOTAL_FRAMES ==> #[trigger] res.frames()[i] == (GridPos { gx: 0, gy: 0 }),
    {
        let mut definitions: Vec<AnimationDef<D>> = Vec::new();
        let mut i: usize = 0;
        while i < MAX_ANIMATIONS
            invariant
                i <= MAX_ANIMATIONS,
                definitions@.len() == i,
                forall|j: int| 0 <= j < i ==> #[trigger] definitions@[j].frame_count == 0
                    && definitions@[j].frame_offset == 0,
            decreases MAX_ANIMATIONS - i,
        {
            let ghost before = definitions@;
            definitions.push(AnimationDef { frame_offset: 0, frame_count: 0, duration_per_frame: D::default() });
            assert forall|j: int| 0 <= j < i + 1 implies #[trigger] definitions@[j].frame_count == 0
                && definitions@[j].frame_offset == 0 by {
                if j < i {
                    assert(definitions@[j] == before[j]);
                }
            }
            i = i + 1;
        }
        Self { definitions, anim_count: 0, frame_storage: FrameStorage::new() }
    }
}

} // verus!
