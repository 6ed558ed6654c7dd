use vstd::prelude::*;

use crate::config::{KEY_COUNT, MOUSE_BUTTONS};

verus! {

/// A direction of movement along one axis, or none.
#[derive(Debug, Clone, Copy, PartialEq, Eq, Structural)]
pub enum Direction {
    Up,
    Down,
    Left,
    Right,
    Still,
}

impl Default for Direction {
    fn default() -> (res: Self)
        ensures
            res == Direction::Still,
    {
        Direction::Still
    }
}

/// The horizontal and the vertical direction of movement.
#[derive(Debug, Clone, Copy, PartialEq, Eq, Structural)]
pub struct Directions {
    pub x: Direction,
    pub y: Direction,
}

/// The key slots that steer: one for each direction.
#[derive(Debug, Clone, Copy, PartialEq, Eq, Structural)]
pub struct DirectionKeys {
    pub up: usize,
    pub down: usize,
    pub left: usize,
    pub right: usize,
}

/// Which keys and mouse buttons are held. Keys are known by their slot
/// number below `KEY_COUNT`, buttons by theirs below `MOUSE_BUTTONS`; the
/// mouse state of the previous frame is kept to detect fresh clicks.
pub struct InputHandler {
    now_keys: Vec<bool>,
    now_mouse: Vec<bool>,
    prev_mouse: Vec<bool>,
}

impl InputHandler {
    /// The keys held now.
    pub closed spec fn pressed_keys(&self) -> Set<usize> {
        Set::new(|k: usize| k < KEY_COUNT && k < self.now_keys@.len() && self.now_keys@[k as int])
    }

    /// The mouse buttons held now, by slot.
    pub closed spec fn mouse_now(&self) -> Seq<bool> {
        self.now_mouse@
    }

    /// The mouse buttons held at the end of the previous frame, by slot.
    pub closed spec fn mouse_prev(&self) -> Seq<bool> {
        self.prev_mouse@
    }

    /// Well-formedness: one flag per key slot and per button slot.
    pub closed spec fn wf(&self) -> bool {
        &&& self.now_keys@.len() == KEY_COUNT
        &&& self.now_mouse@.len() == MOUSE_BUTTONS
        &&& self.prev_mouse@.len() == MOUSE_BUTTONS
    }

    /// A well-formed handler has one flag per mouse button slot, now and
    /// for the previous frame.
    pub proof fn lemma_mouse_slots(&self)
        requires
            self.wf(),
        ensures
            self.mouse_now().len() == MOUSE_BUTTONS,
            self.mouse_prev().len() == MOUSE_BUTTONS,
    {
    }

    /// No key or button held.
    pub fn new() -> (res: Self)
        ensures
            res.wf(),
            res.pressed_keys() == Set::<usize>::empty(),
            res.mouse_now() == Seq::new(MOUSE_BUTTONS as nat, |i: int| false),
            res.mouse_prev() == Seq::new(MOUSE_BUTTONS as nat, |i: int| false),
    {
        let res = InputHandler {
            now_keys: vec![false; KEY_COUNT],
            now_mouse: vec![false; MOUSE_BUTTONS],
            prev_mouse: vec![false; MOUSE_BUTTONS],
        };
        assert(res.pressed_keys() =~= Set::<usize>::empty());
        assert(res.mouse_now() =~= Seq::new(MOUSE_BUTTONS as nat, |i: int| false));
        assert(res.mouse_prev() =~= Seq::new(MOUSE_BUTTONS as nat, |i: int| false));
        res
    }

    /// Marks key slot `code` as held; a slot beyond `KEY_COUNT` is ignored.
    pub fn insert_key(&mut self, code: usize)
        requires
            old(self).wf(),
        ensures
            final(self).wf(),
            final(self).pressed_keys() == (if code < KEY_COUNT {
                old(self).pressed_keys().insert(code)
            } else {
                old(self).pressed_keys()
            }),
            final(self).mouse_now() == old(self).mouse_now(),
            final(self).mouse_prev() == old(self).mouse_prev(),
    {
        if code < KEY_COUNT {
            self.now_keys.set(code, true);
        }
        assert(self.pressed_keys() =~= (if code < KEY_COUNT {
            old(self).pressed_keys().insert(code)
        } else {
            old(self).pressed_keys()
        }));
    }

    /// Marks key slot `code` as released; a slot beyond `KEY_COUNT` is
    /// ignored.
    pub fn remove_key(&mut self, code: usize)
        requires
            old(self).wf(),
        ensures
            final(self).wf(),
            final(self).pressed_keys() == old(self).pressed_keys().remove(code),
            final(self).mouse_now() == old(self).mouse_now(),
            final(self).mouse_prev() == old(self).mouse_prev(),
    {
        if code < KEY_COUNT {
            self.now_keys.set(code, false);
        }
        assert(self.pressed_keys() =~= old(self).pressed_keys().remove(code));
    }

    /// Whether key slot `code` is held.
    pub fn has_key(&self, code: usize) -> (res: bool)
        requires
            self.wf(),
        ensures
            res == self.pressed_keys().contains(code),
    {
        code < KEY_COUNT && self.now_keys[code]
    }

    /// Whether no key is held.
    pub fn is_still(&self) -> (res: bool)
        requires
            self.wf(),
        ensures
            res == (self.pressed_keys() == Set::<usize>::empty()),
    {
        let mut k: usize = 0;
        while k < KEY_COUNT
            invariant
                self.wf(),
                k <= KEY_COUNT,
                forall|j: usize| j < k ==> !#[trigger] self.pressed_keys().contains(j),
            decreases KEY_COUNT - k,
        {
            if self.now_keys[k] {
                assert(self.pressed_keys().contains(k));
                return false;
            }
            k = k + 1;
        }
        assert(self.pressed_keys() =~= Set::<usize>::empty());
        true
    }

    /// Marks mouse button slot `button` as held; a slot beyond
    /// `MOUSE_BUTTONS` is ignored.
    pub fn button_pressed(&mut self, button: usize)
        requires
            old(self).wf(),
        ensures
            final(self).wf(),
            final(self).pressed_keys() == old(self).pressed_keys(),
            final(self).mouse_prev() == old(self).mouse_prev(),
            final(self).mouse_now() == (if button < MOUSE_BUTTONS {
                old(self).mouse_now().update(button as int, true)
            } else {
                old(self).mouse_now()
            }),
            button < MOUSE_BUTTONS ==> final(self).mouse_now()[button as int] == true,
            final(self).mouse_now().len() == MOUSE_BUTTONS,
    {
        if button < MOUSE_BUTTONS {
            self.now_mouse.set(button, true);
        }
    }

    /// Marks mouse button slot `button` as released; a slot beyond
    /// `MOUSE_BUTTONS` is ignored.
    pub fn button_released(&mut self, button: usize)
        requires
            old(self).wf(),
        ensures
            final(self).wf(),
            final(self).pressed_keys() == old(self).pressed_keys(),
            final(self).mouse_prev() == old(self).mouse_prev(),
            final(self).mouse_now() == (if button < MOUSE_BUTTONS {
                old(self).mouse_now().update(button as int, false)
            } else {
                old(self).mouse_now()
            }),
            button < MOUSE_BUTTONS ==> final(self).mouse_now()[button as int] == false,
            final(self).mouse_now().len() == MOUSE_BUTTONS,
    {
        if button < MOUSE_BUTTONS {
            self.now_mouse.set(button, false);
        }
    }

    /// Ends a frame: the buttons held now become the previous frame's.
    pub fn update_for_next_frame(&mut self)
        requires
            old(self).wf(),
        ensures
            final(self).wf(),
            final(self).pressed_keys() == old(self).pressed_keys(),
            final(self).mouse_now() == old(self).mouse_now(),
            final(self).mouse_prev() == old(self).mouse_now(),
    {
        let mut i: usize = 0;
        while i < MOUSE_BUTTONS
            invariant
                self.wf(),
                i <= MOUSE_BUTTONS,
                self.now_keys@ == old(self).now_keys@,
                self.now_mouse@ == old(self).now_mouse@,
                forall|j: int| 0 <= j < i ==> #[trigger] self.prev_mouse@[j] == self.now_mouse@[j],
            decreases MOUSE_BUTTONS - i,
        {
            let b: bool = self.now_mouse[i];
            self.prev_mouse.set(i, b);
            i = i + 1;
        }
        assert(self.prev_mouse@ =~= self.now_mouse@);
    }

    /// Whether mouse button slot `button` was pressed since the previous
    /// frame: held now and not held then.
    pub fn has_triggered(&self, button: usize) -> (res: bool)
        requires
            self.wf(),
        ensures
            res == triggered(self.mouse_now(), self.mouse_prev(), button as int),
    {
        button < MOUSE_BUTTONS && self.now_mouse[button] && !self.prev_mouse[button]
    }

    /// The steering directions from the held keys among `keys`: down wins
    /// over up and right over left when both are held.
    pub fn get_directions(&self, keys: DirectionKeys) -> (res: Directions)
        requires
            self.wf(),
        ensures
            res == keys_to_direction(self.pressed_keys(), keys),
    {
        let mut direction_x = Direction::Still;
        let mut direction_y = Direction::Still;
        if self.has_key(keys.up) {
            direction_y = Direction::Up;
        }
        if self.has_key(keys.left) {
            direction_x = Direction::Left;
        }
        if self.has_key(keys.down) {
            direction_y = Direction::Down;
        }
        if self.has_key(keys.right) {
            direction_x = Direction::Right;
        }
        Directions { x: direction_x, y: direction_y }
    }
}

/// Whether button slot `button` counts as freshly pressed in a state whose
/// buttons are `now` and whose previous-frame buttons are `prev`.
pub open spec fn triggered(now: Seq<bool>, prev: Seq<bool>, button: int) -> bool {
    0 <= button < MOUSE_BUTTONS && now[button] && !prev[button]
}

/// A click is reported only in the frame of the press: once the frame has
/// ended, no button counts as freshly pressed until it is released and
/// pressed again.
pub proof fn law_click_reported_once(before: &InputHandler, after: &InputHandler, button: int)
    requires
        before.wf(),
        after.wf(),
        after.mouse_now() == before.mouse_now(),
        after.mouse_prev() == before.mouse_now(),
    ensures
        !triggered(after.mouse_now(), after.mouse_prev(), button),
{
}

/// The steering directions from the held keys `pressed`: down wins over up
/// and right over left when both are held.
pub open spec fn keys_to_direction(pressed: Set<usize>, keys: DirectionKeys) -> Directions {
    Directions {
        x: if pressed.contains(keys.right) {
            Direction::Right
        } else if pressed.contains(keys.left) {
            Direction::Left
        } else {
            Direction::Still
        },
        y: if pressed.contains(keys.down) {
            Direction::Down
        } else if pressed.contains(keys.up) {
            Direction::Up
        } else {
            Direction::Still
        },
    }
}

/// What a frame of the main loop does.
#[derive(Debug, Clone, Copy, PartialEq, Eq, Structural)]
pub enum FrameStep {
    /// No key is held: nothing to update or redraw.
    Idle,
    /// The world is paused: skip the update.
    Paused,
    /// Space is held: pause or resume, and skip the update.
    TogglePause,
    /// Update the world.
    Advance,
}

/// Decides a frame of the main loop: with no key held nothing happens; a
/// paused world stays paused until space is held; holding space toggles
/// the pause; otherwise the world advances.
pub fn next_frame_step(any_key_pressed: bool, is_running: bool, space_pressed: bool) -> (res: FrameStep)
    ensures
        !any_key_pressed ==> res == FrameStep::Idle,
        any_key_pressed && space_pressed ==> res == FrameStep::TogglePause,
        any_key_pressed && !space_pressed && !is_running ==> res == FrameStep::Paused,
        any_key_pressed && !space_pressed && is_running ==> res == FrameStep::Advance,
{
    if !any_key_pressed {
        return FrameStep::Idle;
    }
    if !is_running && !space_pressed {
        return FrameStep::Paused;
    }
    if space_pressed {
        return FrameStep::TogglePause;
    }
    FrameStep::Advance
}

/// Whether the world runs or is paused. A world starts running.
pub struct RunState {
    running: bool,
}

impl RunState {
    /// Whether the world runs.
    pub closed spec fn running(&self) -> bool {
        self.running
    }

    /// A running world.
    pub fn new() -> (res: Self)
        ensures
            res.running(),
    {
        RunState { running: true }
    }

    /// Pauses a running world and resumes a paused one.
    pub fn toggle_running(&mut self)
        ensures
            final(self).running() == !old(self).running(),
    {
        self.running = !self.running;
    }

    /// Whether the world runs.
    pub fn is_running(&self) -> (res: bool)
        ensures
            res == self.running(),
    {
        self.running
    }
}

/// Toggling twice gives back the state the world was in.
pub proof fn law_toggle_running_twice_restores(first: &RunState, second: &RunState, third: &RunState)
    requires
        second.running() == !first.running(),
        third.running() == !second.running(),
    ensures
        third.running() == first.running(),
{
}

/// Each axis follows its own keys: a held right key steers right whatever
/// else is held, a held left key steers left unless right is held too, and
/// with neither held the axis stays still; likewise down, up and the
/// vertical axis.
pub proof fn law_directions_follow_held_keys(pressed: Set<usize>, keys: DirectionKeys)
    ensures
        pressed.contains(keys.right) ==> keys_to_direction(pressed, keys).x == Direction::Right,
        !pressed.contains(keys.right) && pressed.contains(keys.left) ==> keys_to_direction(pressed, keys).x
            == Direction::Left,
        !pressed.contains(keys.right) && !pressed.contains(keys.left) ==> keys_to_direction(pressed, keys).x
            == Direction::Still,
        pressed.contains(keys.down) ==> keys_to_direction(pressed, keys).y == Direction::Down,
        !pressed.contains(keys.down) && pressed.contains(keys.up) ==> keys_to_direction(pressed, keys).y
            == Direction::Up,
        !pressed.contains(keys.down) && !pressed.contains(keys.up) ==> keys_to_direction(pressed, keys).y
            == Direction::Still,
{
}

/// A button counts as freshly pressed exactly when it is held now and was
/// not held in the previous frame: a button that is not held, or was
/// already held, never triggers, so a release is never reported as a click.
pub proof fn law_trigger_is_a_fresh_press(now: Seq<bool>, prev: Seq<bool>, button: int)
    ensures
        triggered(now, prev, button) ==> now[button],
        triggered(now, prev, button) ==> !prev[button],
        !now[button] ==> !triggered(now, prev, button),
        prev[button] ==> !triggered(now, prev, button),
        0 <= button < MOUSE_BUTTONS && now[button] && !prev[button] ==> triggered(now, prev, button),
{
}

} // verus!
