//! The input state tracker.
//!
//! Raw events from the host come in one by one. The tracker keeps two
//! things apart: which keys are held right now, which follows every event
//! as it arrives, and what happened since the last tick boundary (the
//! events in order, and the keys that went down or came up), which is
//! emptied once at the end of each tick.

use vstd::prelude::*;

verus! {

/// Whether a key is down.
#[derive(Clone, Copy, Debug, PartialEq, Eq, Structural)]
pub enum KeyState {
    Pressed,
    NotPressed,
}

/// A raw event from the host. A key is named by its virtual key code; a
/// pointer position is in whole physical pixels.
#[derive(Clone, Copy, Debug, PartialEq, Eq, Structural)]
pub enum InputEvent {
    KeyboardInput { key: u32, state: KeyState },
    CursorMoved { x: i64, y: i64 },
}

/// Whether `key` occurs in `keys`.
fn has_key(keys: &Vec<u32>, key: u32) -> (found: bool)
    ensures
        found == keys@.to_set().contains(key),
{
    let mut i: usize = 0;
    while i < keys.len()
        invariant
            i <= keys.len(),
            forall|k: int| 0 <= k < i ==> keys@[k] != key,
        decreases keys.len() - i,
    {
        if keys[i] == key {
            assert(keys@.contains(key));
            return true;
        }
        i += 1;
    }
    false
}

/// Adds `key` to `keys` unless it is there already.
fn add_key(keys: &mut Vec<u32>, key: u32)
    ensures
        final(keys)@.to_set() == old(keys)@.to_set().insert(key),
{
    if !has_key(keys, key) {
        keys.push(key);
        proof {
            old(keys)@.lemma_push_to_set_commute(key);
        }
    } else {
        assert(keys@.to_set() =~= keys@.to_set().insert(key));
    }
}

/// Takes every occurrence of `key` out of `keys`.
fn drop_key(keys: &mut Vec<u32>, key: u32)
    ensures
        final(keys)@.to_set() == old(keys)@.to_set().remove(key),
{
    let mut kept: Vec<u32> = Vec::new();
    let mut i: usize = 0;
    while i < keys.len()
        invariant
            i <= keys.len(),
            kept@.to_set() =~= keys@.take(i as int).to_set().remove(key),
        decreases keys.len() - i,
    {
        let k = keys[i];
        proof {
            assert(keys@.take(i + 1) =~= keys@.take(i as int).push(k));
            keys@.take(i as int).lemma_push_to_set_commute(k);
        }
        if k != key {
            proof {
                kept@.lemma_push_to_set_commute(k);
            }
            kept.push(k);
        }
        i += 1;
    }
    assert(keys@.take(keys.len() as int) =~= keys@);
    *keys = kept;
}

/// The tracker of key state and of the events of the current tick.
pub struct Input {
    held: Vec<u32>,
    pressed: Vec<u32>,
    released: Vec<u32>,
    queue: Vec<InputEvent>,
}

impl Input {
    /// The keys that are down right now.
    pub closed spec fn held_keys(&self) -> Set<u32> {
        self.held@.to_set()
    }

    /// The keys that went from up to down since the last tick boundary.
    pub closed spec fn pressed_keys(&self) -> Set<u32> {
        self.pressed@.to_set()
    }

    /// The keys that went from down to up since the last tick boundary.
    pub closed spec fn released_keys(&self) -> Set<u32> {
        self.released@.to_set()
    }

    /// The events received since the last tick boundary, oldest first.
    pub closed spec fn events(&self) -> Seq<InputEvent> {
        self.queue@
    }

    /// The tracker after `event`, as a relation between the state `before`
    /// and this one. A key that goes down is held from then on, and counts as
    /// pressed if it was up; a key that comes up is held no longer, and
    /// counts as released if it was down. Every event joins the queue.
    pub open spec fn follows(&self, before: &Input, event: InputEvent) -> bool {
        &&& self.events() == before.events().push(event)
        &&& match event {
            InputEvent::KeyboardInput { key, state: KeyState::Pressed } => {
                &&& self.held_keys() == before.held_keys().insert(key)
                &&& self.pressed_keys() == if before.held_keys().contains(key) {
                    before.pressed_keys()
                } else {
                    before.pressed_keys().insert(key)
                }
                &&& self.released_keys() == before.released_keys()
            },
            InputEvent::KeyboardInput { key, state: KeyState::NotPressed } => {
                &&& self.held_keys() == before.held_keys().remove(key)
                &&& self.pressed_keys() == before.pressed_keys()
                &&& self.released_keys() == if before.held_keys().contains(key) {
                    before.released_keys().insert(key)
                } else {
                    before.released_keys()
                }
            },
            InputEvent::CursorMoved { .. } => {
                &&& self.held_keys() == before.held_keys()
                &&& self.pressed_keys() == before.pressed_keys()
                &&& self.released_keys() == before.released_keys()
            },
        }
    }

    /// The tracker after a tick boundary: the queue and the edges are
    /// gone, the held keys stay.
    pub open spec fn drained(&self, before: &Input) -> bool {
        &&& self.events() == Seq::<InputEvent>::empty()
        &&& self.pressed_keys() == Set::<u32>::empty()
        &&& self.released_keys() == Set::<u32>::empty()
        &&& self.held_keys() == before.held_keys()
    }

    /// Whether two trackers show the same state.
    pub open spec fn same_as(&self, other: &Input) -> bool {
        &&& self.events() == other.events()
        &&& self.pressed_keys() == other.pressed_keys()
        &&& self.released_keys() == other.released_keys()
        &&& self.held_keys() == other.held_keys()
    }

    /// A tracker with no key held and nothing queued.
    pub fn new() -> (input: Input)
        ensures
            input.events() == Seq::<InputEvent>::empty(),
            input.held_keys() == Set::<u32>::empty(),
            input.pressed_keys() == Set::<u32>::empty(),
            input.released_keys() == Set::<u32>::empty(),
    {
        let input = Input {
            held: Vec::new(),
            pressed: Vec::new(),
            released: Vec::new(),
            queue: Vec::new(),
        };
        assert(input.held@.to_set() =~= Set::<u32>::empty());
        assert(input.pressed@.to_set() =~= Set::<u32>::empty());
        assert(input.released@.to_set() =~= Set::<u32>::empty());
        input
    }

    /// Takes in one raw event.
    pub fn record(&mut self, event: InputEvent)
        ensures
            final(self).follows(old(self), event),
    {
        match event {
            InputEvent::KeyboardInput { key, state: KeyState::Pressed } => {
                if !has_key(&self.held, key) {
                    add_key(&mut self.pressed, key);
                    add_key(&mut self.held, key);
                } else {
                    assert(self.held@.to_set().insert(key) =~= self.held@.to_set());
                }
            },
            InputEvent::KeyboardInput { key, state: KeyState::NotPressed } => {
                if has_key(&self.held, key) {
                    add_key(&mut self.released, key);
                    drop_key(&mut self.held, key);
                } else {
                    assert(self.held@.to_set().remove(key) =~= self.held@.to_set());
                }
            },
            InputEvent::CursorMoved { .. } => {},
        }
        self.queue.push(event);
    }

    /// Marks the tick boundary: empties the event queue and forgets which
    /// keys were pressed or released. The held keys are untouched.
    pub fn end_tick(&mut self)
        ensures
            final(self).drained(old(self)),
    {
        self.queue.clear();
        self.pressed.clear();
        self.released.clear();
        assert(self.pressed@.to_set() =~= Set::<u32>::empty());
        assert(self.released@.to_set() =~= Set::<u32>::empty());
    }

    /// Whether `key` is down right now.
    pub fn key_held(&self, key: u32) -> (held: bool)
        ensures
            held == self.held_keys().contains(key),
    {
        has_key(&self.held, key)
    }

    /// Whether `key` went from up to down since the last tick boundary.
    pub fn key_pressed(&self, key: u32) -> (pressed: bool)
        ensures
            pressed == self.pressed_keys().contains(key),
    {
        has_key(&self.pressed, key)
    }

    /// Whether `key` went from down to up since the last tick boundary.
    pub fn key_released(&self, key: u32) -> (released: bool)
        ensures
            released == self.released_keys().contains(key),
    {
        has_key(&self.released, key)
    }

    /// The state of `key` right now.
    pub fn key(&self, key: u32) -> (state: KeyState)
        ensures
            state == if self.held_keys().contains(key) {
                KeyState::Pressed
            } else {
                KeyState::NotPressed
            },
    {
        if has_key(&self.held, key) {
            KeyState::Pressed
        } else {
            KeyState::NotPressed
        }
    }

    /// The events received since the last tick boundary, oldest first.
    pub fn queue(&self) -> (events: &[InputEvent])
        ensures
            events@ == self.events(),
    {
        self.queue.as_slice()
    }

    /// A copy of the tracker as it stands, for a tick to read while the
    /// tracker itself goes on taking events.
    pub fn snapshot(&self) -> (copy: Input)
        ensures
            copy.same_as(self),
    {
        let mut queue: Vec<InputEvent> = Vec::new();
        let mut i: usize = 0;
        while i < self.queue.len()
            invariant
                i <= self.queue.len(),
                queue@ == self.queue@.take(i as int),
            decreases self.queue.len() - i,
        {
            queue.push(self.queue[i]);
            assert(self.queue@.take(i + 1) =~= self.queue@.take(i as int).push(self.queue@[i as int]));
            i += 1;
        }
        assert(self.queue@.take(self.queue.len() as int) =~= self.queue@);
        Input {
            held: self.held.clone(),
            pressed: self.pressed.clone(),
            released: self.released.clone(),
            queue,
        }
    }
}

} // verus!
