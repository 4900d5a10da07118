//! What a hosted program implements, and the context it is lent on every
//! tick.

use vstd::prelude::*;
use std::marker::PhantomData;
use crate::graphics::Graphics;
use crate::input::Input;

verus! {

/// The audio capability. It is a stand-in: there is nothing to play with.
pub struct Audio;

/// The handle to a program's saved data of type `S`. It is a stand-in:
/// the library neither reads nor writes anything.
pub struct Save<S> {
    phantom: PhantomData<S>,
}

impl<S> Save<S> {
    /// A handle to saved data of type `S`.
    pub fn new() -> Save<S> {
        Save { phantom: PhantomData }
    }
}

/// A program that the engine hosts. The engine knows nothing of its state:
/// it makes one with `init` and hands it the elapsed time and the context
/// on every tick.
pub trait Game: Sized {
    /// The title to show for the program.
    const TITLE: &'static str;

    /// What the program keeps between runs.
    type SaveData: Default;

    /// Makes the program's state, once, before the first tick.
    fn init(console: &mut Console<Self>) -> Self;

    /// Advances the program by `dt` nanoseconds and lets it draw.
    fn tick(&mut self, dt: u64, console: &mut Console<Self>);
}

/// The context of one tick: the input as it stood when the tick began, the
/// canvas to draw on, the stand-ins for audio and saved data, and the
/// number of ticks before this one.
pub struct Console<G: Game> {
    pub input: Input,
    pub graphics: Graphics,
    pub audio: Audio,
    pub save: Save<G::SaveData>,
    pub(crate) tick: usize,
}

impl<G: Game> Console<G> {
    /// The input as it stood when the tick began.
    pub closed spec fn input_view(&self) -> Input {
        self.input
    }

    /// The canvas.
    pub closed spec fn canvas(&self) -> Graphics {
        self.graphics
    }

    /// The number of ticks before this one.
    pub closed spec fn ticks(&self) -> nat {
        self.tick as nat
    }

    /// A context over `graphics` with no input and no tick behind it.
    pub fn new(graphics: Graphics) -> (console: Console<G>)
        ensures
            console.canvas() == graphics,
            console.ticks() == 0,
            console.input_view().events() == Seq::<crate::input::InputEvent>::empty(),
            console.input_view().held_keys() == Set::<u32>::empty(),
            console.input_view().pressed_keys() == Set::<u32>::empty(),
            console.input_view().released_keys() == Set::<u32>::empty(),
    {
        Console { input: Input::new(), graphics, audio: Audio, save: Save::new(), tick: 0 }
    }

    /// The number of ticks before this one.
    pub fn tick(&self) -> (n: usize)
        ensures
            n == self.ticks(),
    {
        self.tick
    }

    /// The canvas, to read.
    pub fn graphics(&self) -> (graphics: &Graphics)
        ensures
            *graphics == self.canvas(),
    {
        &self.graphics
    }

    /// Sets what a tick is to see: the input and the count of ticks. The
    /// canvas is left as the last tick drew it.
    pub(crate) fn refresh(&mut self, input: Input, tick: usize)
        ensures
            final(self).input_view() == input,
            final(self).ticks() == tick,
            final(self).canvas() == old(self).canvas(),
    {
        self.input = input;
        self.tick = tick;
    }
}

} // verus!
