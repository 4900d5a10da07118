//! The tick scheduler: the life of a run from the program's `init` through
//! its ticks to the host's request to close.
//!
//! The host owns the event pump, the clock and the window. It turns what
//! happens into signals, hands them to the scheduler one at a time, and
//! carries out the action that each one returns.

use vstd::prelude::*;
use crate::console::{Console, Game};
use crate::graphics::Graphics;
use crate::input::{Input, InputEvent};
use crate::presentation::Surface;

verus! {

/// Where a run stands.
#[derive(Clone, Copy, Debug, PartialEq, Eq, Structural)]
pub enum Phase {
    /// The program's state has not been made yet.
    Uninitialized,
    /// The program is ticking.
    Running,
    /// The host asked to close. Nothing happens any more.
    Terminated,
}

/// What the host tells the scheduler.
#[derive(Clone, Copy, Debug, PartialEq, Eq, Structural)]
pub enum Signal {
    /// A raw input event arrived.
    Input(InputEvent),
    /// The host is ready to advance by one tick; `now` is its monotonic
    /// clock in nanoseconds.
    Advance { now: u64 },
    /// The window, now `width` by `height` pixels, is to be redrawn.
    Redraw { width: usize, height: usize },
    /// The window is to close.
    Close,
}

/// What the host is to do after a signal.
#[derive(Clone, Copy, Debug, PartialEq, Eq, Structural)]
pub enum Action {
    /// Nothing.
    Idle,
    /// Ask for the window to be redrawn.
    RequestRedraw,
    /// Show the surface.
    Present,
    /// Leave the event loop.
    Exit,
}

/// The time from `cursor` to `now`, zero if the clock went back.
pub open spec fn elapsed(cursor: u64, now: u64) -> u64 {
    if now >= cursor {
        (now - cursor) as u64
    } else {
        0
    }
}

/// The later of `cursor` and `now`.
pub open spec fn later(cursor: u64, now: u64) -> u64 {
    if now >= cursor {
        now
    } else {
        cursor
    }
}

/// The program's state along the run: there is one just while it runs.
enum Stage<G> {
    Uninitialized,
    Running(G),
    Terminated,
}

/// A run of the program `G`: its state, the context it is lent, the live
/// input tracker, the surface, the timing cursor and the count of ticks.
pub struct Scheduler<G: Game> {
    stage: Stage<G>,
    console: Console<G>,
    tracker: Input,
    surface: Surface,
    cursor: u64,
    ticks: usize,
    last_dt: u64,
}

impl<G: Game> Scheduler<G> {
    /// Where the run stands.
    pub closed spec fn spec_phase(&self) -> Phase {
        match self.stage {
            Stage::Uninitialized => Phase::Uninitialized,
            Stage::Running(_) => Phase::Running,
            Stage::Terminated => Phase::Terminated,
        }
    }

    /// The context that the program is lent.
    pub closed spec fn context(&self) -> Console<G> {
        self.console
    }

    /// The live input tracker.
    pub closed spec fn tracker(&self) -> Input {
        self.tracker
    }

    /// The physical surface.
    pub closed spec fn screen(&self) -> Surface {
        self.surface
    }

    /// The clock reading at the last tick, or at the start of the run.
    pub closed spec fn spec_cursor(&self) -> u64 {
        self.cursor
    }

    /// The number of ticks so far.
    pub closed spec fn spec_ticks(&self) -> nat {
        self.ticks as nat
    }

    /// The elapsed time that the last tick was handed.
    pub closed spec fn spec_last_dt(&self) -> u64 {
        self.last_dt
    }

    /// Whether the scheduler can take `signal`: the count of ticks can
    /// still grow, and a window's pixels can be counted.
    pub open spec fn accepts(&self, signal: Signal) -> bool {
        self.spec_phase() == Phase::Running ==> match signal {
            Signal::Advance { .. } => self.spec_ticks() < usize::MAX,
            Signal::Redraw { width, height } => width * height <= usize::MAX,
            _ => true,
        }
    }

    /// Whether nothing but the phase differs between `before` and this
    /// scheduler.
    pub open spec fn same_but_phase(&self, before: &Scheduler<G>) -> bool {
        &&& self.tracker() == before.tracker()
        &&& self.screen() == before.screen()
        &&& self.context() == before.context()
        &&& self.spec_cursor() == before.spec_cursor()
        &&& self.spec_ticks() == before.spec_ticks()
        &&& self.spec_last_dt() == before.spec_last_dt()
    }

    /// The scheduler after `signal`, with the action it returned, as far
    /// as the scheduler and not the program decides it.
    pub open spec fn stepped(&self, before: &Scheduler<G>, signal: Signal, action: Action) -> bool {
        if before.spec_phase() != Phase::Running {
            // Outside a run only the request to close has any effect.
            &&& self.same_but_phase(before)
            &&& match signal {
                Signal::Close => self.spec_phase() == Phase::Terminated && action == Action::Exit,
                _ => self.spec_phase() == before.spec_phase() && action == Action::Idle,
            }
        } else {
            match signal {
                Signal::Input(event) => {
                    &&& action == Action::Idle
                    &&& self.spec_phase() == Phase::Running
                    &&& self.tracker().follows(&before.tracker(), event)
                    &&& self.screen() == before.screen()
                    &&& self.context() == before.context()
                    &&& self.spec_cursor() == before.spec_cursor()
                    &&& self.spec_ticks() == before.spec_ticks()
                    &&& self.spec_last_dt() == before.spec_last_dt()
                },
                Signal::Advance { now } => {
                    &&& action == Action::RequestRedraw
                    &&& self.spec_phase() == Phase::Running
                    &&& self.tracker().drained(&before.tracker())
                    &&& self.screen() == before.screen()
                    &&& self.spec_last_dt() == elapsed(before.spec_cursor(), now)
                    &&& self.spec_cursor() == later(before.spec_cursor(), now)
                    &&& self.spec_ticks() == before.spec_ticks() + 1
                },
                Signal::Redraw { width, height } => {
                    &&& action == Action::Present
                    &&& self.spec_phase() == Phase::Running
                    &&& self.screen().presented(
                        &before.screen(),
                        &before.context().canvas(),
                        width as int,
                        height as int,
                    )
                    &&& self.tracker() == before.tracker()
                    &&& self.context() == before.context()
                    &&& self.spec_cursor() == before.spec_cursor()
                    &&& self.spec_ticks() == before.spec_ticks()
                    &&& self.spec_last_dt() == before.spec_last_dt()
                },
                Signal::Close => {
                    &&& action == Action::Exit
                    &&& self.spec_phase() == Phase::Terminated
                    &&& self.same_but_phase(before)
                },
            }
        }
    }

    /// A tick that comes with the clock where the cursor stands is handed
    /// no elapsed time and leaves the cursor in place, so any number of
    /// such ticks in a row pass no time to the program.
    pub proof fn lemma_tick_without_time(&self, before: &Scheduler<G>, action: Action)
        requires
            before.spec_phase() == Phase::Running,
            self.stepped(before, Signal::Advance { now: before.spec_cursor() }, action),
        ensures
            self.spec_last_dt() == 0,
            self.spec_cursor() == before.spec_cursor(),
            self.spec_phase() == Phase::Running,
    {
    }

    /// The timing cursor never goes back, and the elapsed time of a tick
    /// is the distance that the cursor moved.
    pub proof fn lemma_cursor_moves_on(&self, before: &Scheduler<G>, signal: Signal, action: Action)
        requires
            self.stepped(before, signal, action),
        ensures
            self.spec_cursor() >= before.spec_cursor(),
            before.spec_phase() == Phase::Running && signal is Advance ==> self.spec_cursor()
                == before.spec_cursor() + self.spec_last_dt(),
    {
    }

    /// A run that has not begun: a canvas of `width` by `height` pixels, all
    /// zero, no input, a surface of `window_width` by `window_height`
    /// pixels onto which the canvas is magnified `scale` times, and the
    /// timing cursor at `now`.
    pub fn new(
        width: usize,
        height: usize,
        scale: usize,
        window_width: usize,
        window_height: usize,
        now: u64,
    ) -> (scheduler: Scheduler<G>)
        requires
            width * height <= usize::MAX,
            window_width * window_height <= usize::MAX,
        ensures
            scheduler.spec_phase() == Phase::Uninitialized,
            scheduler.spec_cursor() == now,
            scheduler.spec_ticks() == 0,
            scheduler.spec_last_dt() == 0,
            scheduler.context().ticks() == 0,
            scheduler.context().canvas().spec_width() == width,
            scheduler.context().canvas().spec_height() == height,
            scheduler.context().canvas()@ == Seq::new((width * height) as nat, |i: int| 0u32),
            scheduler.tracker().events() == Seq::<InputEvent>::empty(),
            scheduler.tracker().held_keys() == Set::<u32>::empty(),
            scheduler.tracker().pressed_keys() == Set::<u32>::empty(),
            scheduler.tracker().released_keys() == Set::<u32>::empty(),
            scheduler.screen().factor() == scale,
            scheduler.screen().frame().spec_width() == window_width,
            scheduler.screen().frame().spec_height() == window_height,
            scheduler.screen().frame()@ == Seq::new(
                (window_width * window_height) as nat,
                |i: int| 0u32,
            ),
    {
        Scheduler {
            stage: Stage::Uninitialized,
            console: Console::new(Graphics::new(width, height)),
            tracker: Input::new(),
            surface: Surface::new(window_width, window_height, scale),
            cursor: now,
            ticks: 0,
            last_dt: 0,
        }
    }

    /// Where the run stands.
    pub fn phase(&self) -> (phase: Phase)
        ensures
            phase == self.spec_phase(),
    {
        match self.stage {
            Stage::Uninitialized => Phase::Uninitialized,
            Stage::Running(_) => Phase::Running,
            Stage::Terminated => Phase::Terminated,
        }
    }

    /// The number of ticks so far.
    pub fn ticks(&self) -> (n: usize)
        ensures
            n == self.spec_ticks(),
    {
        self.ticks
    }

    /// The clock reading at the last tick, or at the start of the run.
    pub fn cursor(&self) -> (t: u64)
        ensures
            t == self.spec_cursor(),
    {
        self.cursor
    }

    /// The elapsed time that the last tick was handed, in nanoseconds.
    pub fn last_dt(&self) -> (dt: u64)
        ensures
            dt == self.spec_last_dt(),
    {
        self.last_dt
    }

    /// The physical surface, for the host to show.
    pub fn surface(&self) -> (surface: &Surface)
        ensures
            *surface == self.screen(),
    {
        &self.surface
    }

    /// The context as the last tick left it.
    pub fn console(&self) -> (console: &Console<G>)
        ensures
            *console == self.context(),
    {
        &self.console
    }

    /// The program's state: there is one just while the run is `Running`.
    pub fn game(&self) -> (game: Option<&G>)
        ensures
            game is Some <==> self.spec_phase() == Phase::Running,
    {
        match &self.stage {
            Stage::Running(game) => Some(game),
            _ => None,
        }
    }

    /// The live input tracker.
    pub fn input(&self) -> (input: &Input)
        ensures
            *input == self.tracker(),
    {
        &self.tracker
    }

    /// Begins the run: makes the program's state with its `init`, which is
    /// lent the initial context, and goes from `Uninitialized` to
    /// `Running`. In any other phase nothing happens.
    pub fn start(&mut self)
        ensures
            final(self).spec_phase() == if old(self).spec_phase() == Phase::Uninitialized {
                Phase::Running
            } else {
                old(self).spec_phase()
            },
            old(self).spec_phase() != Phase::Uninitialized ==> final(self).same_but_phase(
                old(self),
            ),
            final(self).tracker() == old(self).tracker(),
            final(self).screen() == old(self).screen(),
            final(self).spec_cursor() == old(self).spec_cursor(),
            final(self).spec_ticks() == old(self).spec_ticks(),
            final(self).spec_last_dt() == old(self).spec_last_dt(),
    {
        match self.stage {
            Stage::Uninitialized => {
                let game = G::init(&mut self.console);
                self.stage = Stage::Running(game);
            },
            _ => {},
        }
    }

    /// Readies the context for a tick at clock reading `now`: measures the
    /// time since the cursor and gives the context a snapshot of the input
    /// and the count of ticks. The canvas is not cleared.
    fn open_tick(&mut self, now: u64) -> (dt: u64)
        requires
            old(self).spec_phase() == Phase::Running,
        ensures
            dt == elapsed(old(self).spec_cursor(), now),
            final(self).spec_last_dt() == dt,
            final(self).context().input_view().same_as(&old(self).tracker()),
            final(self).context().ticks() == old(self).spec_ticks(),
            final(self).context().canvas() == old(self).context().canvas(),
            final(self).spec_phase() == Phase::Running,
            final(self).tracker() == old(self).tracker(),
            final(self).screen() == old(self).screen(),
            final(self).spec_cursor() == old(self).spec_cursor(),
            final(self).spec_ticks() == old(self).spec_ticks(),
    {
        let dt: u64 = if now >= self.cursor {
            now - self.cursor
        } else {
            0
        };
        let snapshot = self.tracker.snapshot();
        self.console.refresh(snapshot, self.ticks);
        self.last_dt = dt;
        dt
    }

    /// Ends a tick that was handed `dt`: empties the input queue, moves the
    /// cursor on by `dt` and counts the tick.
    fn close_tick(&mut self, dt: u64)
        requires
            old(self).spec_phase() == Phase::Running,
            old(self).spec_ticks() < usize::MAX,
            old(self).spec_cursor() + dt <= u64::MAX,
        ensures
            final(self).tracker().drained(&old(self).tracker()),
            final(self).spec_cursor() == old(self).spec_cursor() + dt,
            final(self).spec_ticks() == old(self).spec_ticks() + 1,
            final(self).spec_phase() == Phase::Running,
            final(self).screen() == old(self).screen(),
            final(self).context() == old(self).context(),
            final(self).spec_last_dt() == old(self).spec_last_dt(),
    {
        self.tracker.end_tick();
        self.cursor = self.cursor + dt;
        self.ticks = self.ticks + 1;
    }

    /// Takes one signal from the host and says what the host is to do.
    ///
    /// While the run is `Running`: an input event goes to the tracker; a
    /// request to advance runs one tick (the elapsed time is measured, the
    /// program's `tick` is lent the refreshed context, a redraw is asked
    /// for, the input queue is emptied, the cursor moves on); a request to
    /// redraw presents the canvas on the surface; a request to close ends
    /// the run. Outside a run only the request to close does anything.
    pub fn handle(&mut self, signal: Signal) -> (action: Action)
        requires
            old(self).accepts(signal),
        ensures
            final(self).stepped(old(self), signal, action),
    {
        match self.stage {
            Stage::Running(_) => {},
            _ => {
                return match signal {
                    Signal::Close => {
                        self.stage = Stage::Terminated;
                        Action::Exit
                    },
                    _ => Action::Idle,
                };
            },
        }
        match signal {
            Signal::Input(event) => {
                self.tracker.record(event);
                Action::Idle
            },
            Signal::Advance { now } => {
                let dt = self.open_tick(now);
                match &mut self.stage {
                    Stage::Running(game) => {
                        game.tick(dt, &mut self.console);
                    },
                    _ => {},
                }
                self.close_tick(dt);
                Action::RequestRedraw
            },
            Signal::Redraw { width, height } => {
                self.surface.present(self.console.graphics(), width, height);
                Action::Present
            },
            Signal::Close => {
                self.stage = Stage::Terminated;
                Action::Exit
            },
        }
    }
}

} // verus!
