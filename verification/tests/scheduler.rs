use micro_jam_engine::{
    Action, Console, Game, InputEvent, KeyState, Phase, Rect, Scheduler, Signal,
};

const K: u32 = 44;

/// A program that records what each tick was handed and moves a marker by
/// one pixel for every hundred nanoseconds.
struct Probe {
    inits: usize,
    dts: Vec<u64>,
    ticks_seen: Vec<usize>,
    queues: Vec<Vec<InputEvent>>,
    pressed: Vec<bool>,
    held: Vec<bool>,
    position: u64,
}

impl Game for Probe {
    const TITLE: &'static str = "Probe";
    type SaveData = u32;

    fn init(console: &mut Console<Self>) -> Self {
        assert_eq!(console.tick(), 0);
        assert_eq!(console.graphics.width(), 20);
        assert_eq!(console.graphics.height(), 10);
        assert!(console.graphics.as_slice().iter().all(|p| *p == 0));
        assert!(console.input.queue().is_empty());
        assert!(!console.input.key_held(K));
        console.graphics.plot(19, 9, 0x0F0F0F);
        Probe {
            inits: 1,
            dts: Vec::new(),
            ticks_seen: Vec::new(),
            queues: Vec::new(),
            pressed: Vec::new(),
            held: Vec::new(),
            position: 0,
        }
    }

    fn tick(&mut self, dt: u64, console: &mut Console<Self>) {
        self.dts.push(dt);
        self.ticks_seen.push(console.tick());
        self.queues.push(console.input.queue().to_vec());
        self.pressed.push(console.input.key_pressed(K));
        self.held.push(console.input.key_held(K));
        self.position += dt / 100;
        console.graphics.draw_rect(Rect::new(self.position as i64, 0, 1, 1), 0xFF0000, true);
    }
}

fn down(key: u32) -> Signal {
    Signal::Input(InputEvent::KeyboardInput { key, state: KeyState::Pressed })
}

fn up(key: u32) -> Signal {
    Signal::Input(InputEvent::KeyboardInput { key, state: KeyState::NotPressed })
}

fn running(now: u64) -> Scheduler<Probe> {
    let mut s = Scheduler::new(20, 10, 2, 40, 20, now);
    s.start();
    s
}

#[test]
fn run_begins_uninitialized() {
    let s: Scheduler<Probe> = Scheduler::new(20, 10, 2, 40, 20, 500);
    assert_eq!(s.phase(), Phase::Uninitialized);
    assert!(s.game().is_none());
    assert_eq!(s.ticks(), 0);
    assert_eq!(s.cursor(), 500);
    assert_eq!(s.last_dt(), 0);
    assert_eq!(s.console().tick(), 0);
    assert_eq!((s.console().graphics.width(), s.console().graphics.height()), (20, 10));
    assert!(s.console().graphics.as_slice().iter().all(|p| *p == 0));
    assert_eq!((s.surface().width(), s.surface().height(), s.surface().scale()), (40, 20, 2));
    assert!(s.surface().as_slice().iter().all(|p| *p == 0));
    assert!(s.input().queue().is_empty());
    assert_eq!(Probe::TITLE, "Probe");
}

#[test]
fn start_runs_init_once() {
    let mut s: Scheduler<Probe> = Scheduler::new(20, 10, 2, 40, 20, 0);
    s.start();
    assert_eq!(s.phase(), Phase::Running);
    assert_eq!(s.game().unwrap().inits, 1);
    assert_eq!(s.console().graphics.get(19, 9), Some(0x0F0F0F));
    assert_eq!(s.ticks(), 0);
    s.handle(Signal::Advance { now: 100 });
    s.start();
    assert_eq!(s.phase(), Phase::Running);
    assert_eq!(s.game().unwrap().dts, vec![100]);
    assert_eq!(s.ticks(), 1);
}

#[test]
fn signals_before_the_start_are_ignored() {
    let mut s: Scheduler<Probe> = Scheduler::new(20, 10, 2, 40, 20, 0);
    assert_eq!(s.handle(down(K)), Action::Idle);
    assert_eq!(s.handle(Signal::Advance { now: 50 }), Action::Idle);
    assert_eq!(s.handle(Signal::Redraw { width: 7, height: 7 }), Action::Idle);
    assert_eq!(s.phase(), Phase::Uninitialized);
    assert!(s.input().queue().is_empty());
    assert!(!s.input().key_held(K));
    assert_eq!(s.ticks(), 0);
    assert_eq!(s.cursor(), 0);
    assert_eq!((s.surface().width(), s.surface().height()), (40, 20));
    assert_eq!(s.handle(Signal::Close), Action::Exit);
    assert_eq!(s.phase(), Phase::Terminated);
    s.start();
    assert_eq!(s.phase(), Phase::Terminated);
    assert!(s.game().is_none());
}

#[test]
fn tick_measures_the_time_since_the_last() {
    let mut s = running(1_000);
    assert_eq!(s.handle(Signal::Advance { now: 1_250 }), Action::RequestRedraw);
    assert_eq!(s.last_dt(), 250);
    assert_eq!(s.cursor(), 1_250);
    assert_eq!(s.ticks(), 1);
    assert_eq!(s.handle(Signal::Advance { now: 2_000 }), Action::RequestRedraw);
    assert_eq!(s.last_dt(), 750);
    assert_eq!(s.cursor(), 2_000);
    assert_eq!(s.ticks(), 2);
    let game = s.game().unwrap();
    assert_eq!(game.dts, vec![250, 750]);
    assert_eq!(game.ticks_seen, vec![0, 1]);
    assert_eq!(s.phase(), Phase::Running);
}

#[test]
fn first_tick_is_measured_from_the_start() {
    let mut s = running(0);
    s.handle(Signal::Advance { now: 16_000_000 });
    assert_eq!(s.game().unwrap().dts, vec![16_000_000]);
    let mut s = running(u64::MAX - 5);
    s.handle(Signal::Advance { now: u64::MAX });
    assert_eq!(s.game().unwrap().dts, vec![5]);
    assert_eq!(s.cursor(), u64::MAX);
}

#[test]
fn ticks_without_time_move_nothing() {
    let mut s = running(300);
    s.handle(Signal::Advance { now: 700 });
    let position = s.game().unwrap().position;
    assert_eq!(position, 4);
    let frame = s.console().graphics.as_slice().to_vec();
    for _ in 0..5 {
        assert_eq!(s.handle(Signal::Advance { now: 700 }), Action::RequestRedraw);
        assert_eq!(s.last_dt(), 0);
        assert_eq!(s.cursor(), 700);
        assert_eq!(s.game().unwrap().position, position);
        assert_eq!(s.console().graphics.as_slice(), &frame[..]);
    }
    assert_eq!(s.ticks(), 6);
    assert_eq!(s.game().unwrap().dts, vec![400, 0, 0, 0, 0, 0]);
}

#[test]
fn clock_that_goes_back_passes_no_time() {
    let mut s = running(1_000);
    s.handle(Signal::Advance { now: 400 });
    assert_eq!(s.last_dt(), 0);
    assert_eq!(s.cursor(), 1_000);
    s.handle(Signal::Advance { now: 1_001 });
    assert_eq!(s.last_dt(), 1);
    assert_eq!(s.cursor(), 1_001);
}

#[test]
fn tick_sees_the_input_and_drains_it() {
    let mut s = running(0);
    assert_eq!(s.handle(down(K)), Action::Idle);
    let moved = InputEvent::CursorMoved { x: 12, y: 5 };
    assert_eq!(s.handle(Signal::Input(moved)), Action::Idle);
    assert!(s.input().key_held(K));
    assert_eq!(s.input().queue().len(), 2);
    assert_eq!(s.ticks(), 0);
    s.handle(Signal::Advance { now: 10 });
    assert!(s.input().queue().is_empty());
    assert!(s.input().key_held(K));
    assert!(!s.input().key_pressed(K));
    s.handle(Signal::Advance { now: 20 });
    s.handle(up(K));
    assert!(!s.input().key_held(K));
    s.handle(Signal::Advance { now: 30 });
    let game = s.game().unwrap();
    assert_eq!(game.pressed, vec![true, false, false]);
    assert_eq!(game.held, vec![true, true, false]);
    assert_eq!(game.queues.len(), 3);
    assert_eq!(
        game.queues[0],
        vec![InputEvent::KeyboardInput { key: K, state: KeyState::Pressed }, moved]
    );
    assert!(game.queues[1].is_empty());
    assert_eq!(
        game.queues[2],
        vec![InputEvent::KeyboardInput { key: K, state: KeyState::NotPressed }]
    );
}

#[test]
fn canvas_is_not_cleared_between_ticks() {
    let mut s = running(0);
    s.handle(Signal::Advance { now: 100 });
    s.handle(Signal::Advance { now: 300 });
    let g = &s.console().graphics;
    // The marker of the first tick at x = 1 is still there beside the second at x = 3.
    assert_eq!(g.get(1, 0), Some(0xFF0000));
    assert_eq!(g.get(3, 0), Some(0xFF0000));
    assert_eq!(g.get(2, 0), Some(0));
    assert_eq!(g.get(19, 9), Some(0x0F0F0F));
    assert_eq!((g.width(), g.height()), (20, 10));
}

#[test]
fn redraw_presents_the_canvas() {
    let mut s = running(0);
    s.handle(Signal::Advance { now: 200 });
    assert!(s.surface().as_slice().iter().all(|p| *p == 0));
    assert_eq!(s.handle(Signal::Redraw { width: 40, height: 20 }), Action::Present);
    let surface = s.surface();
    assert_eq!(surface.as_slice().len(), 800);
    for y in 0..20 {
        for x in 0..40 {
            assert_eq!(surface.get(x, y), s.console().graphics.get(x / 2, y / 2));
        }
    }
    assert_eq!(surface.get(4, 0), Some(0xFF0000));
    assert_eq!(surface.get(5, 1), Some(0xFF0000));
    assert_eq!(surface.get(6, 0), Some(0));
    assert_eq!(s.ticks(), 1);
    assert_eq!(s.cursor(), 200);
}

#[test]
fn redraw_follows_the_window_size() {
    let mut s = running(0);
    s.handle(Signal::Advance { now: 0 });
    assert_eq!(s.handle(Signal::Redraw { width: 50, height: 30 }), Action::Present);
    assert_eq!((s.surface().width(), s.surface().height()), (50, 30));
    assert_eq!(s.surface().scale(), 2);
    assert_eq!(s.surface().get(0, 0), Some(0xFF0000));
    assert_eq!(s.surface().get(39, 19), Some(0x0F0F0F));
    assert_eq!(s.surface().get(40, 19), Some(0));
    assert_eq!(s.surface().get(49, 29), Some(0));
    assert_eq!((s.console().graphics.width(), s.console().graphics.height()), (20, 10));
}

#[test]
fn close_ends_the_run() {
    let mut s = running(0);
    s.handle(Signal::Advance { now: 10 });
    s.handle(down(K));
    assert_eq!(s.handle(Signal::Close), Action::Exit);
    assert_eq!(s.phase(), Phase::Terminated);
    assert!(s.game().is_none());
    assert_eq!(s.ticks(), 1);
    assert_eq!(s.cursor(), 10);
    assert_eq!(s.input().queue().len(), 1);
    assert_eq!(s.handle(Signal::Advance { now: 99 }), Action::Idle);
    assert_eq!(s.handle(up(K)), Action::Idle);
    assert_eq!(s.handle(Signal::Redraw { width: 3, height: 3 }), Action::Idle);
    assert_eq!(s.ticks(), 1);
    assert_eq!(s.cursor(), 10);
    assert!(s.input().key_held(K));
    assert_eq!((s.surface().width(), s.surface().height()), (40, 20));
    assert_eq!(s.handle(Signal::Close), Action::Exit);
    assert_eq!(s.phase(), Phase::Terminated);
}
