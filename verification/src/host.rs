//! The machine as its host sees it: the inputs a host loop feeds it, what it
//! tells the loop to do next, and the framebuffer laid out for a renderer.
//!
//! The host paces the machine. It decides how many instructions run per
//! frame and sends a timer tick sixty times a second, whatever that rate is.

use vstd::prelude::*;
use crate::error::Chip8Error;
use crate::machine::Chip8;
use crate::model::{step_ends_as, step_spec, State};
use crate::timers::ticked;

verus! {

/// The side, in host pixels, of the square that one pixel is painted as.
pub const PIXEL_SCALE: i32 = 10;

/// One square for a renderer to paint: its top-left corner in host pixels
/// and whether it is lit.
#[derive(Clone, Copy, Debug, PartialEq, Eq, Structural)]
pub struct Tile {
    pub x: i32,
    pub y: i32,
    pub lit: bool,
}

/// The square for pixel `i` of the row-major screen.
pub open spec fn tile_spec(screen: Seq<bool>, i: int) -> Tile {
    Tile { x: ((i % 64) * 10) as i32, y: ((i / 64) * 10) as i32, lit: screen[i] }
}

/// What the host feeds the machine.
#[derive(Clone, Copy, Debug, PartialEq, Eq, Structural)]
pub enum HostEvent {
    /// The user asked to leave.
    Quit,
    /// A key of the pad went down.
    KeyDown { key: u8 },
    /// A key of the pad came up.
    KeyUp { key: u8 },
    /// Run one instruction.
    Cycle,
    /// One sixtieth of a second has passed.
    TimerTick,
}

/// What the machine tells the host loop after an event.
#[derive(Clone, Copy, Debug, PartialEq, Eq, Structural)]
pub enum Control {
    /// Go on.
    Continue,
    /// Leave the loop: the user asked to.
    Quit,
    /// The step failed and the instruction had no effect. Unless the fetch
    /// itself failed, the program counter points behind the opcode that was
    /// fetched. The host decides whether to halt, reset or go on.
    Fault { error: Chip8Error },
}

/// The state after an event and what the host is told, where `random` is
/// the byte that a `Random` instruction would draw.
pub open spec fn handle_spec(s: State, event: HostEvent, random: u8) -> (State, Control) {
    match event {
        HostEvent::Quit => (s, Control::Quit),
        HostEvent::KeyDown { key } => (
            if key < 16 {
                State { keys: s.keys.update(key as int, true), ..s }
            } else {
                s
            },
            Control::Continue,
        ),
        HostEvent::KeyUp { key } => (
            if key < 16 {
                State { keys: s.keys.update(key as int, false), ..s }
            } else {
                s
            },
            Control::Continue,
        ),
        HostEvent::Cycle => (
            step_spec(s, random).state,
            match step_spec(s, random).error {
                None => Control::Continue,
                Some(error) => Control::Fault { error },
            },
        ),
        HostEvent::TimerTick => (
            State { delay: ticked(s.delay), sound: ticked(s.sound), ..s },
            Control::Continue,
        ),
    }
}

impl Chip8 {
    /// Lays the framebuffer out as the squares a renderer paints, one per
    /// pixel in row-major order, each `PIXEL_SCALE` host pixels wide.
    pub fn draw(&self) -> (tiles: Vec<Tile>)
        requires
            self.wf(),
        ensures
            tiles@.len() == 2048,
            forall|i: int| 0 <= i < 2048 ==> tiles@[i] == tile_spec(self@.screen, i),
    {
        let pixels = self.screen().pixels();
        let mut tiles: Vec<Tile> = Vec::new();
        let mut x: i32 = 0;
        let mut y: i32 = 0;
        let mut i: usize = 0;
        while i < pixels.len()
            invariant
                pixels@ == self@.screen,
                pixels@.len() == 2048,
                i <= 2048,
                tiles@.len() == i,
                x == i % 64,
                y == i / 64,
                forall|k: int| 0 <= k < i ==> tiles@[k] == tile_spec(self@.screen, k),
            decreases 2048 - i,
        {
            tiles.push(Tile { x: x * PIXEL_SCALE, y: y * PIXEL_SCALE, lit: pixels[i] });
            x += 1;
            if x >= 64 {
                x = 0;
                y += 1;
            }
            i += 1;
        }
        tiles
    }

    /// Feeds the machine one event from the host and says how the host
    /// loop goes on.
    ///
    /// A key event sets or clears the key's state. A cycle runs one step;
    /// where it fails, the error is handed to the host, and the machine is
    /// left as a failed step leaves it: nothing changed but the program
    /// counter, which the fetch has advanced. A timer tick advances both
    /// timers. A request to quit changes nothing.
    ///
    /// A cycle can panic where `step` can: in drawing a random byte, where
    /// the operating system fails to seed or reseed the generator, or
    /// refuses its fork handler.
    pub fn handle_event(&mut self, event: HostEvent) -> (control: Control)
        requires
            old(self).wf(),
        ensures
            final(self).wf(),
            exists|random: u8|
                (final(self)@, control) == #[trigger] handle_spec(old(self)@, event, random),
    {
        let control = match event {
            HostEvent::Quit => Control::Quit,
            HostEvent::KeyDown { key } => {
                self.key_down(key);
                Control::Continue
            },
            HostEvent::KeyUp { key } => {
                self.key_up(key);
                Control::Continue
            },
            HostEvent::Cycle => {
                let r = self.step();
                proof {
                    let random = choose|random: u8| #[trigger]
                        step_ends_as(old(self)@, random, self@, r);
                    assert((
                        self@,
                        match r {
                            Ok(_) => Control::Continue,
                            Err(error) => Control::Fault { error },
                        },
                    ) == handle_spec(old(self)@, event, random));
                }
                match r {
                    Ok(_) => Control::Continue,
                    Err(error) => Control::Fault { error },
                }
            },
            HostEvent::TimerTick => {
                self.tick_timers();
                Control::Continue
            },
        };
        assert(event !is Cycle ==> (self@, control) == handle_spec(old(self)@, event, 0));
        control
    }
}

} // verus!
