//! The interactive view: the visible window, the pause switch, and what each
//! event does to them.

use vstd::prelude::*;

verus! {

/// How far a pan moves the window.
pub const PAN_STEP: i32 = 10;

/// How far a resize moves each end of the window.
pub const RESIZE_STEP: i32 = 5;

/// The time between two generations, in milliseconds.
pub const TICK_MILLIS: u64 = 200;

/// What the controls read of a key press.
#[derive(Clone, Copy, Debug, PartialEq, Eq)]
pub enum Key {
    Char(char),
    Esc,
    Left,
    Right,
    Up,
    Down,
    Other,
}

/// What the event loop hands to the view: a key press, or a tick of the
/// clock.
#[derive(Debug)]
pub enum UserEvent<InputType> {
    Input(InputType),
    Tick,
}

/// What a key asks for.
#[derive(Clone, Copy, Debug, PartialEq, Eq)]
pub enum Command {
    Quit,
    TogglePause,
    Translate(i32, i32),
    ContractX,
    ExpandX,
    ExpandY,
    ContractY,
    Nothing,
}

/// What is left for the event loop to do once the view has handled an event.
#[derive(Clone, Copy, Debug, PartialEq, Eq)]
pub enum Reaction {
    /// Restore the terminal and leave.
    Quit,
    /// Replace the board by its next generation.
    Advance,
    /// Only draw again.
    Nothing,
}

/// The command bound to each key.
pub open spec fn command_of(key: Key) -> Command {
    match key {
        Key::Char('q') | Key::Esc => Command::Quit,
        Key::Char(' ') => Command::TogglePause,
        Key::Char('h') | Key::Left => Command::Translate((-PAN_STEP) as i32, 0),
        Key::Char('l') | Key::Right => Command::Translate(PAN_STEP, 0),
        Key::Char('k') | Key::Up => Command::Translate(0, PAN_STEP),
        Key::Char('j') | Key::Down => Command::Translate(0, (-PAN_STEP) as i32),
        Key::Char('H') => Command::ContractX,
        Key::Char('L') => Command::ExpandX,
        Key::Char('K') => Command::ExpandY,
        Key::Char('J') => Command::ContractY,
        _ => Command::Nothing,
    }
}

/// The command bound to `key`.
pub fn command_for(key: Key) -> (command: Command)
    ensures
        command == command_of(key),
{
    match key {
        Key::Char('q') | Key::Esc => Command::Quit,
        Key::Char(' ') => Command::TogglePause,
        Key::Char('h') | Key::Left => Command::Translate(-PAN_STEP, 0),
        Key::Char('l') | Key::Right => Command::Translate(PAN_STEP, 0),
        Key::Char('k') | Key::Up => Command::Translate(0, PAN_STEP),
        Key::Char('j') | Key::Down => Command::Translate(0, -PAN_STEP),
        Key::Char('H') => Command::ContractX,
        Key::Char('L') => Command::ExpandX,
        Key::Char('K') => Command::ExpandY,
        Key::Char('J') => Command::ContractY,
        _ => Command::Nothing,
    }
}

/// The visible window and the pause switch.
///
/// A window is a pair of bounds on each axis, the lower one first.
#[derive(Clone, Copy, Debug, PartialEq, Eq)]
pub struct App {
    pub paused: bool,
    pub x_bounds: (i32, i32),
    pub y_bounds: (i32, i32),
}

/// Whether both ends of `bounds` can still be written down once `low` is
/// added to the lower end and `high` to the upper.
pub open spec fn can_move(bounds: (i32, i32), low: int, high: int) -> bool {
    &&& i32::MIN <= bounds.0 + low <= i32::MAX
    &&& i32::MIN <= bounds.1 + high <= i32::MAX
}

/// The bounds with `low` added to the lower end and `high` to the upper.
pub open spec fn moved(bounds: (i32, i32), low: int, high: int) -> (i32, i32) {
    ((bounds.0 + low) as i32, (bounds.1 + high) as i32)
}

/// Whether `bounds` can be moved by `low` and `high`.
fn fits(bounds: (i32, i32), low: i32, high: i32) -> (fitting: bool)
    ensures
        fitting == can_move(bounds, low as int, high as int),
{
    let lower: i64 = bounds.0 as i64 + low as i64;
    let upper: i64 = bounds.1 as i64 + high as i64;
    -0x8000_0000 <= lower && lower <= 0x7fff_ffff && -0x8000_0000 <= upper && upper <= 0x7fff_ffff
}

impl App {
    /// The view at the start: running, with a window of fifty cells to each
    /// side of the origin.
    pub fn new() -> (app: App)
        ensures
            app == (App { paused: false, x_bounds: (-50i32, 50i32), y_bounds: (-50i32, 50i32) }),
    {
        App { paused: false, x_bounds: (-50, 50), y_bounds: (-50, 50) }
    }

    /// Whether the window can be moved by `x_mov` columns and `y_mov` rows.
    pub open spec fn can_translate(self, x_mov: int, y_mov: int) -> bool {
        can_move(self.x_bounds, x_mov, x_mov) && can_move(self.y_bounds, y_mov, y_mov)
    }

    /// Moves the window by `x_mov` columns and `y_mov` rows.
    pub fn translate(&mut self, x_mov: i32, y_mov: i32)
        requires
            old(self).can_translate(x_mov as int, y_mov as int),
        ensures
            *final(self) == (App {
                x_bounds: moved(old(self).x_bounds, x_mov as int, x_mov as int),
                y_bounds: moved(old(self).y_bounds, y_mov as int, y_mov as int),
                ..*old(self)
            }),
    {
        self.x_bounds = (self.x_bounds.0 + x_mov, self.x_bounds.1 + x_mov);
        self.y_bounds = (self.y_bounds.0 + y_mov, self.y_bounds.1 + y_mov);
    }

    /// Stops a running simulation, and starts a stopped one.
    pub fn toggle_pause(&mut self)
        ensures
            *final(self) == (App { paused: !old(self).paused, ..*old(self) }),
    {
        self.paused = !self.paused
    }

    /// Widens the window by one resize step at each end.
    pub fn expand_frame_x(&mut self)
        requires
            can_move(old(self).x_bounds, -RESIZE_STEP, RESIZE_STEP as int),
        ensures
            *final(self) == (App { x_bounds: moved(old(self).x_bounds, -RESIZE_STEP, RESIZE_STEP as int), ..*old(self) }),
    {
        self.x_bounds = (self.x_bounds.0 - RESIZE_STEP, self.x_bounds.1 + RESIZE_STEP);
    }

    /// Heightens the window by one resize step at each end.
    pub fn expand_frame_y(&mut self)
        requires
            can_move(old(self).y_bounds, -RESIZE_STEP, RESIZE_STEP as int),
        ensures
            *final(self) == (App { y_bounds: moved(old(self).y_bounds, -RESIZE_STEP, RESIZE_STEP as int), ..*old(self) }),
    {
        self.y_bounds = (self.y_bounds.0 - RESIZE_STEP, self.y_bounds.1 + RESIZE_STEP);
    }

    /// Lowers the window by one resize step at each end.
    pub fn contract_frame_y(&mut self)
        requires
            can_move(old(self).y_bounds, RESIZE_STEP as int, -RESIZE_STEP),
        ensures
            *final(self) == (App { y_bounds: moved(old(self).y_bounds, RESIZE_STEP as int, -RESIZE_STEP), ..*old(self) }),
    {
        self.y_bounds = (self.y_bounds.0 + RESIZE_STEP, self.y_bounds.1 - RESIZE_STEP);
    }

    /// Narrows the window by one resize step at each end.
    pub fn contract_frame_x(&mut self)
        requires
            can_move(old(self).x_bounds, RESIZE_STEP as int, -RESIZE_STEP),
        ensures
            *final(self) == (App { x_bounds: moved(old(self).x_bounds, RESIZE_STEP as int, -RESIZE_STEP), ..*old(self) }),
    {
        self.x_bounds = (self.x_bounds.0 + RESIZE_STEP, self.x_bounds.1 - RESIZE_STEP);
    }

    /// The view after `command`. A move that would take a bound out of the
    /// range of its type leaves the window where it is.
    pub open spec fn performed(self, command: Command) -> App {
        match command {
            Command::Quit | Command::Nothing => self,
            Command::TogglePause => App { paused: !self.paused, ..self },
            Command::Translate(x_mov, y_mov) => if self.can_translate(x_mov as int, y_mov as int) {
                App {
                    x_bounds: moved(self.x_bounds, x_mov as int, x_mov as int),
                    y_bounds: moved(self.y_bounds, y_mov as int, y_mov as int),
                    ..self
                }
            } else {
                self
            },
            Command::ContractX => if can_move(self.x_bounds, RESIZE_STEP as int, -RESIZE_STEP) {
                App { x_bounds: moved(self.x_bounds, RESIZE_STEP as int, -RESIZE_STEP), ..self }
            } else {
                self
            },
            Command::ExpandX => if can_move(self.x_bounds, -RESIZE_STEP, RESIZE_STEP as int) {
                App { x_bounds: moved(self.x_bounds, -RESIZE_STEP, RESIZE_STEP as int), ..self }
            } else {
                self
            },
            Command::ExpandY => if can_move(self.y_bounds, -RESIZE_STEP, RESIZE_STEP as int) {
                App { y_bounds: moved(self.y_bounds, -RESIZE_STEP, RESIZE_STEP as int), ..self }
            } else {
                self
            },
            Command::ContractY => if can_move(self.y_bounds, RESIZE_STEP as int, -RESIZE_STEP) {
                App { y_bounds: moved(self.y_bounds, RESIZE_STEP as int, -RESIZE_STEP), ..self }
            } else {
                self
            },
        }
    }

    /// The view after `event`: a tick changes nothing in it, a key press does
    /// what the key is bound to.
    pub open spec fn after(self, event: UserEvent<Key>) -> App {
        match event {
            UserEvent::Input(key) => self.performed(command_of(key)),
            UserEvent::Tick => self,
        }
    }

    /// What `event` leaves for the event loop to do: to quit on the keys
    /// bound to it, to advance the board on a tick unless the view is paused.
    pub open spec fn reaction_to(self, event: UserEvent<Key>) -> Reaction {
        match event {
            UserEvent::Input(key) => if command_of(key) == Command::Quit {
                Reaction::Quit
            } else {
                Reaction::Nothing
            },
            UserEvent::Tick => if self.paused {
                Reaction::Nothing
            } else {
                Reaction::Advance
            },
        }
    }

    /// Carries out `command`, as far as it concerns the view.
    pub fn perform(&mut self, command: Command)
        ensures
            *final(self) == old(self).performed(command),
    {
        match command {
            Command::Quit | Command::Nothing => {},
            Command::TogglePause => self.toggle_pause(),
            Command::Translate(x_mov, y_mov) => {
                if fits(self.x_bounds, x_mov, x_mov) && fits(self.y_bounds, y_mov, y_mov) {
                    self.translate(x_mov, y_mov);
                }
            },
            Command::ContractX => {
                if fits(self.x_bounds, RESIZE_STEP, -RESIZE_STEP) {
                    self.contract_frame_x();
                }
            },
            Command::ExpandX => {
                if fits(self.x_bounds, -RESIZE_STEP, RESIZE_STEP) {
                    self.expand_frame_x();
                }
            },
            Command::ExpandY => {
                if fits(self.y_bounds, -RESIZE_STEP, RESIZE_STEP) {
                    self.expand_frame_y();
                }
            },
            Command::ContractY => {
                if fits(self.y_bounds, RESIZE_STEP, -RESIZE_STEP) {
                    self.contract_frame_y();
                }
            },
        }
    }

    /// Handles one event, and says what is left for the event loop to do.
    pub fn handle(&mut self, event: UserEvent<Key>) -> (reaction: Reaction)
        ensures
            *final(self) == old(self).after(event),
            reaction == old(self).reaction_to(event),
    {
        match event {
            UserEvent::Input(key) => {
                let command = command_for(key);
                self.perform(command);
                match command {
                    Command::Quit => Reaction::Quit,
                    _ => Reaction::Nothing,
                }
            },
            UserEvent::Tick => {
                if self.paused {
                    Reaction::Nothing
                } else {
                    Reaction::Advance
                }
            },
        }
    }
}

} // verus!
