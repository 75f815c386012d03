use vstd::prelude::*;
use vstd::string::*;

use crate::level::{CommandResult, DungeonLevel};
use crate::ui::{blank_cell, new_buffer, Buffer, Cell, Color, Key};

verus! {

/// A message of `len` characters centered on row `height / 2 + delta` fits on the screen.
pub open spec fn centered_fits(width: int, height: int, len: int, delta: int) -> bool {
    &&& len / 2 <= width / 2
    &&& width / 2 - len / 2 + len <= width
    &&& 0 <= height / 2 + delta < height
}

/// The cell that `message`, centered on row `height / 2 + delta`, puts at `(row, col)`, if any.
pub open spec fn centered_cell(width: int, height: int, message: Seq<char>, delta: int, row: int, col: int) -> Option<Cell> {
    let x0 = width / 2 - message.len() / 2;
    if centered_fits(width, height, message.len() as int, delta) && row == height / 2 + delta
        && x0 <= col < x0 + message.len() {
        Some(Cell { symbol: message[col - x0], fg: Color::White, bg: Color::Black })
    } else {
        None
    }
}

/// Cell `(row, col)` of a screen with `top` centered one row above the middle and `bottom` one
/// row below, each where it fits.
pub open spec fn text_screen_cell(width: int, height: int, top: Seq<char>, bottom: Seq<char>, row: int, col: int) -> Cell {
    match centered_cell(width, height, bottom, 1, row, col) {
        Some(c) => c,
        None => match centered_cell(width, height, top, -1, row, col) {
            Some(c) => c,
            None => blank_cell(),
        },
    }
}

/// Writes `message` centered on row `height / 2 + delta` where it fits; leaves the buffer as
/// it was where it does not.
fn print_centered_if_fits(buffer: &mut Buffer, message: &str, delta: i32)
    requires
        old(buffer).wf(),
    ensures
        final(buffer).wf(),
        final(buffer).spec_width() == old(buffer).spec_width(),
        final(buffer).spec_height() == old(buffer).spec_height(),
        forall|r: int, k: int| #[trigger]
            final(buffer).in_bounds(r, k) ==> final(buffer).cell_at(r, k) == match centered_cell(
                old(buffer).spec_width() as int,
                old(buffer).spec_height() as int,
                message@,
                delta as int,
                r,
                k,
            ) {
                Some(c) => c,
                None => old(buffer).cell_at(r, k),
            },
{
    let n: usize = message.unicode_len();
    let width = buffer.width();
    let height = buffer.height();
    let half: usize = height / 2;
    let row_fits = if delta >= 0 {
        (delta as usize) < height - half
    } else {
        ((0 - delta as i64) as usize) <= half
    };
    if n / 2 <= width / 2 && n <= width - (width / 2 - n / 2) && row_fits {
        buffer.print_centered(message, delta);
    }
}

/// A `width * height` screen showing `top` above and `bottom` below the middle row.
fn text_screen(width: usize, height: usize, top: &str, bottom: &str) -> (b: Buffer)
    requires
        width * height <= usize::MAX,
    ensures
        b.wf(),
        b.spec_width() == width,
        b.spec_height() == height,
        forall|r: int, k: int| #[trigger]
            b.in_bounds(r, k) ==> b.cell_at(r, k) == text_screen_cell(
                width as int,
                height as int,
                top@,
                bottom@,
                r,
                k,
            ),
{
    let mut buffer = new_buffer(width, height);
    let ghost b0 = buffer;
    print_centered_if_fits(&mut buffer, top, -1);
    let ghost b1 = buffer;
    print_centered_if_fits(&mut buffer, bottom, 1);
    assert forall|r: int, k: int| #[trigger]
        buffer.in_bounds(r, k) implies buffer.cell_at(r, k) == text_screen_cell(
        width as int,
        height as int,
        top@,
        bottom@,
        r,
        k,
    ) by {
        assert(b0.in_bounds(r, k));
        assert(b1.in_bounds(r, k));
    }
    buffer
}

/// One phase of the program.
pub enum Level {
    /// The title screen.
    Welcome,
    /// The dungeon the player walks.
    Dungeon(DungeonLevel),
    /// The goodbye screen.
    Farewell,
}

/// Number of levels; indices at or beyond it name no level.
pub const LEVEL_COUNT: usize = 3;

impl Level {
    pub open spec fn wf(&self) -> bool {
        match self {
            Level::Dungeon(d) => d.wf(),
            _ => true,
        }
    }

    /// `self` is the level that index `index` starts, for a screen of the given size.
    pub open spec fn is_initial_for(&self, index: int, width: usize, height: usize) -> bool {
        match self {
            Level::Welcome => index == 0,
            Level::Dungeon(d) => index == 1 && d.is_initial(1, width, height),
            Level::Farewell => index == 2,
        }
    }

    /// Cell `(row, col)` of this level's `width * height` frame.
    pub open spec fn screen_cell(&self, width: int, height: int, row: int, col: int) -> Cell {
        match self {
            Level::Welcome => text_screen_cell(
                width,
                height,
                "10K Types of Oatmeal"@,
                "('n' for next, 'q' to quit)"@,
                row,
                col,
            ),
            Level::Dungeon(d) => d.screen_cell(width, height, row, col),
            Level::Farewell => text_screen_cell(
                width,
                height,
                "Goodbye!"@,
                "(Press any key to quit)"@,
                row,
                col,
            ),
        }
    }

    /// `post` and `r` are what this level does with `key`: the welcome screen goes on with
    /// `n` and quits with `q`, the dungeon walks or looks, the farewell screen quits on any key.
    pub open spec fn executes(pre: Level, key: Key, post: Level, r: CommandResult) -> bool {
        match pre {
            Level::Welcome => post == pre && r == match key {
                Key::Char('n') => CommandResult::Next(1),
                Key::Char('q') => CommandResult::Quit,
                _ => CommandResult::Ignored,
            },
            Level::Dungeon(d) => match post {
                Level::Dungeon(d2) => DungeonLevel::executes(d, key, d2, r),
                _ => false,
            },
            Level::Farewell => post == pre && r == CommandResult::Quit,
        }
    }

    /// This level's frame for a `width * height` screen.
    pub fn get_buffer(&self, width: usize, height: usize) -> (b: Buffer)
        requires
            self.wf(),
            width * height <= usize::MAX,
        ensures
            b.wf(),
            b.spec_width() == width,
            b.spec_height() == height,
            forall|r: int, k: int| #[trigger]
                b.in_bounds(r, k) ==> b.cell_at(r, k) == self.screen_cell(
                    width as int,
                    height as int,
                    r,
                    k,
                ),
    {
        match self {
            Level::Welcome => text_screen(
                width,
                height,
                "10K Types of Oatmeal",
                "('n' for next, 'q' to quit)",
            ),
            Level::Dungeon(d) => d.get_buffer(width, height),
            Level::Farewell => text_screen(width, height, "Goodbye!", "(Press any key to quit)"),
        }
    }

    /// Handles one key.
    pub fn execute(&mut self, command: Key) -> (r: CommandResult)
        requires
            old(self).wf(),
        ensures
            final(self).wf(),
            Self::executes(*old(self), command, *final(self), r),
    {
        match self {
            Level::Welcome => match command {
                Key::Char('n') => CommandResult::Next(1),
                Key::Char('q') => CommandResult::Quit,
                _ => CommandResult::Ignored,
            },
            Level::Dungeon(d) => d.execute(command),
            Level::Farewell => CommandResult::Quit,
        }
    }
}

/// What the driver does after a key was handled.
#[derive(Clone, Copy, Debug, PartialEq, Eq, Structural)]
pub enum Outcome {
    /// Draw the current level again, then read the next key.
    Redraw,
    /// Read the next key without drawing.
    Wait,
    /// The run is over.
    Finished,
}

/// The sequence of levels on a screen of a fixed size.
pub struct Game {
    pub screen_width: usize,
    pub screen_height: usize,
    pub level_index: usize,
    pub level: Level,
}

impl Game {
    pub open spec fn wf(&self) -> bool {
        self.level.wf()
    }

    /// The level that index `level` starts, if there is one.
    pub fn next_level(&self, level: usize) -> (r: Option<Level>)
        ensures
            level < LEVEL_COUNT ==> (r matches Some(l) && l.wf() && l.is_initial_for(
                level as int,
                self.screen_width,
                self.screen_height,
            )),
            level >= LEVEL_COUNT ==> r is None,
    {
        match level {
            0 => Some(Level::Welcome),
            1 => Some(
                Level::Dungeon(DungeonLevel::new(level, self.screen_width, self.screen_height)),
            ),
            2 => Some(Level::Farewell),
            _ => None,
        }
    }

    /// Acts on what the current level reported: a handled key redraws, an ignored one waits
    /// for the next, `Next(n)` enters the level that index `n` starts (the run ends where
    /// there is none), and `Quit` ends the run.
    pub fn apply_result(&mut self, result: CommandResult) -> (o: Outcome)
        requires
            old(self).wf(),
        ensures
            final(self).wf(),
            final(self).screen_width == old(self).screen_width,
            final(self).screen_height == old(self).screen_height,
            match result {
                CommandResult::Handled => o == Outcome::Redraw && *final(self) == *old(self),
                CommandResult::Ignored => o == Outcome::Wait && *final(self) == *old(self),
                CommandResult::Quit => o == Outcome::Finished && *final(self) == *old(self),
                CommandResult::Next(n) => if n < LEVEL_COUNT {
                    &&& o == Outcome::Redraw
                    &&& final(self).level_index == n
                    &&& final(self).level.is_initial_for(
                        n as int,
                        old(self).screen_width,
                        old(self).screen_height,
                    )
                } else {
                    o == Outcome::Finished && *final(self) == *old(self)
                },
            },
    {
        match result {
            CommandResult::Handled => Outcome::Redraw,
            CommandResult::Ignored => Outcome::Wait,
            CommandResult::Quit => Outcome::Finished,
            CommandResult::Next(n) => match self.next_level(n) {
                Some(level) => {
                    self.level_index = n;
                    self.level = level;
                    Outcome::Redraw
                },
                None => Outcome::Finished,
            },
        }
    }

    /// Hands `key` to the current level and acts on its report.
    pub fn handle_key(&mut self, key: Key) -> (o: Outcome)
        requires
            old(self).wf(),
        ensures
            final(self).wf(),
            final(self).screen_width == old(self).screen_width,
            final(self).screen_height == old(self).screen_height,
            exists|r: CommandResult, mid: Level|
                {
                    &&& Level::executes(old(self).level, key, mid, r)
                    &&& mid.wf()
                    &&& match r {
                        CommandResult::Handled => o == Outcome::Redraw && final(self).level == mid
                            && final(self).level_index == old(self).level_index,
                        CommandResult::Ignored => o == Outcome::Wait && final(self).level == mid
                            && final(self).level_index == old(self).level_index,
                        CommandResult::Quit => o == Outcome::Finished,
                        CommandResult::Next(n) => if n < LEVEL_COUNT {
                            &&& o == Outcome::Redraw
                            &&& final(self).level_index == n
                            &&& final(self).level.is_initial_for(
                                n as int,
                                old(self).screen_width,
                                old(self).screen_height,
                            )
                        } else {
                            o == Outcome::Finished
                        },
                    }
                },
    {
        let r = self.level.execute(key);
        let ghost mid = self.level;
        let o = self.apply_result(r);
        assert(Level::executes(old(self).level, key, mid, r));
        o
    }

    /// The current level's frame for the screen.
    pub fn get_buffer(&self) -> (b: Buffer)
        requires
            self.wf(),
            self.screen_width * self.screen_height <= usize::MAX,
        ensures
            b.wf(),
            b.spec_width() == self.screen_width,
            b.spec_height() == self.screen_height,
            forall|r: int, k: int| #[trigger]
                b.in_bounds(r, k) ==> b.cell_at(r, k) == self.level.screen_cell(
                    self.screen_width as int,
                    self.screen_height as int,
                    r,
                    k,
                ),
    {
        self.level.get_buffer(self.screen_width, self.screen_height)
    }
}

/// A run that starts on the welcome screen.
pub fn new_game(width: usize, height: usize) -> (g: Game)
    ensures
        g.wf(),
        g.screen_width == width,
        g.screen_height == height,
        g.level_index == 0,
        g.level is Welcome,
{
    Game { screen_width: width, screen_height: height, level_index: 0, level: Level::Welcome }
}

} // verus!
