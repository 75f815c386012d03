use vstd::prelude::*;
use vstd::string::*;

use crate::map::{new_builder, TileGrid, EMPTY, HERO, WALL};
use crate::ui::{blank_cell, new_buffer, Buffer, Cell, Color, Key};

verus! {

/// What a level reports after handling one key.
#[derive(Clone, Copy, Debug, PartialEq, Eq, Structural)]
pub enum CommandResult {
    /// The key was handled; the screen should be drawn again.
    Handled,
    /// The key means nothing here.
    Ignored,
    /// Go to the level with this index.
    Next(usize),
    /// End the run.
    Quit,
}

/// What a tile index stands for.
#[derive(Clone, Copy)]
pub struct Entity {
    pub name: &'static str,
    pub symbol: char,
    pub color: Color,
    pub blocks: bool,
}

/// The catalog holds exactly the three canonical entries, indexed by their tile index.
pub open spec fn catalog_ok(entities: Seq<Entity>) -> bool {
    &&& entities.len() == 3
    &&& entities[EMPTY as int].name@ == "An Empty Space"@
    &&& entities[EMPTY as int].symbol == ' '
    &&& entities[EMPTY as int].color == Color::Black
    &&& !entities[EMPTY as int].blocks
    &&& entities[HERO as int].name@ == "Our Hero"@
    &&& entities[HERO as int].symbol == '@'
    &&& entities[HERO as int].color == Color::Red
    &&& !entities[HERO as int].blocks
    &&& entities[WALL as int].name@ == "A Wall"@
    &&& entities[WALL as int].symbol == '#'
    &&& entities[WALL as int].color == Color::White
    &&& entities[WALL as int].blocks
}

/// The entity catalog: empty floor, the hero and walls, at their tile indices.
pub fn make_entities() -> (entities: Vec<Entity>)
    ensures
        catalog_ok(entities@),
{
    let mut entities: Vec<Entity> = Vec::new();
    entities.push(Entity { name: "An Empty Space", symbol: ' ', color: Color::Black, blocks: false });
    entities.push(Entity { name: "Our Hero", symbol: '@', color: Color::Red, blocks: false });
    entities.push(Entity { name: "A Wall", symbol: '#', color: Color::White, blocks: true });
    entities
}

/// The cell an arrow key points at from `(row, col)`; `None` for any other key.
pub open spec fn arrow_target(row: int, col: int, key: Key) -> Option<(int, int)> {
    match key {
        Key::Right => Some((row, col + 1)),
        Key::Left => Some((row, col - 1)),
        Key::Down => Some((row + 1, col)),
        Key::Up => Some((row - 1, col)),
        _ => None,
    }
}

/// The camera offset along one axis after the player reached `pos` by a step forward
/// (`forward`) or backward: it follows by one cell once the player passes the inner margin.
pub open spec fn follow(frame: int, pos: int, dim: int, forward: bool) -> int {
    if forward {
        if pos + 2 > dim + frame {
            frame + 1
        } else {
            frame
        }
    } else {
        if frame > 0 && pos < frame + 1 {
            frame - 1
        } else {
            frame
        }
    }
}

/// Side of the square dungeon grid.
pub const DUNGEON_SIZE: usize = 1000;

/// Cells of the dungeon that the carving of rooms (`rooms` bands of rows fully, plus the first
/// `cols` rooms of the next band) and of corridors (the first `corridors` of each direction)
/// has emptied. Rooms are the 8 by 8 interiors of a lattice of 10 by 10 cells; corridors run
/// through the middle of each band from cell 2 to cell 901.
pub open spec fn carved_upto(rooms: int, cols: int, corridors: int, row: int, col: int) -> bool {
    ||| (1 <= row % 10 <= 8 && 1 <= col % 10 <= 8 && (row / 10 < rooms || (row / 10 == rooms
        && col / 10 < cols)))
    ||| (row % 10 == 5 && 2 <= col < 902 && row / 10 < corridors)
    ||| (col % 10 == 5 && 2 <= row < 902 && col / 10 < corridors)
}

/// The tile of the fresh dungeon at `(row, col)`: the hero at `(1, 1)`, rooms and corridors
/// empty, walls elsewhere.
pub open spec fn dungeon_tile(row: int, col: int) -> usize {
    if row == 1 && col == 1 {
        HERO
    } else if carved_upto(100, 0, 100, row, col) {
        EMPTY
    } else {
        WALL
    }
}

/// The level where the player walks the dungeon.
pub struct DungeonLevel {
    pub level_index: usize,
    pub entities: Vec<Entity>,
    pub current_map: TileGrid,
    pub frame_top: usize,
    pub frame_left: usize,
    pub buffer_width: usize,
    pub buffer_height: usize,
    pub player_col: usize,
    pub player_row: usize,
    pub looking: bool,
    pub look_row: usize,
    pub look_col: usize,
}

impl DungeonLevel {
    /// Every tile names a catalog entry, the player stands on the hero tile inside the grid,
    /// the camera is not past the player, and the look cursor is inside the grid.
    pub open spec fn wf(&self) -> bool {
        &&& catalog_ok(self.entities@)
        &&& self.current_map.wf()
        &&& forall|r: int, c: int| #[trigger]
            self.current_map.in_bounds(r, c) ==> self.current_map.tile(r, c) < self.entities@.len()
        &&& self.current_map.in_bounds(self.player_row as int, self.player_col as int)
        &&& self.current_map.tile(self.player_row as int, self.player_col as int) == HERO
        &&& self.frame_top <= self.player_row
        &&& self.frame_left <= self.player_col
        &&& self.looking ==> self.current_map.in_bounds(self.look_row as int, self.look_col as int)
        &&& self.level_index < usize::MAX
    }

    /// The entity on tile `(row, col)`.
    pub open spec fn entity_at(&self, row: int, col: int) -> Entity {
        self.entities@[self.current_map.tile(row, col) as int]
    }

    /// The player may step onto `(row, col)`: it lies in the grid and does not block.
    pub open spec fn can_enter(&self, row: int, col: int) -> bool {
        self.current_map.in_bounds(row, col) && !self.entity_at(row, col).blocks
    }

    /// The camera keeps the player at least one cell inside each edge of the viewport and off
    /// its last column and row, except against the top and left of the grid.
    pub open spec fn camera_follows(&self) -> bool {
        &&& self.frame_left <= self.player_col
        &&& self.player_col + 2 <= self.frame_left + self.buffer_width
        &&& self.frame_left > 0 ==> self.frame_left + 1 <= self.player_col
        &&& self.frame_top <= self.player_row
        &&& self.player_row + 2 <= self.frame_top + self.buffer_height
        &&& self.frame_top > 0 ==> self.frame_top + 1 <= self.player_row
    }

    /// `post` is `pre` with the player walked from its tile onto `(row, col)` by `key`: the
    /// old tile is emptied, the new one holds the hero, and the camera follows.
    pub open spec fn walked(pre: DungeonLevel, key: Key, row: int, col: int, post: DungeonLevel) -> bool {
        &&& post.level_index == pre.level_index
        &&& post.entities@ == pre.entities@
        &&& post.current_map.wf()
        &&& post.current_map.width == pre.current_map.width
        &&& post.current_map.height == pre.current_map.height
        &&& forall|r: int, c: int| #[trigger]
            post.current_map.in_bounds(r, c) ==> post.current_map.tile(r, c) == if r == row && c
                == col {
                HERO
            } else if r == pre.player_row && c == pre.player_col {
                EMPTY
            } else {
                pre.current_map.tile(r, c)
            }
        &&& post.player_row == row
        &&& post.player_col == col
        &&& post.frame_left == match key {
            Key::Right => follow(pre.frame_left as int, col, pre.buffer_width as int, true),
            Key::Left => follow(pre.frame_left as int, col, pre.buffer_width as int, false),
            _ => pre.frame_left as int,
        }
        &&& post.frame_top == match key {
            Key::Down => follow(pre.frame_top as int, row, pre.buffer_height as int, true),
            Key::Up => follow(pre.frame_top as int, row, pre.buffer_height as int, false),
            _ => pre.frame_top as int,
        }
        &&& post.buffer_width == pre.buffer_width
        &&& post.buffer_height == pre.buffer_height
        &&& post.looking == pre.looking
        &&& post.look_row == pre.look_row
        &&& post.look_col == pre.look_col
    }

    /// One key in move mode: escape or `q` leaves for the next level, `l` starts looking at
    /// the player's tile, an arrow walks the player where it can enter (and is absorbed
    /// where it cannot), anything else is ignored.
    pub open spec fn move_step(pre: DungeonLevel, key: Key, post: DungeonLevel, r: CommandResult) -> bool {
        match key {
            Key::Esc | Key::Char('q') => r == CommandResult::Next((pre.level_index + 1) as usize)
                && post == pre,
            Key::Char('l') => r == CommandResult::Handled && post == (DungeonLevel {
                looking: true,
                look_row: pre.player_row,
                look_col: pre.player_col,
                ..pre
            }),
            _ => match arrow_target(pre.player_row as int, pre.player_col as int, key) {
                Some((row, col)) => r == CommandResult::Handled && if pre.can_enter(row, col) {
                    Self::walked(pre, key, row, col, post)
                } else {
                    post == pre
                },
                None => r == CommandResult::Ignored && post == pre,
            },
        }
    }

    /// One key in look mode: `l` or escape stops looking, an arrow moves the cursor by one
    /// cell unless that leaves the grid, anything else is ignored.
    pub open spec fn look_step(pre: DungeonLevel, key: Key, post: DungeonLevel, r: CommandResult) -> bool {
        match key {
            Key::Esc | Key::Char('l') => r == CommandResult::Handled && post == (DungeonLevel {
                looking: false,
                ..pre
            }),
            _ => match arrow_target(pre.look_row as int, pre.look_col as int, key) {
                Some((row, col)) => r == CommandResult::Handled && if pre.current_map.in_bounds(
                    row,
                    col,
                ) {
                    post == (DungeonLevel { look_row: row as usize, look_col: col as usize, ..pre })
                } else {
                    post == pre
                },
                None => r == CommandResult::Ignored && post == pre,
            },
        }
    }

    /// One key handled by the dungeon, in look mode or in move mode.
    pub open spec fn executes(pre: DungeonLevel, key: Key, post: DungeonLevel, r: CommandResult) -> bool {
        if pre.looking {
            Self::look_step(pre, key, post, r)
        } else {
            Self::move_step(pre, key, post, r)
        }
    }

    /// The dungeon as it is entered: the fresh layout, the player at `(1, 1)`, the camera at
    /// the origin, not looking.
    pub open spec fn is_initial(&self, level: usize, buffer_width: usize, buffer_height: usize) -> bool {
        &&& self.wf()
        &&& self.level_index == level
        &&& self.buffer_width == buffer_width
        &&& self.buffer_height == buffer_height
        &&& self.current_map.width == DUNGEON_SIZE
        &&& self.current_map.height == DUNGEON_SIZE
        &&& forall|r: int, c: int| #[trigger]
            self.current_map.in_bounds(r, c) ==> self.current_map.tile(r, c) == dungeon_tile(r, c)
        &&& self.frame_top == 0
        &&& self.frame_left == 0
        &&& self.player_row == 1
        &&& self.player_col == 1
        &&& !self.looking
        &&& self.look_row == 0
        &&& self.look_col == 0
    }

    /// A fresh dungeon for level `level`, drawn in a viewport of the given size.
    #[verifier::rlimit(50)]
    pub fn new(level: usize, buffer_width: usize, buffer_height: usize) -> (d: DungeonLevel)
        requires
            level < usize::MAX,
        ensures
            d.is_initial(level, buffer_width, buffer_height),
    {
        let mut map_builder = new_builder(DUNGEON_SIZE, DUNGEON_SIZE, WALL);
        let mut y: usize = 0;
        while y < 100
            invariant
                y <= 100,
                map_builder.wf(),
                map_builder.grid().width == DUNGEON_SIZE,
                map_builder.grid().height == DUNGEON_SIZE,
                forall|r: int, c: int| #[trigger]
                    map_builder.grid().in_bounds(r, c) ==> map_builder.grid().tile(r, c) == if carved_upto(
                        y as int,
                        0,
                        y as int,
                        r,
                        c,
                    ) {
                        EMPTY
                    } else {
                        WALL
                    },
            decreases 100 - y,
        {
            let mut x: usize = 0;
            while x < 100
                invariant
                    y < 100,
                    x <= 100,
                    map_builder.wf(),
                    map_builder.grid().width == DUNGEON_SIZE,
                    map_builder.grid().height == DUNGEON_SIZE,
                    forall|r: int, c: int| #[trigger]
                        map_builder.grid().in_bounds(r, c) ==> map_builder.grid().tile(r, c)
                            == if carved_upto(y as int, x as int, y as int, r, c) {
                            EMPTY
                        } else {
                            WALL
                        },
                decreases 100 - x,
            {
                let ghost prev = map_builder.grid();
                map_builder.carve_out_rect(x * 10 + 1, y * 10 + 1, 8, 8);
                assert forall|r: int, c: int| #[trigger]
                    map_builder.grid().in_bounds(r, c) implies map_builder.grid().tile(r, c) == if carved_upto(
                    y as int,
                    x + 1,
                    y as int,
                    r,
                    c,
                ) {
                    EMPTY
                } else {
                    WALL
                } by {
                    assert(prev.in_bounds(r, c));
                }
                x = x + 1;
            }
            let ghost prev = map_builder.grid();
            map_builder.carve_out_line(2, y * 10 + 5, false, 900);
            let ghost mid = map_builder.grid();
            map_builder.carve_out_line(y * 10 + 5, 2, true, 900);
            assert forall|r: int, c: int| #[trigger]
                map_builder.grid().in_bounds(r, c) implies map_builder.grid().tile(r, c) == if carved_upto(
                y + 1,
                0,
                y + 1,
                r,
                c,
            ) {
                EMPTY
            } else {
                WALL
            } by {
                assert(prev.in_bounds(r, c));
                assert(mid.in_bounds(r, c));
            }
            y = y + 1;
        }
        let mut map = map_builder.build();
        let ghost built = map;
        assert forall|r: int, c: int| #[trigger] built.in_bounds(r, c) implies built.tile(r, c)
            == if carved_upto(100, 0, 100, r, c) {
            EMPTY
        } else {
            WALL
        } by {
            assert(map_builder.grid().in_bounds(r, c));
        }
        map.set(1, 1, HERO);
        let entities = make_entities();
        let d = DungeonLevel {
            level_index: level,
            entities,
            current_map: map,
            frame_top: 0,
            frame_left: 0,
            buffer_width,
            buffer_height,
            player_col: 1,
            player_row: 1,
            looking: false,
            look_row: 0,
            look_col: 0,
        };
        assert forall|r: int, c: int| #[trigger] d.current_map.in_bounds(r, c) implies d.current_map.tile(r, c)
            == dungeon_tile(r, c) by {
            assert(built.in_bounds(r, c));
        }
        d
    }

    /// What the viewport shows of the map at screen cell `(row, col)`: the entity there in
    /// its color on black, or a blank cell beyond the grid.
    pub open spec fn map_cell(&self, row: int, col: int) -> Cell {
        let mr = row + self.frame_top;
        let mc = col + self.frame_left;
        if self.current_map.in_bounds(mr, mc) {
            Cell {
                symbol: self.entity_at(mr, mc).symbol,
                fg: self.entity_at(mr, mc).color,
                bg: Color::Black,
            }
        } else {
            blank_cell()
        }
    }

    /// The name banner of look mode fits on the last row of a `width * height` screen.
    pub open spec fn banner_fits(&self, width: int, height: int) -> bool {
        height >= 1 && self.entity_at(self.look_row as int, self.look_col as int).name@.len() + 1
            <= width
    }

    /// Screen cell `(row, col)` of a `width * height` frame: the map through the camera; in
    /// look mode the looked-at cell on yellow, and the looked-at entity's name black on yellow
    /// at the start of the last row, where it fits.
    pub open spec fn screen_cell(&self, width: int, height: int, row: int, col: int) -> Cell {
        let looked = self.entity_at(self.look_row as int, self.look_col as int);
        if self.looking && self.banner_fits(width, height) && row == height - 1 && col
            <= looked.name@.len() {
            Cell {
                symbol: if col < looked.name@.len() {
                    looked.name@[col]
                } else {
                    ' '
                },
                fg: Color::Black,
                bg: Color::Yellow,
            }
        } else if self.looking && row + self.frame_top == self.look_row && col + self.frame_left
            == self.look_col {
            Cell { symbol: looked.symbol, fg: looked.color, bg: Color::Yellow }
        } else {
            self.map_cell(row, col)
        }
    }

    /// The frame for a `width * height` screen.
    pub fn get_buffer(&self, width: usize, height: usize) -> (b: Buffer)
        requires
            self.wf(),
            width * height <= usize::MAX,
        ensures
            b.wf(),
            b.spec_width() == width,
            b.spec_height() == height,
            forall|r: int, k: int| #[trigger]
                b.in_bounds(r, k) ==> b.cell_at(r, k) == self.screen_cell(
                    width as int,
                    height as int,
                    r,
                    k,
                ),
    {
        let mut buffer = new_buffer(width, height);
        let rows_left: usize = self.current_map.height - self.frame_top;
        let cols_left: usize = self.current_map.width - self.frame_left;
        let mut row: usize = 0;
        while row < height
            invariant
                self.wf(),
                row <= height,
                rows_left == self.current_map.height - self.frame_top,
                cols_left == self.current_map.width - self.frame_left,
                buffer.wf(),
                buffer.spec_width() == width,
                buffer.spec_height() == height,
                forall|r: int, k: int| #[trigger]
                    buffer.in_bounds(r, k) ==> buffer.cell_at(r, k) == if r < row {
                        self.map_cell(r, k)
                    } else {
                        blank_cell()
                    },
            decreases height - row,
        {
            let mut col: usize = 0;
            while col < width
                invariant
                    self.wf(),
                    row < height,
                    col <= width,
                    rows_left == self.current_map.height - self.frame_top,
                    cols_left == self.current_map.width - self.frame_left,
                    buffer.wf(),
                    buffer.spec_width() == width,
                    buffer.spec_height() == height,
                    forall|r: int, k: int| #[trigger]
                        buffer.in_bounds(r, k) ==> buffer.cell_at(r, k) == if r < row || (r == row
                            && k < col) {
                            self.map_cell(r, k)
                        } else {
                            blank_cell()
                        },
                decreases width - col,
            {
                let ghost prev = buffer;
                if row < rows_left && col < cols_left {
                    let entity = self.lookup_entity(row + self.frame_top, col + self.frame_left);
                    buffer.print_symbol(row, col, entity.symbol, entity.color, Color::Black);
                } else {
                    buffer.print_symbol(row, col, ' ', Color::Black, Color::Black);
                }
                assert forall|r: int, k: int| #[trigger]
                    buffer.in_bounds(r, k) implies buffer.cell_at(r, k) == if r < row || (r == row
                    && k < col + 1) {
                    self.map_cell(r, k)
                } else {
                    blank_cell()
                } by {
                    assert(prev.in_bounds(r, k));
                }
                col = col + 1;
            }
            row = row + 1;
        }
        if self.looking {
            let entity = self.lookup_entity(self.look_row, self.look_col);
            let ghost prev = buffer;
            if self.look_row >= self.frame_top && self.look_row - self.frame_top < height
                && self.look_col >= self.frame_left && self.look_col - self.frame_left < width {
                buffer.print_symbol(
                    self.look_row - self.frame_top,
                    self.look_col - self.frame_left,
                    entity.symbol,
                    entity.color,
                    Color::Yellow,
                );
            }
            let ghost mid = buffer;
            assert forall|r: int, k: int| #[trigger]
                mid.in_bounds(r, k) implies mid.cell_at(r, k) == if r + self.frame_top
                == self.look_row && k + self.frame_left == self.look_col {
                Cell { symbol: entity.symbol, fg: entity.color, bg: Color::Yellow }
            } else {
                self.map_cell(r, k)
            } by {
                assert(prev.in_bounds(r, k));
            }
            let n: usize = entity.name.unicode_len();
            if height >= 1 && n < width {
                buffer.print_lower_left(entity.name);
            }
            assert forall|r: int, k: int| #[trigger]
                buffer.in_bounds(r, k) implies buffer.cell_at(r, k) == self.screen_cell(
                width as int,
                height as int,
                r,
                k,
            ) by {
                assert(mid.in_bounds(r, k));
            }
        }
        buffer
    }

    /// The entity on tile `(row, col)`.
    pub fn lookup_entity(&self, row: usize, col: usize) -> (e: &Entity)
        requires
            self.wf(),
            self.current_map.in_bounds(row as int, col as int),
        ensures
            *e == self.entity_at(row as int, col as int),
    {
        let entity_index = self.current_map.get(row, col);
        &self.entities[entity_index]
    }

    /// Handles one key in move mode.
    pub fn move_player(&mut self, command: Key) -> (r: CommandResult)
        requires
            old(self).wf(),
            !old(self).looking,
        ensures
            final(self).wf(),
            Self::move_step(*old(self), command, *final(self), r),
    {
        match command {
            Key::Esc => CommandResult::Next(self.level_index + 1),
            Key::Char('q') => CommandResult::Next(self.level_index + 1),
            Key::Char('l') => {
                self.looking = true;
                self.look_row = self.player_row;
                self.look_col = self.player_col;
                CommandResult::Handled
            },
            Key::Right | Key::Left | Key::Down | Key::Up => {
                let ghost pre = *self;
                let row = self.player_row;
                let col = self.player_col;
                let (new_row, new_col, inside) = match command {
                    Key::Right => if col + 1 < self.current_map.width {
                        (row, col + 1, true)
                    } else {
                        (row, col, false)
                    },
                    Key::Left => if col > 0 {
                        (row, col - 1, true)
                    } else {
                        (row, col, false)
                    },
                    Key::Down => if row + 1 < self.current_map.height {
                        (row + 1, col, true)
                    } else {
                        (row, col, false)
                    },
                    _ => if row > 0 {
                        (row - 1, col, true)
                    } else {
                        (row, col, false)
                    },
                };
                if inside && !self.lookup_entity(new_row, new_col).blocks {
                    let ghost g0 = self.current_map;
                    self.current_map.set(row, col, EMPTY);
                    let ghost g1 = self.current_map;
                    self.current_map.set(new_row, new_col, HERO);
                    assert forall|r: int, c: int| #[trigger]
                        self.current_map.in_bounds(r, c) implies self.current_map.tile(r, c) == if r
                        == new_row && c == new_col {
                        HERO
                    } else if r == row && c == col {
                        EMPTY
                    } else {
                        g0.tile(r, c)
                    } by {
                        assert(g1.in_bounds(r, c));
                    }
                    match command {
                        Key::Right => {
                            if self.buffer_width == 0 || new_col - self.frame_left
                                >= self.buffer_width - 1 {
                                self.frame_left = self.frame_left + 1;
                            }
                        },
                        Key::Left => {
                            if self.frame_left > 0 && new_col <= self.frame_left {
                                self.frame_left = self.frame_left - 1;
                            }
                        },
                        Key::Down => {
                            if self.buffer_height == 0 || new_row - self.frame_top
                                >= self.buffer_height - 1 {
                                self.frame_top = self.frame_top + 1;
                            }
                        },
                        _ => {
                            if self.frame_top > 0 && new_row <= self.frame_top {
                                self.frame_top = self.frame_top - 1;
                            }
                        },
                    }
                    self.player_row = new_row;
                    self.player_col = new_col;
                    assert forall|r: int, c: int| #[trigger]
                        self.current_map.in_bounds(r, c) implies self.current_map.tile(r, c)
                        < self.entities@.len() by {
                        assert(g0.in_bounds(r, c));
                    }
                    assert(Self::walked(pre, command, new_row as int, new_col as int, *self));
                }
                CommandResult::Handled
            },
            _ => CommandResult::Ignored,
        }
    }

    /// Handles one key in look mode.
    pub fn look(&mut self, command: Key) -> (r: CommandResult)
        requires
            old(self).wf(),
            old(self).looking,
        ensures
            final(self).wf(),
            Self::look_step(*old(self), command, *final(self), r),
    {
        match command {
            Key::Char('l') | Key::Esc => {
                self.looking = false;
                CommandResult::Handled
            },
            Key::Left => {
                if self.look_col > 0 {
                    self.look_col = self.look_col - 1;
                }
                CommandResult::Handled
            },
            Key::Right => {
                if self.look_col + 1 < self.current_map.width {
                    self.look_col = self.look_col + 1;
                }
                CommandResult::Handled
            },
            Key::Up => {
                if self.look_row > 0 {
                    self.look_row = self.look_row - 1;
                }
                CommandResult::Handled
            },
            Key::Down => {
                if self.look_row + 1 < self.current_map.height {
                    self.look_row = self.look_row + 1;
                }
                CommandResult::Handled
            },
            _ => CommandResult::Ignored,
        }
    }

    /// Handles one key: in look mode the cursor moves, otherwise the player does.
    pub fn execute(&mut self, command: Key) -> (r: CommandResult)
        requires
            old(self).wf(),
        ensures
            final(self).wf(),
            Self::executes(*old(self), command, *final(self), r),
    {
        if self.looking {
            self.look(command)
        } else {
            self.move_player(command)
        }
    }
}

/// `states[i + 1]` and `results[i]` come from handling `keys[i]` in `states[i]`, for each key.
pub open spec fn is_run(states: Seq<DungeonLevel>, keys: Seq<Key>, results: Seq<CommandResult>) -> bool {
    &&& states.len() == keys.len() + 1
    &&& results.len() == keys.len()
    &&& forall|i: int|
        0 <= i < keys.len() ==> #[trigger] DungeonLevel::executes(
            states[i],
            keys[i],
            states[i + 1],
            results[i],
        )
}

/// One handled key keeps a well-formed dungeon well formed, so the player stands on a tile
/// that does not block.
pub proof fn lemma_step_keeps_player_on_open_tile(
    pre: DungeonLevel,
    key: Key,
    post: DungeonLevel,
    r: CommandResult,
)
    requires
        pre.wf(),
        DungeonLevel::executes(pre, key, post, r),
    ensures
        post.wf(),
        !post.entity_at(post.player_row as int, post.player_col as int).blocks,
{
    if !pre.looking {
        if let Some((row, col)) = arrow_target(pre.player_row as int, pre.player_col as int, key) {
            if pre.can_enter(row, col) {
                assert(post.current_map.in_bounds(row, col));
                assert(post.current_map.tile(row, col) == HERO);
                assert forall|r: int, c: int| #[trigger]
                    post.current_map.in_bounds(r, c) implies post.current_map.tile(r, c)
                    < post.entities@.len() by {
                    assert(pre.current_map.in_bounds(r, c));
                }
                assert(post.wf());
            } else {
                assert(post == pre);
            }
        } else {
            assert(post.wf());
        }
    } else {
        if let Some((row, col)) = arrow_target(pre.look_row as int, pre.look_col as int, key) {
            assert(post.wf());
        } else {
            assert(post.wf());
        }
    }
}

/// One handled key keeps the camera following the player in a viewport of at least three
/// cells each way.
pub proof fn lemma_step_keeps_camera_following(
    pre: DungeonLevel,
    key: Key,
    post: DungeonLevel,
    r: CommandResult,
)
    requires
        pre.wf(),
        pre.camera_follows(),
        pre.buffer_width >= 3,
        pre.buffer_height >= 3,
        DungeonLevel::executes(pre, key, post, r),
    ensures
        post.camera_follows(),
{
}

/// What holds of every state `s` of a run that started in `start`: it is well formed, the
/// player stands on a tile that does not block, the viewport keeps its size, and with a
/// viewport of at least three cells each way the camera follows the player.
pub open spec fn run_state_ok(start: DungeonLevel, s: DungeonLevel) -> bool {
    &&& s.wf()
    &&& !s.entity_at(s.player_row as int, s.player_col as int).blocks
    &&& s.buffer_width == start.buffer_width
    &&& s.buffer_height == start.buffer_height
    &&& start.buffer_width >= 3 && start.buffer_height >= 3 ==> s.camera_follows()
}

/// In every state that a run from a freshly entered dungeon reaches, the player stands on a
/// tile that does not block and, with a viewport of at least three cells each way, the camera
/// keeps the player inside its margins except against the top and left of the grid.
pub proof fn lemma_run_invariants(
    states: Seq<DungeonLevel>,
    keys: Seq<Key>,
    results: Seq<CommandResult>,
    level: usize,
)
    requires
        is_run(states, keys, results),
        states[0].is_initial(level, states[0].buffer_width, states[0].buffer_height),
    ensures
        forall|i: int| 0 <= i < states.len() ==> run_state_ok(states[0], #[trigger] states[i]),
{
    assert forall|i: int| 0 <= i < states.len() implies run_state_ok(
        states[0],
        #[trigger] states[i],
    ) by {
        lemma_run_prefix(states, keys, results, level, i);
    }
}

proof fn lemma_run_prefix(
    states: Seq<DungeonLevel>,
    keys: Seq<Key>,
    results: Seq<CommandResult>,
    level: usize,
    i: int,
)
    requires
        is_run(states, keys, results),
        states[0].is_initial(level, states[0].buffer_width, states[0].buffer_height),
        0 <= i < states.len(),
    ensures
        run_state_ok(states[0], states[i]),
    decreases i,
{
    if i > 0 {
        lemma_run_prefix(states, keys, results, level, i - 1);
        let j = i - 1;
        assert(DungeonLevel::executes(states[j], keys[j], states[j + 1], results[j]));
        lemma_step_keeps_player_on_open_tile(states[i - 1], keys[i - 1], states[i], results[i - 1]);
        if states[0].buffer_width >= 3 && states[0].buffer_height >= 3 {
            lemma_step_keeps_camera_following(
                states[i - 1],
                keys[i - 1],
                states[i],
                results[i - 1],
            );
        }
    }
}

/// An arrow key in move mode towards a cell the player cannot enter changes nothing, and is
/// still reported as handled rather than ignored.
pub proof fn lemma_blocked_move_absorbed(
    pre: DungeonLevel,
    key: Key,
    post: DungeonLevel,
    r: CommandResult,
)
    requires
        pre.wf(),
        !pre.looking,
        arrow_target(pre.player_row as int, pre.player_col as int, key) matches Some((row, col))
            && !pre.can_enter(row, col),
        DungeonLevel::executes(pre, key, post, r),
    ensures
        post == pre,
        r == CommandResult::Handled,
{
}

/// Every tile of a well-formed dungeon names a catalog entry, and that entry blocks exactly
/// when the tile is a wall, which is when the player cannot step onto it.
pub proof fn lemma_catalog_round_trip(d: DungeonLevel, row: int, col: int)
    requires
        d.wf(),
        d.current_map.in_bounds(row, col),
    ensures
        d.current_map.tile(row, col) < d.entities@.len(),
        d.entity_at(row, col).blocks <==> d.current_map.tile(row, col) == WALL,
        d.can_enter(row, col) <==> d.current_map.tile(row, col) != WALL,
{
}

} // verus!
