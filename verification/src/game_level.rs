//! A Breakout level: its bricks, built from the tile codes of a level file.

use vstd::prelude::*;
use crate::level_format::{parse_tile_data, row_numbers};
use crate::resource_manager::{get_texture, ResourceManager};
use crate::texture::Texture2D;

verus! {

/// One brick of a level.
#[derive(Clone, Copy, PartialEq, Eq, Structural, Debug)]
pub struct Brick {
    /// Column of the brick's tile.
    pub col: usize,
    /// Row of the brick's tile.
    pub row: usize,
    /// The tile code: 1 for a solid brick, 2 and up for a breakable brick whose colour it selects.
    pub code: u32,
    /// Solid bricks cannot be destroyed.
    pub is_solid: bool,
    pub destroyed: bool,
    /// The texture the brick is drawn with.
    pub sprite: Texture2D,
}

/// Texture name of solid bricks.
pub open spec fn solid_block_name() -> Seq<char> {
    "block_solid"@
}

/// Texture name of breakable bricks.
pub open spec fn block_name() -> Seq<char> {
    "block"@
}

/// The brick (if any) that tile `code` at (`col`, `row`) yields.
pub open spec fn tile_brick(col: nat, row: nat, code: u32, solid: Texture2D, block: Texture2D) -> Option<Brick> {
    if code == 1 {
        Some(Brick { col: col as usize, row: row as usize, code, is_solid: true, destroyed: false, sprite: solid })
    } else if code > 1 {
        Some(Brick { col: col as usize, row: row as usize, code, is_solid: false, destroyed: false, sprite: block })
    } else {
        None
    }
}

/// The bricks of the first `upto` tiles of row `row`, left to right.
pub open spec fn row_bricks(codes: Seq<u32>, row: nat, upto: nat, solid: Texture2D, block: Texture2D) -> Seq<Brick>
    decreases upto,
{
    if upto == 0 {
        Seq::empty()
    } else {
        let prev = row_bricks(codes, row, (upto - 1) as nat, solid, block);
        match tile_brick((upto - 1) as nat, row, codes[upto - 1], solid, block) {
            Some(b) => prev.push(b),
            None => prev,
        }
    }
}

/// The bricks of the first `upto` rows, `width` tiles each, in row-major order.
pub open spec fn level_bricks(tiles: Seq<Seq<u32>>, width: nat, upto: nat, solid: Texture2D, block: Texture2D) -> Seq<Brick>
    decreases upto,
{
    if upto == 0 {
        Seq::empty()
    } else {
        level_bricks(tiles, width, (upto - 1) as nat, solid, block) + row_bricks(
            tiles[upto - 1],
            (upto - 1) as nat,
            width,
            solid,
            block,
        )
    }
}

/// The brick stands on tile (`col`, `row`) of its grid and was built from that tile's code.
pub open spec fn built_from_tile(b: Brick, tiles: Seq<Seq<u32>>, width: nat, rows: nat, solid: Texture2D, block: Texture2D) -> bool {
    &&& (b.row as int) < rows
    &&& (b.col as int) < width
    &&& tiles[b.row as int][b.col as int] == b.code
    &&& b.code >= 1
    &&& b.is_solid == (b.code == 1)
    &&& !b.destroyed
    &&& b.sprite == if b.is_solid { solid } else { block }
}

proof fn lemma_row_bricks_shape(codes: Seq<u32>, tiles: Seq<Seq<u32>>, row: nat, upto: nat, width: nat, rows: nat, solid: Texture2D, block: Texture2D)
    requires
        upto <= width,
        row < rows,
        row < tiles.len(),
        tiles[row as int] == codes,
        codes.len() >= width,
        width <= usize::MAX,
        rows <= usize::MAX,
    ensures
        forall|i: int| 0 <= i < row_bricks(codes, row, upto, solid, block).len() ==> built_from_tile(
            #[trigger] row_bricks(codes, row, upto, solid, block)[i],
            tiles,
            width,
            rows,
            solid,
            block,
        ),
    decreases upto,
{
    if upto > 0 {
        let prev = row_bricks(codes, row, (upto - 1) as nat, solid, block);
        lemma_row_bricks_shape(codes, tiles, row, (upto - 1) as nat, width, rows, solid, block);
        match tile_brick((upto - 1) as nat, row, codes[upto - 1], solid, block) {
            Some(b) => {
                assert forall|i: int| 0 <= i < prev.push(b).len() implies built_from_tile(
                    #[trigger] prev.push(b)[i],
                    tiles,
                    width,
                    rows,
                    solid,
                    block,
                ) by {
                    if i < prev.len() {
                        assert(prev.push(b)[i] == prev[i]);
                    }
                }
            },
            None => {},
        }
    }
}

/// Every brick built from the first `upto` rows stands on a tile of the grid and carries its
/// code, is intact, is solid exactly for code 1, and is drawn with the matching texture.
pub proof fn lemma_level_bricks_shape(tiles: Seq<Seq<u32>>, width: nat, upto: nat, solid: Texture2D, block: Texture2D)
    requires
        upto <= tiles.len(),
        rows_cover(tiles, width),
        width <= usize::MAX,
        tiles.len() <= usize::MAX,
    ensures
        forall|i: int| 0 <= i < level_bricks(tiles, width, upto, solid, block).len() ==> built_from_tile(
            #[trigger] level_bricks(tiles, width, upto, solid, block)[i],
            tiles,
            width,
            tiles.len(),
            solid,
            block,
        ),
    decreases upto,
{
    if upto > 0 {
        let prev = level_bricks(tiles, width, (upto - 1) as nat, solid, block);
        let row = row_bricks(tiles[upto - 1], (upto - 1) as nat, width, solid, block);
        lemma_level_bricks_shape(tiles, width, (upto - 1) as nat, solid, block);
        lemma_row_bricks_shape(tiles[upto - 1], tiles, (upto - 1) as nat, width, width, tiles.len(), solid, block);
        assert forall|i: int| 0 <= i < (prev + row).len() implies built_from_tile(
            #[trigger] (prev + row)[i],
            tiles,
            width,
            tiles.len(),
            solid,
            block,
        ) by {
            if i < prev.len() {
                assert((prev + row)[i] == prev[i]);
            } else {
                assert((prev + row)[i] == row[i - prev.len()]);
            }
        }
    }
}

proof fn lemma_row_bricks_complete(codes: Seq<u32>, row: nat, upto: nat, solid: Texture2D, block: Texture2D, x: int)
    requires
        0 <= x < upto,
        upto <= codes.len(),
        upto <= usize::MAX,
        row <= usize::MAX,
        codes[x] >= 1,
    ensures
        exists|i: int|
            0 <= i < row_bricks(codes, row, upto, solid, block).len() && #[trigger] row_bricks(
                codes,
                row,
                upto,
                solid,
                block,
            )[i].col == x && row_bricks(codes, row, upto, solid, block)[i].row == row && row_bricks(
                codes,
                row,
                upto,
                solid,
                block,
            )[i].code == codes[x],
    decreases upto,
{
    let prev = row_bricks(codes, row, (upto - 1) as nat, solid, block);
    let cur = row_bricks(codes, row, upto, solid, block);
    if x < upto - 1 {
        lemma_row_bricks_complete(codes, row, (upto - 1) as nat, solid, block, x);
        let i = choose|i: int|
            0 <= i < prev.len() && #[trigger] prev[i].col == x && prev[i].row == row && prev[i].code == codes[x];
        match tile_brick((upto - 1) as nat, row, codes[upto - 1], solid, block) {
            Some(b) => {
                assert(cur == prev.push(b));
                assert(cur[i] == prev[i]);
            },
            None => {
                assert(cur == prev);
            },
        }
        assert(cur[i].col == x);
    } else {
        let b = tile_brick((upto - 1) as nat, row, codes[upto - 1], solid, block)->0;
        assert(cur == prev.push(b));
        assert(cur[prev.len() as int] == b);
        assert(cur[prev.len() as int].col == x);
    }
}

proof fn lemma_level_bricks_complete(
    tiles: Seq<Seq<u32>>,
    width: nat,
    upto: nat,
    solid: Texture2D,
    block: Texture2D,
    y: int,
    x: int,
)
    requires
        0 <= y < upto,
        upto <= tiles.len(),
        0 <= x < width,
        rows_cover(tiles, width),
        tiles[y][x] >= 1,
        width <= usize::MAX,
        tiles.len() <= usize::MAX,
    ensures
        exists|i: int|
            0 <= i < level_bricks(tiles, width, upto, solid, block).len() && #[trigger] level_bricks(
                tiles,
                width,
                upto,
                solid,
                block,
            )[i].col == x && level_bricks(tiles, width, upto, solid, block)[i].row == y && level_bricks(
                tiles,
                width,
                upto,
                solid,
                block,
            )[i].code == tiles[y][x],
    decreases upto,
{
    let prev = level_bricks(tiles, width, (upto - 1) as nat, solid, block);
    let row = row_bricks(tiles[upto - 1], (upto - 1) as nat, width, solid, block);
    let cur = level_bricks(tiles, width, upto, solid, block);
    assert(cur == prev + row);
    if y < upto - 1 {
        lemma_level_bricks_complete(tiles, width, (upto - 1) as nat, solid, block, y, x);
        let i = choose|i: int|
            0 <= i < prev.len() && #[trigger] prev[i].col == x && prev[i].row == y && prev[i].code == tiles[y][x];
        assert(cur[i] == prev[i]);
        assert(cur[i].col == x);
    } else {
        assert(tiles[upto - 1].len() >= width);
        lemma_row_bricks_complete(tiles[upto - 1], (upto - 1) as nat, width, solid, block, x);
        let j = choose|j: int|
            0 <= j < row.len() && #[trigger] row[j].col == x && row[j].row == (upto - 1) as nat && row[j].code
                == tiles[upto - 1][x];
        assert(cur[prev.len() + j] == row[j]);
        assert(cur[prev.len() + j].col == x);
    }
}

/// Brick `a` comes before brick `b` in row-major order of their tiles.
pub open spec fn tile_before(a: Brick, b: Brick) -> bool {
    a.row < b.row || (a.row == b.row && a.col < b.col)
}

proof fn lemma_row_bricks_order(codes: Seq<u32>, row: nat, upto: nat, solid: Texture2D, block: Texture2D)
    requires
        upto <= codes.len(),
        upto <= usize::MAX,
        row <= usize::MAX,
    ensures
        forall|i: int|
            0 <= i < row_bricks(codes, row, upto, solid, block).len() ==> #[trigger] row_bricks(
                codes,
                row,
                upto,
                solid,
                block,
            )[i].row == row && row_bricks(codes, row, upto, solid, block)[i].col < upto,
        forall|i: int, j: int|
            0 <= i < j < row_bricks(codes, row, upto, solid, block).len() ==> tile_before(
                #[trigger] row_bricks(codes, row, upto, solid, block)[i],
                #[trigger] row_bricks(codes, row, upto, solid, block)[j],
            ),
    decreases upto,
{
    if upto > 0 {
        let prev = row_bricks(codes, row, (upto - 1) as nat, solid, block);
        lemma_row_bricks_order(codes, row, (upto - 1) as nat, solid, block);
        match tile_brick((upto - 1) as nat, row, codes[upto - 1], solid, block) {
            Some(b) => {
                let cur = prev.push(b);
                assert(b.col == upto - 1 && b.row == row);
                assert forall|i: int| 0 <= i < cur.len() implies #[trigger] cur[i].row == row && cur[i].col < upto by {
                    if i < prev.len() {
                        assert(cur[i] == prev[i]);
                    }
                }
                assert forall|i: int, j: int| 0 <= i < j < cur.len() implies tile_before(
                    #[trigger] cur[i],
                    #[trigger] cur[j],
                ) by {
                    assert(cur[i] == prev[i]);
                    if j < prev.len() {
                        assert(cur[j] == prev[j]);
                    }
                }
            },
            None => {},
        }
    }
}

/// The bricks are in strict row-major order of their tiles, so no tile yields two bricks.
pub proof fn lemma_level_bricks_order(tiles: Seq<Seq<u32>>, width: nat, upto: nat, solid: Texture2D, block: Texture2D)
    requires
        upto <= tiles.len(),
        rows_cover(tiles, width),
        width <= usize::MAX,
        tiles.len() <= usize::MAX,
    ensures
        forall|i: int|
            0 <= i < level_bricks(tiles, width, upto, solid, block).len() ==> #[trigger] level_bricks(
                tiles,
                width,
                upto,
                solid,
                block,
            )[i].row < upto,
        forall|i: int, j: int|
            0 <= i < j < level_bricks(tiles, width, upto, solid, block).len() ==> tile_before(
                #[trigger] level_bricks(tiles, width, upto, solid, block)[i],
                #[trigger] level_bricks(tiles, width, upto, solid, block)[j],
            ),
    decreases upto,
{
    if upto > 0 {
        let prev = level_bricks(tiles, width, (upto - 1) as nat, solid, block);
        let row = row_bricks(tiles[upto - 1], (upto - 1) as nat, width, solid, block);
        let cur = prev + row;
        assert(level_bricks(tiles, width, upto, solid, block) == cur);
        lemma_level_bricks_order(tiles, width, (upto - 1) as nat, solid, block);
        assert(tiles[upto - 1].len() >= width);
        lemma_row_bricks_order(tiles[upto - 1], (upto - 1) as nat, width, solid, block);
        assert forall|i: int| 0 <= i < cur.len() implies #[trigger] cur[i].row < upto by {
            if i < prev.len() {
                assert(cur[i] == prev[i]);
            } else {
                assert(cur[i] == row[i - prev.len()]);
            }
        }
        assert forall|i: int, j: int| 0 <= i < j < cur.len() implies tile_before(
            #[trigger] cur[i],
            #[trigger] cur[j],
        ) by {
            if j < prev.len() {
                assert(cur[i] == prev[i]);
                assert(cur[j] == prev[j]);
            } else if i < prev.len() {
                assert(cur[i] == prev[i]);
                assert(cur[j] == row[j - prev.len()]);
            } else {
                assert(cur[i] == row[i - prev.len()]);
                assert(cur[j] == row[j - prev.len()]);
            }
        }
    }
}

/// Loading loses no brick: every tile with a non-zero code, within the width of the first
/// row, yields a brick that stands on it and carries its code; and the bricks are in strict
/// row-major order, so each tile yields at most one.
pub proof fn lemma_load_complete(
    before: GameLevel,
    after: GameLevel,
    lines: Seq<String>,
    level_width: u32,
    level_height: u32,
    resources: ResourceManager,
    y: int,
    x: int,
)
    requires
        loaded(before, after, lines, level_width, level_height, resources),
        0 <= y < level_tiles(lines).len(),
        0 <= x < level_tiles(lines)[0].len(),
        rows_cover(level_tiles(lines), level_tiles(lines)[0].len()),
        level_tiles(lines)[y][x] >= 1,
        level_tiles(lines).len() <= usize::MAX,
        level_tiles(lines)[0].len() <= usize::MAX,
    ensures
        exists|i: int|
            0 <= i < after.bricks@.len() && #[trigger] after.bricks@[i].col == x && after.bricks@[i].row == y
                && after.bricks@[i].code == level_tiles(lines)[y][x],
        forall|i: int, j: int|
            0 <= i < j < after.bricks@.len() ==> tile_before(#[trigger] after.bricks@[i], #[trigger] after.bricks@[j]),
{
    let tiles = level_tiles(lines);
    lemma_level_bricks_order(
        tiles,
        tiles[0].len(),
        tiles.len(),
        resources.textures.map()[solid_block_name()],
        resources.textures.map()[block_name()],
    );
    lemma_level_bricks_complete(
        tiles,
        tiles[0].len(),
        tiles.len(),
        resources.textures.map()[solid_block_name()],
        resources.textures.map()[block_name()],
        y,
        x,
    );
}

/// Every row has at least `width` tiles.
pub open spec fn rows_cover(tiles: Seq<Seq<u32>>, width: nat) -> bool {
    forall|y: int| 0 <= y < tiles.len() ==> #[trigger] tiles[y].len() >= width
}

/// Some tile within the first `width` columns satisfies `pred`.
pub open spec fn some_tile(tiles: Seq<Seq<u32>>, width: nat, pred: spec_fn(u32) -> bool) -> bool {
    exists|y: int, x: int| 0 <= y < tiles.len() && 0 <= x < width && #[trigger] pred(tiles[y][x])
}

/// The tile codes of a level file given by its lines.
pub open spec fn level_tiles(lines: Seq<String>) -> Seq<Seq<u32>> {
    lines.map_values(|l: String| row_numbers(l@))
}

/// What building the bricks needs: every row reaches the width of the first row, and the
/// textures that the tiles use are loaded.
pub open spec fn can_build(tiles: Seq<Seq<u32>>, resources: ResourceManager) -> bool {
    tiles.len() > 0 ==> {
        let width = tiles[0].len();
        &&& rows_cover(tiles, width)
        &&& some_tile(tiles, width, |c: u32| c == 1) ==> resources.textures.map().contains_key(
            solid_block_name(),
        )
        &&& some_tile(tiles, width, |c: u32| c > 1) ==> resources.textures.map().contains_key(
            block_name(),
        )
    }
}

/// `after` is `before` with the level file whose lines are given loaded into an area of
/// `level_width` by `level_height`: the bricks of its tiles, or none for a file without lines.
pub open spec fn loaded(
    before: GameLevel,
    after: GameLevel,
    lines: Seq<String>,
    level_width: u32,
    level_height: u32,
    resources: ResourceManager,
) -> bool {
    let tiles = level_tiles(lines);
    if tiles.len() == 0 {
        &&& after.bricks@ == Seq::<Brick>::empty()
        &&& after.columns == before.columns
        &&& after.rows == before.rows
        &&& after.level_width == before.level_width
        &&& after.level_height == before.level_height
    } else {
        &&& after.bricks@ == level_bricks(
            tiles,
            tiles[0].len(),
            tiles.len(),
            resources.textures.map()[solid_block_name()],
            resources.textures.map()[block_name()],
        )
        &&& after.columns == tiles[0].len()
        &&& after.rows == tiles.len()
        &&& after.level_width == level_width
        &&& after.level_height == level_height
    }
}

/// GameLevel holds the bricks of a Breakout level and the area they fill.
pub struct GameLevel {
    pub bricks: Vec<Brick>,
    /// Tiles per row.
    pub columns: usize,
    /// Number of rows.
    pub rows: usize,
    /// Width of the area the level fills.
    pub level_width: u32,
    /// Height of the area the level fills.
    pub level_height: u32,
}

impl GameLevel {
    /// An empty level.
    pub fn new() -> (r: Self)
        ensures
            r.bricks@ == Seq::<Brick>::empty(),
            r.columns == 0,
            r.rows == 0,
            r.level_width == 0,
            r.level_height == 0,
    {
        GameLevel { bricks: Vec::new(), columns: 0, rows: 0, level_width: 0, level_height: 0 }
    }

    /// Replaces the bricks by those of the level file whose lines are given, filling an area
    /// of `level_width` by `level_height`. A file without lines leaves the level empty.
    pub fn load(&mut self, lines: &Vec<String>, level_width: u32, level_height: u32, resources: &ResourceManager)
        requires
            resources.wf(),
            can_build(level_tiles(lines@), *resources),
        ensures
            loaded(*old(self), *final(self), lines@, level_width, level_height, *resources),
    {
        self.bricks.clear();
        let tile_data = parse_tile_data(lines);
        assert(tile_data@.map_values(|r: Vec<u32>| r@) =~= level_tiles(lines@));
        if tile_data.len() > 0 {
            self.init(tile_data, level_width, level_height, resources);
        }
    }

    /// Appends the bricks of `tile_data`: a solid brick for code 1, a breakable brick for codes
    /// above 1, nothing for 0.
    fn init(&mut self, tile_data: Vec<Vec<u32>>, level_width: u32, level_height: u32, resources: &ResourceManager)
        requires
            resources.wf(),
            tile_data@.len() > 0,
            can_build(tile_data@.map_values(|r: Vec<u32>| r@), *resources),
        ensures
            ({
                let tiles = tile_data@.map_values(|r: Vec<u32>| r@);
                &&& final(self).bricks@ == old(self).bricks@ + level_bricks(
                    tiles,
                    tiles[0].len(),
                    tiles.len(),
                    resources.textures.map()[solid_block_name()],
                    resources.textures.map()[block_name()],
                )
                &&& final(self).columns == tiles[0].len()
                &&& final(self).rows == tiles.len()
                &&& final(self).level_width == level_width
                &&& final(self).level_height == level_height
            }),
    {
        let ghost tiles = tile_data@.map_values(|r: Vec<u32>| r@);
        let ghost solid = resources.textures.map()[solid_block_name()];
        let ghost block = resources.textures.map()[block_name()];
        let ghost start = self.bricks@;
        let height = tile_data.len();
        let width = tile_data[0].len();
        self.columns = width;
        self.rows = height;
        self.level_width = level_width;
        self.level_height = level_height;
        let mut y: usize = 0;
        while y < height
            invariant
                0 <= y <= height,
                height == tiles.len(),
                width == tiles[0].len(),
                tiles == tile_data@.map_values(|r: Vec<u32>| r@),
                resources.wf(),
                can_build(tiles, *resources),
                solid == resources.textures.map()[solid_block_name()],
                block == resources.textures.map()[block_name()],
                self.bricks@ == start + level_bricks(tiles, width as nat, y as nat, solid, block),
                self.columns == width,
                self.rows == height,
                self.level_width == level_width,
                self.level_height == level_height,
            decreases height - y,
        {
            let ghost before_row = self.bricks@;
            assert(tiles[y as int] == tile_data@[y as int]@);
            assert(tiles[y as int].len() >= width);
            let mut x: usize = 0;
            while x < width
                invariant
                    0 <= x <= width,
                    0 <= y < height,
                    height == tiles.len(),
                    width == tiles[0].len(),
                    tiles == tile_data@.map_values(|r: Vec<u32>| r@),
                    tiles[y as int] == tile_data@[y as int]@,
                    tiles[y as int].len() >= width,
                    resources.wf(),
                    can_build(tiles, *resources),
                    solid == resources.textures.map()[solid_block_name()],
                    block == resources.textures.map()[block_name()],
                    self.bricks@ == before_row + row_bricks(tiles[y as int], y as nat, x as nat, solid, block),
                    self.columns == width,
                    self.rows == height,
                    self.level_width == level_width,
                    self.level_height == level_height,
                decreases width - x,
            {
                let code = tile_data[y][x];
                assert(code == tiles[y as int][x as int]);
                if code == 1 {
                    assert((|c: u32| c == 1)(tiles[y as int][x as int]));
                    proof {
                        reveal_strlit("block_solid");
                    }
                    let sprite = get_texture(resources, String::from_str("block_solid"));
                    self.bricks.push(Brick { col: x, row: y, code, is_solid: true, destroyed: false, sprite });
                } else if code > 1 {
                    assert((|c: u32| c > 1)(tiles[y as int][x as int]));
                    proof {
                        reveal_strlit("block");
                    }
                    let sprite = get_texture(resources, String::from_str("block"));
                    self.bricks.push(Brick { col: x, row: y, code, is_solid: false, destroyed: false, sprite });
                }
                x = x + 1;
            }
            y = y + 1;
        }
    }

    /// A level is completed when every breakable brick is destroyed.
    pub fn is_completed(&self) -> (r: bool)
        ensures
            r == forall|i: int| 0 <= i < self.bricks@.len() ==> #[trigger] self.bricks@[i].is_solid
                || self.bricks@[i].destroyed,
    {
        let mut i: usize = 0;
        while i < self.bricks.len()
            invariant
                0 <= i <= self.bricks@.len(),
                forall|j: int| 0 <= j < i ==> #[trigger] self.bricks@[j].is_solid || self.bricks@[j].destroyed,
            decreases self.bricks@.len() - i,
        {
            if !self.bricks[i].is_solid && !self.bricks[i].destroyed {
                return false;
            }
            i = i + 1;
        }
        true
    }
}

} // verus!
