//! The terrain of a room as a grid of cells.

use vstd::prelude::*;
use cli_table::Table;

verus! {

/// Terrain of one tile.
#[derive(Clone, Copy, Debug, PartialEq, Eq, Structural)]
pub enum Terrain {
    Plain,
    Wall,
    Swamp,
}

/// The terrain of a room, one cell per tile, row by row.
///
/// A cell is the sum of 1 where the tile holds wall, 2 where it holds plain
/// and 4 where it holds swamp.
#[derive(Debug, PartialEq, Eq)]
pub struct RoomRectangle {
    pub coordinates: (usize, usize),
    pub name: String,
    pub spaces: [usize; 2500],
    pub width: usize,
    pub height: usize,
}

/// The cell that stands for a tile on which these terrains were found.
pub open spec fn terrain_cell(found: Seq<Terrain>) -> int {
    (if found.contains(Terrain::Wall) {
        1int
    } else {
        0int
    }) + (if found.contains(Terrain::Plain) {
        2int
    } else {
        0int
    }) + (if found.contains(Terrain::Swamp) {
        4int
    } else {
        0int
    })
}

/// The cell at `index` of the grid made from `found`, which lists the
/// terrains of each tile row by row: tiles that `found` does not reach get
/// an empty cell.
pub open spec fn scanned_cell(found: Seq<Vec<Terrain>>, index: int) -> int {
    if 0 <= index < found.len() {
        terrain_cell(found[index]@)
    } else {
        0
    }
}

impl Clone for RoomRectangle {
    fn clone(&self) -> (copy: RoomRectangle)
        ensures
            copy == *self,
    {
        RoomRectangle {
            coordinates: self.coordinates,
            name: self.name.clone(),
            spaces: self.spaces,
            width: self.width,
            height: self.height,
        }
    }
}

impl Default for RoomRectangle {
    fn default() -> (grid: RoomRectangle)
        ensures
            grid.wf(),
            grid.coordinates == (0usize, 0usize),
            grid.name@ == "Unset"@,
            forall|i: int| 0 <= i < 2500 ==> grid.spaces@[i] == 0,
    {
        RoomRectangle {
            coordinates: (0, 0),
            name: String::from_str("Unset"),
            spaces: [0usize; 2500],
            width: 50,
            height: 50,
        }
    }
}

/// Renders rows of numbers as a text table.
///
/// Calls `cli_table::Table::table` on the rows and `TableStruct::display` on
/// the table. Nothing is claimed of the text: the table is drawn with the
/// colour handling of the terminal at hand. `None` stands for the I/O error
/// that `display` may return.
#[verifier::external_body]
fn render_table(rows: Vec<Vec<usize>>) -> (text: Option<String>) {
    match rows.table().display() {
        Ok(display) => Some(display.to_string()),
        Err(_) => None,
    }
}

impl RoomRectangle {
    /// The grid has 50 rows of 50 cells, and every cell is a sum of terrain
    /// marks.
    pub open spec fn wf(&self) -> bool {
        &&& self.width == 50
        &&& self.height == 50
        &&& forall|i: int| 0 <= i < 2500 ==> self.spaces@[i] <= 7
    }

    /// The tile at (`x`, `y`) lies in the grid and holds wall.
    pub open spec fn has_wall(&self, x: int, y: int) -> bool {
        0 <= x < 50 && 0 <= y < 50 && self.spaces@[x + y * 50] % 2 == 1
    }

    /// Builds the grid of the room called `name` from the terrains found on
    /// each of its tiles, listed row by row.
    pub fn for_room(name: String, found: &Vec<Vec<Terrain>>) -> (grid: RoomRectangle)
        ensures
            grid.wf(),
            grid.name == name,
            grid.coordinates == (0usize, 0usize),
            forall|i: int| 0 <= i < 2500 ==> grid.spaces@[i] == scanned_cell(found@, i),
    {
        let spaces = Self::scan_room(found);
        RoomRectangle { coordinates: (0, 0), name, spaces, width: 50, height: 50 }
    }

    /// Folds the terrains found on each tile into one cell per tile.
    pub fn scan_room(found: &Vec<Vec<Terrain>>) -> (positions: [usize; 2500])
        ensures
            forall|i: int| 0 <= i < 2500 ==> positions@[i] == scanned_cell(found@, i),
    {
        let mut positions: [usize; 2500] = [0usize; 2500];
        let mut index: usize = 0;
        while index < 2500 && index < found.len()
            invariant
                index <= 2500,
                forall|i: int| 0 <= i < index ==> positions@[i] == scanned_cell(found@, i),
                forall|i: int| index <= i < 2500 ==> positions@[i] == 0,
            decreases 2500 - index,
        {
            let tile = &found[index];
            let mut wall: bool = false;
            let mut plain: bool = false;
            let mut swamp: bool = false;
            let mut k: usize = 0;
            while k < tile.len()
                invariant
                    k <= tile.len(),
                    wall == tile@.take(k as int).contains(Terrain::Wall),
                    plain == tile@.take(k as int).contains(Terrain::Plain),
                    swamp == tile@.take(k as int).contains(Terrain::Swamp),
                decreases tile.len() - k,
            {
                proof {
                    let before = tile@.take(k as int);
                    let after = tile@.take(k as int + 1);
                    assert(after == before.push(tile@[k as int]));
                    assert forall|t: Terrain| after.contains(t) == (before.contains(t) || t
                        == tile@[k as int]) by {
                        if before.contains(t) {
                            let w = choose|w: int| 0 <= w < before.len() && before[w] == t;
                            assert(after[w] == t);
                        }
                        if t == tile@[k as int] {
                            assert(after[k as int] == t);
                        }
                    }
                }
                match tile[k] {
                    Terrain::Wall => {
                        wall = true;
                    },
                    Terrain::Plain => {
                        plain = true;
                    },
                    Terrain::Swamp => {
                        swamp = true;
                    },
                }
                k += 1;
            }
            assert(tile@.take(k as int) == tile@);
            let mut cell: usize = 0;
            if wall {
                cell += 1;
            }
            if plain {
                cell += 2;
            }
            if swamp {
                cell += 4;
            }
            positions[index] = cell;
            index += 1;
        }
        positions
    }

    /// The cells of the grid, one `Vec` per row.
    pub fn rows(&self) -> (rows: Vec<Vec<usize>>)
        ensures
            rows@.len() == 50,
            forall|r: int| 0 <= r < 50 ==> (#[trigger] rows@[r])@ == self.spaces@.subrange(
                r * 50,
                r * 50 + 50,
            ),
    {
        let mut rows: Vec<Vec<usize>> = Vec::new();
        let mut r: usize = 0;
        while r < 50
            invariant
                r <= 50,
                rows@.len() == r,
                forall|q: int| 0 <= q < r ==> (#[trigger] rows@[q])@ == self.spaces@.subrange(
                    q * 50,
                    q * 50 + 50,
                ),
            decreases 50 - r,
        {
            let mut row: Vec<usize> = Vec::new();
            let mut c: usize = 0;
            while c < 50
                invariant
                    r < 50,
                    c <= 50,
                    row@ == self.spaces@.subrange(r * 50, r * 50 + c),
                decreases 50 - c,
            {
                row.push(self.spaces[r * 50 + c]);
                c += 1;
            }
            rows.push(row);
            r += 1;
        }
        rows
    }

    /// The grid as a text table, row by row; `None` where the table could
    /// not be drawn.
    pub fn table(&self) -> (text: Option<String>) {
        render_table(self.rows())
    }
}

} // verus!
