//! The grid, the robots on it, and the projection of the robots onto the grid.

use crate::error::SimulationError;
use std::collections::HashMap;
use vstd::prelude::*;

verus! {

/// What a cell of the grid shows.
#[derive(Debug, Clone, Copy, PartialEq, Eq, Structural)]
pub enum CellType {
    Blank,
    Robot(u32),
}

/// The grid, row by row: `map[y][x]` is the cell in column `x` of row `y`.
pub type Map2D = Vec<Vec<CellType>>;

/// A cell of the grid: its column first, its row second.
pub type Position = (i32, i32);

/// Where every robot starts.
pub const INITIAL_POSITION: Position = (10, 10);

/// The number of rows.
pub const MAX_HEIGHT: i32 = 20;

/// The number of columns.
pub const MAX_WEIGHT: i32 = 20;

/// The first row.
pub const MIN_HEIGHT: i32 = 0;

/// The first column.
pub const MIN_WEIGHT: i32 = 0;

/// The number of markers: robots `0` to `MAX_ROBOTS - 1` can be drawn.
pub const MAX_ROBOTS: u32 = 5;

/// The number of robots of a run.
pub const NB_ROBOTS: u32 = 5;

/// A robot: its id and the cell it stands on.
#[derive(Debug, Clone, Copy, PartialEq, Eq)]
pub struct Robot {
    pub id: u32,
    pub coords: Position,
}

/// The position lies on the grid.
pub open spec fn in_bounds(p: Position) -> bool {
    &&& MIN_WEIGHT <= p.0 < MAX_WEIGHT
    &&& MIN_HEIGHT <= p.1 < MAX_HEIGHT
}

/// `value` if it lies between `low` and `high`, else the nearer of the two.
pub open spec fn clamp(value: int, low: int, high: int) -> int {
    if value < low {
        low
    } else if value > high {
        high
    } else {
        value
    }
}

/// The cell that a robot on `p` reaches by `(dx, dy)`: the sum, held back
/// at the border of the grid.
pub open spec fn displaced(p: Position, dx: int, dy: int) -> Position {
    (
        clamp(p.0 + dx, MIN_WEIGHT as int, MAX_WEIGHT - 1) as i32,
        clamp(p.1 + dy, MIN_HEIGHT as int, MAX_HEIGHT - 1) as i32,
    )
}

/// The grid has `MAX_HEIGHT` rows of `MAX_WEIGHT` cells.
pub open spec fn well_shaped(map: Map2D) -> bool {
    &&& map@.len() == MAX_HEIGHT
    &&& forall|y: int| 0 <= y < map@.len() ==> (#[trigger] map@[y])@.len() == MAX_WEIGHT
}

/// The two grids have the same rows of the same lengths.
pub open spec fn same_shape(a: Map2D, b: Map2D) -> bool {
    &&& a@.len() == b@.len()
    &&& forall|y: int| 0 <= y < a@.len() ==> (#[trigger] a@[y])@.len() == b@[y]@.len()
}

/// Every cell of the grid is blank.
pub open spec fn all_blank(map: Map2D) -> bool {
    forall|y: int, x: int|
        0 <= y < map@.len() && 0 <= x < map@[y]@.len() ==> (#[trigger] map@[y]@[x])
            == CellType::Blank
}

/// Moves a coordinate by `delta` and holds it back between `low` and `high`.
fn clamped_sum(value: i32, delta: i32, low: i32, high: i32) -> (r: i32)
    requires
        low <= high,
    ensures
        r == clamp(value + delta, low as int, high as int),
{
    let sum: i64 = value as i64 + delta as i64;
    if sum < low as i64 {
        low
    } else if sum > high as i64 {
        high
    } else {
        sum as i32
    }
}

/// A grid of `MAX_HEIGHT` rows and `MAX_WEIGHT` columns with no robot on it.
pub fn initialize_map() -> (map: Map2D)
    ensures
        well_shaped(map),
        all_blank(map),
{
    let mut map: Map2D = Vec::new();
    let mut y: i32 = 0;
    while y < MAX_HEIGHT
        invariant
            0 <= y <= MAX_HEIGHT,
            map@.len() == y,
            forall|j: int| 0 <= j < map@.len() ==> (#[trigger] map@[j])@.len() == MAX_WEIGHT,
            all_blank(map),
        decreases MAX_HEIGHT - y,
    {
        let mut row: Vec<CellType> = Vec::new();
        let mut x: i32 = 0;
        while x < MAX_WEIGHT
            invariant
                0 <= x <= MAX_WEIGHT,
                row@.len() == x,
                forall|i: int| 0 <= i < row@.len() ==> row@[i] == CellType::Blank,
            decreases MAX_WEIGHT - x,
        {
            row.push(CellType::Blank);
            x = x + 1;
        }
        map.push(row);
        y = y + 1;
    }
    map
}

/// Wipes every robot off the grid. The grid keeps its shape, whatever it is.
pub fn clean_map(map: &mut Map2D)
    ensures
        same_shape(*final(map), *old(map)),
        all_blank(*final(map)),
{
    let rows = map.len();
    let mut y: usize = 0;
    while y < rows
        invariant
            0 <= y <= rows,
            rows == map@.len(),
            same_shape(*map, *old(map)),
            forall|j: int, i: int|
                0 <= j < y && 0 <= i < map@[j]@.len() ==> (#[trigger] map@[j]@[i])
                    == CellType::Blank,
        decreases rows - y,
    {
        let columns = map[y].len();
        let mut x: usize = 0;
        while x < columns
            invariant
                0 <= x <= columns,
                0 <= y < rows,
                rows == map@.len(),
                columns == map@[y as int]@.len(),
                same_shape(*map, *old(map)),
                forall|j: int, i: int|
                    0 <= j < y && 0 <= i < map@[j]@.len() ==> (#[trigger] map@[j]@[i])
                        == CellType::Blank,
                forall|i: int| 0 <= i < x ==> (#[trigger] map@[y as int]@[i]) == CellType::Blank,
            decreases columns - x,
        {
            map[y][x] = CellType::Blank;
            x = x + 1;
        }
        y = y + 1;
    }
}

/// The registry that the list of robots gives: every robot under its id,
/// and of two robots with one id the later one.
pub open spec fn registry_of(robots: Seq<Robot>) -> Map<u32, Robot>
    decreases robots.len(),
{
    if robots.len() == 0 {
        Map::empty()
    } else {
        registry_of(robots.drop_last()).insert(robots.last().id, robots.last())
    }
}

/// Every robot of the registry stands on the grid.
pub open spec fn all_in_bounds(positions: Map<u32, Robot>) -> bool {
    forall|id: u32| positions.contains_key(id) ==> in_bounds(#[trigger] positions[id].coords)
}

/// Every robot of the registry has a marker.
pub open spec fn all_supported(positions: Map<u32, Robot>) -> bool {
    forall|id: u32| #[trigger] positions.contains_key(id) ==> id < MAX_ROBOTS
}

/// The registry after robot `id` has moved by `(dx, dy)`. A registry
/// without that robot stays as it is.
pub open spec fn moved(positions: Map<u32, Robot>, id: u32, dx: int, dy: int) -> Map<u32, Robot> {
    if positions.contains_key(id) {
        positions.insert(
            id,
            Robot { id: positions[id].id, coords: displaced(positions[id].coords, dx, dy) },
        )
    } else {
        positions
    }
}

/// Tells whether the position lies on the grid.
pub fn on_grid(p: Position) -> (inside: bool)
    ensures
        inside == in_bounds(p),
{
    MIN_WEIGHT <= p.0 && p.0 < MAX_WEIGHT && MIN_HEIGHT <= p.1 && p.1 < MAX_HEIGHT
}

/// Tells whether every robot of the registry stands on the grid.
pub fn all_on_grid(positions: &HashMap<u32, Robot>) -> (inside: bool)
    ensures
        inside == all_in_bounds(positions@),
{
    broadcast use vstd::std_specs::hash::group_hash_axioms;

    for (id, robot) in it: positions.iter()
        invariant
            forall|k: int| 0 <= k < it.index() ==> in_bounds((#[trigger] it.seq()[k]).1.coords),
    {
        if !on_grid(robot.coords) {
            assert(positions@.contains_key(*id) && positions@[*id] == *robot);
            return false;
        }
    }
    true
}

/// Puts every robot of the list into a registry, under its id.
pub fn initialize_positions(robots: &Vec<Robot>) -> (positions: HashMap<u32, Robot>)
    ensures
        positions@ == registry_of(robots@),
{
    broadcast use vstd::std_specs::hash::group_hash_axioms;

    let mut positions: HashMap<u32, Robot> = HashMap::new();
    let mut i: usize = 0;
    while i < robots.len()
        invariant
            0 <= i <= robots.len(),
            positions@ == registry_of(robots@.take(i as int)),
        decreases robots.len() - i,
    {
        let robot = robots[i];
        assert(robots@.take(i + 1).drop_last() =~= robots@.take(i as int));
        positions.insert(robot.id, robot);
        i = i + 1;
    }
    assert(robots@.take(i as int) =~= robots@);
    positions
}

/// Moves robot `id` by `(dx, dy)` and holds it on the grid. Nothing happens
/// if the registry has no such robot.
pub fn update_position(positions: &mut HashMap<u32, Robot>, id: u32, dx: i32, dy: i32)
    ensures
        final(positions)@ == moved(old(positions)@, id, dx as int, dy as int),
{
    broadcast use vstd::std_specs::hash::group_hash_axioms;

    let found: Option<Robot> = match positions.get(&id) {
        Some(robot) => Some(*robot),
        None => None,
    };
    if let Some(robot) = found {
        let (x, y) = robot.coords;
        let coords: Position = (
            clamped_sum(x, dx, MIN_WEIGHT, MAX_WEIGHT - 1),
            clamped_sum(y, dy, MIN_HEIGHT, MAX_HEIGHT - 1),
        );
        positions.insert(id, Robot { id: robot.id, coords });
    }
}

/// The marker of robot `id`, for the five robots that have one.
pub open spec fn marker_of(id: u32) -> Option<char> {
    if id == 0 {
        Some('@')
    } else if id == 1 {
        Some('%')
    } else if id == 2 {
        Some('#')
    } else if id == 3 {
        Some('*')
    } else if id == 4 {
        Some('+')
    } else {
        None
    }
}

/// The character that stands for a cell: a space for a blank one, the
/// robot's marker for a robot that has one.
pub open spec fn symbol_of(cell: CellType) -> Option<char> {
    match cell {
        CellType::Blank => Some(' '),
        CellType::Robot(id) => marker_of(id),
    }
}

/// Some robot of the registry stands on `p`.
pub open spec fn occupied(positions: Map<u32, Robot>, p: Position) -> bool {
    exists|id: u32| positions.contains_key(id) && (#[trigger] positions[id]).coords == p
}

/// The grid shows the registry: a cell that no robot stands on is blank, and
/// every other cell bears the id of a robot that stands on it.
pub open spec fn shows(map: Map2D, positions: Map<u32, Robot>) -> bool {
    forall|x: int, y: int|
        0 <= x < MAX_WEIGHT && 0 <= y < MAX_HEIGHT ==> match #[trigger] map@[y]@[x] {
            CellType::Blank => !occupied(positions, (x as i32, y as i32)),
            CellType::Robot(id) => positions.contains_key(id) && positions[id].coords == (
                x as i32,
                y as i32,
            ),
        }
}

/// Looks up the marker of robot `id`.
pub fn marker_for(id: u32) -> (marker: Result<char, SimulationError>)
    ensures
        match marker {
            Ok(c) => marker_of(id) == Some(c),
            Err(e) => marker_of(id) is None && e == SimulationError::UnsupportedAgentId(id),
        },
{
    match id {
        0 => Ok('@'),
        1 => Ok('%'),
        2 => Ok('#'),
        3 => Ok('*'),
        4 => Ok('+'),
        _ => Err(SimulationError::UnsupportedAgentId(id)),
    }
}

/// The character to print for a cell.
pub fn cell_symbol(cell: CellType) -> (symbol: Result<char, SimulationError>)
    ensures
        match symbol {
            Ok(c) => symbol_of(cell) == Some(c),
            Err(e) => cell matches CellType::Robot(id) && marker_of(id) is None && e
                == SimulationError::UnsupportedAgentId(id),
        },
{
    match cell {
        CellType::Blank => Ok(' '),
        CellType::Robot(id) => marker_for(id),
    }
}

/// The id of a robot of the registry that has no marker, if there is one.
fn find_unsupported(positions: &HashMap<u32, Robot>) -> (found: Option<u32>)
    ensures
        match found {
            Some(id) => positions@.contains_key(id) && id >= MAX_ROBOTS,
            None => all_supported(positions@),
        },
{
    broadcast use vstd::std_specs::hash::group_hash_axioms;

    for (id, _robot) in it: positions.iter()
        invariant
            forall|k: int| 0 <= k < it.index() ==> *(#[trigger] it.seq()[k]).0 < MAX_ROBOTS,
    {
        if *id >= MAX_ROBOTS {
            return Some(*id);
        }
    }
    None
}

/// Draws the registry onto the grid: wipes the grid, then writes the id of
/// every robot into the cell it stands on. Where several robots share a
/// cell, the cell bears the id of one of them. A registry that holds a robot
/// without a marker is refused, and the grid stays as it was.
pub fn update_map(map: &mut Map2D, positions: &HashMap<u32, Robot>) -> (done: Result<
    (),
    SimulationError,
>)
    requires
        well_shaped(*old(map)),
        all_in_bounds(positions@),
    ensures
        done is Ok <==> all_supported(positions@),
        match done {
            Ok(_) => well_shaped(*final(map)) && shows(*final(map), positions@),
            Err(e) => {
                &&& e matches SimulationError::UnsupportedAgentId(id)
                &&& positions@.contains_key(id)
                &&& id >= MAX_ROBOTS
                &&& *final(map) == *old(map)
            },
        },
{
    broadcast use vstd::std_specs::hash::group_hash_axioms;

    if let Some(id) = find_unsupported(positions) {
        return Err(SimulationError::UnsupportedAgentId(id));
    }
    clean_map(map);
    let ghost mut drawn: Map<u32, Robot> = Map::empty();
    for (id, robot) in it: positions.iter()
        invariant
            well_shaped(*map),
            all_in_bounds(positions@),
            it.seq().no_duplicates(),
            shows(*map, drawn),
            forall|k: u32| #[trigger]
                drawn.contains_key(k) ==> positions@.contains_key(k) && drawn[k] == positions@[k],
            forall|j: int| 0 <= j < it.index() ==> drawn.contains_key(*(#[trigger] it.seq()[j]).0),
            forall|k: u32| #[trigger]
                drawn.contains_key(k) ==> exists|j: int|
                    0 <= j < it.index() && *(#[trigger] it.seq()[j]).0 == k,
    {
        let (x, y) = robot.coords;
        assert(!drawn.contains_key(*id)) by {
            if drawn.contains_key(*id) {
                let j = choose|j: int| 0 <= j < it.index() && *(#[trigger] it.seq()[j]).0 == *id;
                assert(it.seq()[j] == it.seq()[it.index()]);
            }
        }
        let ghost before = *map;
        map[y as usize][x as usize] = CellType::Robot(*id);
        proof {
            let after = drawn.insert(*id, *robot);
            assert forall|cx: int, cy: int|
                0 <= cx < MAX_WEIGHT && 0 <= cy < MAX_HEIGHT implies match #[trigger] map@[cy]@[cx] {
                CellType::Blank => !occupied(after, (cx as i32, cy as i32)),
                CellType::Robot(r) => after.contains_key(r) && after[r].coords == (
                    cx as i32,
                    cy as i32,
                ),
            } by {
                if cx != x || cy != y {
                    assert(map@[cy]@[cx] == before@[cy]@[cx]);
                }
            }
            drawn = after;
        }
    }
    Ok(())
}

/// Moves robot `id` by `(dx, dy)`, then draws the registry onto the grid.
pub fn update_positions_map(
    positions: &mut HashMap<u32, Robot>,
    map: &mut Map2D,
    id: u32,
    dx: i32,
    dy: i32,
) -> (done: Result<(), SimulationError>)
    requires
        well_shaped(*old(map)),
        all_in_bounds(old(positions)@),
    ensures
        final(positions)@ == moved(old(positions)@, id, dx as int, dy as int),
        all_in_bounds(final(positions)@),
        done is Ok <==> all_supported(old(positions)@),
        match done {
            Ok(_) => well_shaped(*final(map)) && shows(*final(map), final(positions)@),
            Err(e) => {
                &&& e matches SimulationError::UnsupportedAgentId(bad)
                &&& old(positions)@.contains_key(bad)
                &&& bad >= MAX_ROBOTS
                &&& *final(map) == *old(map)
            },
        },
{
    update_position(positions, id, dx, dy);
    proof {
        lemma_moved_keeps_registry(old(positions)@, id, dx as int, dy as int);
    }
    update_map(map, positions)
}

/// A move changes neither which robots the registry holds nor their ids,
/// and it leaves every robot on the grid that was on it; the robot that
/// moved is on the grid afterwards wherever it was before.
pub proof fn lemma_moved_keeps_registry(positions: Map<u32, Robot>, id: u32, dx: int, dy: int)
    ensures
        moved(positions, id, dx, dy).dom() == positions.dom(),
        forall|k: u32| #[trigger]
            positions.contains_key(k) ==> moved(positions, id, dx, dy)[k].id == positions[k].id,
        forall|k: u32|
            positions.contains_key(k) && k != id ==> #[trigger] moved(positions, id, dx, dy)[k]
                == positions[k],
        positions.contains_key(id) ==> in_bounds(moved(positions, id, dx, dy)[id].coords),
        all_in_bounds(positions) ==> all_in_bounds(moved(positions, id, dx, dy)),
        all_supported(positions) <==> all_supported(moved(positions, id, dx, dy)),
{
    let after = moved(positions, id, dx, dy);
    assert(after.dom() =~= positions.dom());
    if all_supported(after) {
        assert forall|k: u32| #[trigger] positions.contains_key(k) implies k < MAX_ROBOTS by {
            assert(after.contains_key(k));
        }
    }
}

/// Cell `(x, y)` comes before cell `(bx, by)` when the grid is read row by
/// row, each row from its first column on.
pub open spec fn reads_before(x: int, y: int, bx: int, by: int) -> bool {
    y < by || (y == by && x < bx)
}

/// Every cell of the grid has a character to stand for it.
pub open spec fn drawable(map: Map2D) -> bool {
    forall|y: int, x: int|
        0 <= y < map@.len() && 0 <= x < map@[y]@.len() ==> symbol_of(#[trigger] map@[y]@[x])
            is Some
}

/// `(x, y)` is the first cell, in reading order, that has no character.
pub open spec fn first_undrawable(map: Map2D, x: int, y: int) -> bool {
    &&& 0 <= y < map@.len()
    &&& 0 <= x < map@[y]@.len()
    &&& symbol_of(map@[y]@[x]) is None
    &&& forall|j: int, i: int|
        0 <= j < map@.len() && 0 <= i < map@[j]@.len() && reads_before(i, j, x, y) ==> symbol_of(
            #[trigger] map@[j]@[i],
        ) is Some
}

/// The characters of one row, up to the first cell that has none.
fn draw_row(map: &Map2D, y: usize) -> (line: Result<Vec<char>, (usize, u32)>)
    requires
        y < map@.len(),
    ensures
        match line {
            Ok(chars) => {
                &&& chars@.len() == map@[y as int]@.len()
                &&& forall|x: int|
                    0 <= x < chars@.len() ==> symbol_of(map@[y as int]@[x]) == Some(
                        #[trigger] chars@[x],
                    )
            },
            Err((x, id)) => {
                &&& x < map@[y as int]@.len()
                &&& map@[y as int]@[x as int] == CellType::Robot(id)
                &&& marker_of(id) is None
                &&& forall|i: int| 0 <= i < x ==> symbol_of(#[trigger] map@[y as int]@[i]) is Some
            },
        },
{
    let columns = map[y].len();
    let mut chars: Vec<char> = Vec::new();
    let mut x: usize = 0;
    while x < columns
        invariant
            0 <= x <= columns,
            y < map@.len(),
            columns == map@[y as int]@.len(),
            chars@.len() == x,
            forall|i: int|
                0 <= i < x ==> symbol_of(map@[y as int]@[i]) == Some(#[trigger] chars@[i]),
            forall|i: int| 0 <= i < x ==> symbol_of(#[trigger] map@[y as int]@[i]) is Some,
        decreases columns - x,
    {
        let cell = map[y][x];
        match cell_symbol(cell) {
            Ok(c) => {
                chars.push(c);
            },
            Err(_) => {
                match cell {
                    CellType::Robot(id) => {
                        return Err((x, id));
                    },
                    CellType::Blank => {},
                }
            },
        }
        x = x + 1;
    }
    Ok(chars)
}

/// The text of the grid: for every row its characters, a space for a blank
/// cell and the marker for a robot. A grid that bears a robot without a
/// marker has no text; the error names the first such robot in reading
/// order.
pub fn draw_map(map: &Map2D) -> (text: Result<Vec<Vec<char>>, SimulationError>)
    ensures
        text is Ok <==> drawable(*map),
        match text {
            Ok(rows) => {
                &&& rows@.len() == map@.len()
                &&& forall|y: int|
                    0 <= y < rows@.len() ==> (#[trigger] rows@[y])@.len() == map@[y]@.len()
                &&& forall|y: int, x: int|
                    0 <= y < rows@.len() && 0 <= x < rows@[y]@.len() ==> symbol_of(map@[y]@[x])
                        == Some(#[trigger] rows@[y]@[x])
            },
            Err(e) => {
                &&& e matches SimulationError::UnsupportedAgentId(id)
                &&& exists|x: int, y: int|
                    first_undrawable(*map, x, y) && #[trigger] map@[y]@[x] == CellType::Robot(id)
            },
        },
{
    let mut rows: Vec<Vec<char>> = Vec::new();
    let mut y: usize = 0;
    while y < map.len()
        invariant
            0 <= y <= map@.len(),
            rows@.len() == y,
            forall|j: int| 0 <= j < y ==> (#[trigger] rows@[j])@.len() == map@[j]@.len(),
            forall|j: int, i: int|
                0 <= j < y && 0 <= i < rows@[j]@.len() ==> symbol_of(map@[j]@[i]) == Some(
                    #[trigger] rows@[j]@[i],
                ),
        decreases map@.len() - y,
    {
        match draw_row(map, y) {
            Ok(chars) => {
                rows.push(chars);
            },
            Err((x, id)) => {
                proof {
                    assert forall|j: int, i: int|
                        0 <= j < map@.len() && 0 <= i < map@[j]@.len() && reads_before(
                            i,
                            j,
                            x as int,
                            y as int,
                        ) implies symbol_of(#[trigger] map@[j]@[i]) is Some by {
                        if j < y {
                            assert(symbol_of(map@[j]@[i]) == Some(rows@[j]@[i]));
                        }
                    }
                }
                return Err(SimulationError::UnsupportedAgentId(id));
            },
        }
        y = y + 1;
    }
    proof {
        assert forall|j: int, i: int|
            0 <= j < map@.len() && 0 <= i < map@[j]@.len() implies symbol_of(
            #[trigger] map@[j]@[i],
        ) is Some by {
            assert(symbol_of(map@[j]@[i]) == Some(rows@[j]@[i]));
        }
    }
    Ok(rows)
}

/// The cells of the grid that bear a robot.
pub open spec fn robot_cells(map: Map2D) -> Set<Position> {
    Set::new(|p: Position| in_bounds(p) && map@[p.1 as int]@[p.0 as int] != CellType::Blank)
}

/// No two robots of the registry stand on the same cell.
pub open spec fn no_shared_cell(positions: Map<u32, Robot>) -> bool {
    forall|a: u32, b: u32|
        positions.contains_key(a) && positions.contains_key(b) && a != b ==> (
        #[trigger] positions[a]).coords != (#[trigger] positions[b]).coords
}

/// The cells that bear a robot are the cells that robots stand on.
proof fn lemma_robot_cells_are_occupied(map: Map2D, positions: Map<u32, Robot>)
    requires
        well_shaped(map),
        shows(map, positions),
        all_in_bounds(positions),
    ensures
        robot_cells(map) == positions.dom().map(|id: u32| positions[id].coords),
{
    let place = |id: u32| positions[id].coords;
    let stood_on = positions.dom().map(place);
    assert forall|p: Position| robot_cells(map).contains(p) implies stood_on.contains(p) by {
        if let CellType::Robot(id) = map@[p.1 as int]@[p.0 as int] {
            assert(positions.dom().contains(id) && place(id) == p);
        }
    }
    assert forall|p: Position| stood_on.contains(p) implies robot_cells(map).contains(p) by {
        let id = choose|id: u32| positions.dom().contains(id) && place(id) == p;
        assert(occupied(positions, p));
    }
    assert(robot_cells(map) =~= stood_on);
}

/// On a grid that shows the registry, no more cells bear a robot than there
/// are robots, and every such cell bears the id of a robot that stands on
/// it and has a marker.
pub proof fn lemma_cells_at_most_robots(map: Map2D, positions: Map<u32, Robot>)
    requires
        well_shaped(map),
        shows(map, positions),
        all_in_bounds(positions),
        all_supported(positions),
        positions.dom().finite(),
    ensures
        robot_cells(map).finite(),
        robot_cells(map).len() <= positions.dom().len(),
        forall|p: Position| #[trigger]
            robot_cells(map).contains(p) ==> exists|id: u32|
                {
                    &&& map@[p.1 as int]@[p.0 as int] == CellType::Robot(id)
                    &&& positions.contains_key(id)
                    &&& (#[trigger] positions[id]).coords == p
                    &&& marker_of(id) is Some
                },
{
    lemma_robot_cells_are_occupied(map, positions);
    vstd::set_lib::lemma_map_size_bound(
        positions.dom(),
        robot_cells(map),
        |id: u32| positions[id].coords,
    );
    assert forall|p: Position| #[trigger] robot_cells(map).contains(p) implies exists|id: u32|
        {
            &&& map@[p.1 as int]@[p.0 as int] == CellType::Robot(id)
            &&& positions.contains_key(id)
            &&& (#[trigger] positions[id]).coords == p
            &&& marker_of(id) is Some
        } by {
        if let CellType::Robot(id) = map@[p.1 as int]@[p.0 as int] {
            assert(positions.contains_key(id) && positions[id].coords == p);
        }
    }
}

/// Where no two robots share a cell, a grid that shows the registry has
/// exactly one cell per robot that is not blank, and the cell that a robot
/// stands on bears that robot's id.
pub proof fn lemma_one_cell_per_robot(map: Map2D, positions: Map<u32, Robot>)
    requires
        well_shaped(map),
        shows(map, positions),
        all_in_bounds(positions),
        positions.dom().finite(),
        no_shared_cell(positions),
    ensures
        robot_cells(map).finite(),
        robot_cells(map).len() == positions.dom().len(),
        forall|id: u32| #[trigger]
            positions.contains_key(id) ==> map@[positions[id].coords.1 as int]@[positions[id].coords.0 as int]
                == CellType::Robot(id),
{
    let place = |id: u32| positions[id].coords;
    lemma_robot_cells_are_occupied(map, positions);
    assert(vstd::relations::injective_on(place, positions.dom()));
    vstd::set_lib::lemma_map_size(positions.dom(), robot_cells(map), place);
    assert forall|id: u32| #[trigger] positions.contains_key(id) implies map@[positions[id].coords.1 as int]@[positions[id].coords.0 as int]
        == CellType::Robot(id) by {
        assert(occupied(positions, positions[id].coords));
    }
}

/// Every robot that has a marker has one of its own.
pub proof fn lemma_markers_differ(a: u32, b: u32)
    requires
        a != b,
        marker_of(a) is Some,
    ensures
        marker_of(a) != marker_of(b),
{
}

/// Exactly the robots `0` to `MAX_ROBOTS - 1` have a marker.
pub proof fn lemma_marker_table(id: u32)
    ensures
        marker_of(id) is Some <==> id < MAX_ROBOTS,
{
}

/// Wherever a robot stood and whatever displacement it was given, it
/// stands on the grid after the move. A robot that was on the grid and is
/// moved by at most one cell on each axis ends at most one cell away on
/// each axis, and a displacement of nothing leaves it where it was. On an
/// axis on which the sum lies on the grid, the robot ends on the sum.
pub proof fn lemma_moves_stay_on_grid(p: Position, dx: int, dy: int)
    ensures
        in_bounds(displaced(p, dx, dy)),
        in_bounds(p) && -1 <= dx <= 1 && -1 <= dy <= 1 ==> {
            &&& -1 <= displaced(p, dx, dy).0 - p.0 <= 1
            &&& -1 <= displaced(p, dx, dy).1 - p.1 <= 1
        },
        in_bounds(p) ==> displaced(p, 0, 0) == p,
        MIN_WEIGHT <= p.0 + dx < MAX_WEIGHT ==> displaced(p, dx, dy).0 == p.0 + dx,
        MIN_HEIGHT <= p.1 + dy < MAX_HEIGHT ==> displaced(p, dx, dy).1 == p.1 + dy,
{
}

/// The robots `0` to `count - 1`, each on the cell where robots start.
pub open spec fn lineup(count: nat) -> Seq<Robot> {
    Seq::new(count, |i: int| Robot { id: i as u32, coords: INITIAL_POSITION })
}

/// Makes the robots `0` to `count - 1`, each on the cell where robots start.
pub fn initialize_robots(count: u32) -> (robots: Vec<Robot>)
    ensures
        robots@ == lineup(count as nat),
{
    let mut robots: Vec<Robot> = Vec::new();
    let mut id: u32 = 0;
    while id < count
        invariant
            0 <= id <= count,
            robots@ == lineup(id as nat),
        decreases count - id,
    {
        robots.push(Robot { id, coords: INITIAL_POSITION });
        id = id + 1;
    }
    robots
}

/// The registry of a lineup holds exactly the robots `0` to `count - 1`,
/// each under its id and on the cell where robots start.
pub proof fn lemma_lineup_registry(count: nat)
    requires
        count <= u32::MAX,
    ensures
        registry_of(lineup(count)).dom() == Set::new(|id: u32| id < count),
        registry_of(lineup(count)).dom().finite(),
        registry_of(lineup(count)).dom().len() == count,
        forall|id: u32|
            id < count ==> #[trigger] registry_of(lineup(count))[id] == (Robot {
                id,
                coords: INITIAL_POSITION,
            }),
        all_in_bounds(registry_of(lineup(count))),
        all_supported(registry_of(lineup(count))) <==> count <= MAX_ROBOTS,
    decreases count,
{
    let registry = registry_of(lineup(count));
    if count > 0 {
        let fewer = (count - 1) as nat;
        lemma_lineup_registry(fewer);
        assert(lineup(count).drop_last() =~= lineup(fewer));
        assert(registry.dom() =~= Set::new(|id: u32| id < fewer).insert(fewer as u32));
        if all_supported(registry) {
            assert(registry.contains_key(fewer as u32));
        }
    } else {
        assert(registry.dom() =~= Set::<u32>::empty());
    }
}

/// What the registry of a list of robots holds: the ids of the list and no
/// others, and under each id the last robot of the list that carries it.
pub proof fn lemma_registry_holds_last(robots: Seq<Robot>, id: u32)
    ensures
        registry_of(robots).contains_key(id) <==> exists|i: int|
            0 <= i < robots.len() && (#[trigger] robots[i]).id == id,
        registry_of(robots).contains_key(id) ==> exists|i: int|
            {
                &&& 0 <= i < robots.len()
                &&& #[trigger] robots[i] == registry_of(robots)[id]
                &&& robots[i].id == id
                &&& forall|j: int| i < j < robots.len() ==> (#[trigger] robots[j]).id != id
            },
    decreases robots.len(),
{
    if robots.len() > 0 {
        let front = robots.drop_last();
        lemma_registry_holds_last(front, id);
        if robots.last().id == id {
            assert(robots[robots.len() - 1] == registry_of(robots)[id]);
        } else if registry_of(front).contains_key(id) {
            let i = choose|i: int|
                {
                    &&& 0 <= i < front.len()
                    &&& #[trigger] front[i] == registry_of(front)[id]
                    &&& front[i].id == id
                    &&& forall|j: int| i < j < front.len() ==> (#[trigger] front[j]).id != id
                };
            assert forall|j: int| i < j < robots.len() implies (#[trigger] robots[j]).id != id by {
                if j < front.len() {
                    assert(robots[j] == front[j]);
                }
            }
        } else {
            assert forall|i: int| 0 <= i < robots.len() implies (#[trigger] robots[i]).id != id by {
                if i < front.len() {
                    assert(robots[i] == front[i]);
                }
            }
        }
    }
}

} // verus!
