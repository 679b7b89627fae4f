use vstd::prelude::*;
use crate::maze::textures::{arch_placement, arch_placement_spec, house_style, house_style_spec, ArchPlacement};

verus! {

/// What stands in a cell of the maze.
#[derive(PartialEq, Eq, Structural, Clone, Copy, Debug)]
pub enum Feature {
    Wall,
    Arch(ArchPlacement),
    Tree,
    /// A house wearing the facade of the given style.
    House(u8),
}

/// A feature and the cell (row, column) it stands in.
#[derive(PartialEq, Eq, Structural, Clone, Copy, Debug)]
pub struct Placement {
    pub row: usize,
    pub col: usize,
    pub feature: Feature,
}

/// What the cell holding `cell`, in row `i` and column `j`, gets: 1 and 5
/// are walls, 2 an arch, 3 a tree, 4 a house; anything else stays empty.
pub open spec fn cell_feature_spec(cell: i32, i: usize, j: usize) -> Option<Feature> {
    if cell == 1 || cell == 5 {
        Some(Feature::Wall)
    } else if cell == 2 {
        Some(Feature::Arch(arch_placement_spec(i, j)))
    } else if cell == 3 {
        Some(Feature::Tree)
    } else if cell == 4 {
        Some(Feature::House(house_style_spec(j, i)))
    } else {
        None
    }
}

/// What the cell holding `cell`, in row `i` and column `j`, gets.
pub fn cell_feature(cell: i32, i: usize, j: usize) -> (f: Option<Feature>)
    ensures
        f == cell_feature_spec(cell, i, j),
{
    if cell == 1 || cell == 5 {
        Some(Feature::Wall)
    } else if cell == 2 {
        Some(Feature::Arch(arch_placement(i, j)))
    } else if cell == 3 {
        Some(Feature::Tree)
    } else if cell == 4 {
        Some(Feature::House(house_style(j, i)))
    } else {
        None
    }
}

/// The placements of the first cells `row` of the maze's row `i`, left to right.
pub open spec fn row_plan(row: Seq<i32>, i: usize) -> Seq<Placement>
    decreases row.len(),
{
    if row.len() == 0 {
        seq![]
    } else {
        let rest = row_plan(row.drop_last(), i);
        match cell_feature_spec(row.last(), i, (row.len() - 1) as usize) {
            Some(f) => rest.push(Placement { row: i, col: (row.len() - 1) as usize, feature: f }),
            None => rest,
        }
    }
}

/// The placements of the whole maze, row after row.
pub open spec fn maze_plan(grid: Seq<Seq<i32>>) -> Seq<Placement>
    decreases grid.len(),
{
    if grid.len() == 0 {
        seq![]
    } else {
        maze_plan(grid.drop_last()) + row_plan(grid.last(), (grid.len() - 1) as usize)
    }
}

/// Every placement of a row's plan sits in that row, at a column of the row
/// whose cell asks for it; see [`law_plan_follows_the_grid`].
proof fn lemma_row_plan_follows_the_row(row: Seq<i32>, i: usize)
    requires
        row.len() <= usize::MAX + 1,
    ensures
        forall|k: int|
            0 <= k < row_plan(row, i).len() ==> {
                let p = #[trigger] row_plan(row, i)[k];
                &&& p.row == i
                &&& p.col < row.len()
                &&& (row[p.col as int] == 4 <==> p.feature is House)
                &&& row[p.col as int] == 4 ==> p.feature == Feature::House(house_style_spec(p.col, p.row))
                &&& (row[p.col as int] == 3 <==> p.feature is Tree)
                &&& (row[p.col as int] == 2 <==> p.feature is Arch)
                &&& (row[p.col as int] == 1 || row[p.col as int] == 5 <==> p.feature is Wall)
            },
    decreases row.len(),
{
    if row.len() > 0 {
        let prev = row.drop_last();
        lemma_row_plan_follows_the_row(prev, i);
        let rest = row_plan(prev, i);
        let j = (row.len() - 1) as usize;
        assert(j as int == row.len() - 1);
        assert forall|k: int| 0 <= k < row_plan(row, i).len() implies {
            let p = #[trigger] row_plan(row, i)[k];
            &&& p.row == i
            &&& p.col < row.len()
            &&& (row[p.col as int] == 4 <==> p.feature is House)
            &&& row[p.col as int] == 4 ==> p.feature == Feature::House(house_style_spec(p.col, p.row))
            &&& (row[p.col as int] == 3 <==> p.feature is Tree)
            &&& (row[p.col as int] == 2 <==> p.feature is Arch)
            &&& (row[p.col as int] == 1 || row[p.col as int] == 5 <==> p.feature is Wall)
        } by {
            if k < rest.len() {
                assert(row_plan(row, i)[k] == rest[k]);
                assert(row[rest[k].col as int] == prev[rest[k].col as int]);
            } else {
                let f = cell_feature_spec(row.last(), i, j);
                assert(f is Some);
                assert(row_plan(row, i)[k] == Placement { row: i, col: j, feature: f->0 });
                assert(row[j as int] == row.last());
            }
        }
    }
}

/// The plan follows the grid: every placement lies in a cell of the grid
/// whose code asks for it: a house stands exactly on a 4, a tree on a 3, an
/// arch on a 2 and a wall on a 1 or a 5. The house in row `i`, column `j`
/// wears the facade that [`house_style_spec`] gives for `x` the column `j`
/// and `z` the row `i`.
pub proof fn law_plan_follows_the_grid(grid: Seq<Seq<i32>>)
    requires
        grid.len() <= usize::MAX + 1,
        forall|r: int| 0 <= r < grid.len() ==> #[trigger] grid[r].len() <= usize::MAX + 1,
    ensures
        forall|k: int|
            0 <= k < maze_plan(grid).len() ==> {
                let p = #[trigger] maze_plan(grid)[k];
                &&& p.row < grid.len()
                &&& p.col < grid[p.row as int].len()
                &&& (grid[p.row as int][p.col as int] == 4 <==> p.feature is House)
                &&& grid[p.row as int][p.col as int] == 4 ==> p.feature == Feature::House(
                    house_style_spec(p.col, p.row),
                )
                &&& (grid[p.row as int][p.col as int] == 3 <==> p.feature is Tree)
                &&& (grid[p.row as int][p.col as int] == 2 <==> p.feature is Arch)
                &&& (grid[p.row as int][p.col as int] == 1 || grid[p.row as int][p.col as int] == 5
                    <==> p.feature is Wall)
            },
    decreases grid.len(),
{
    if grid.len() > 0 {
        let prev = grid.drop_last();
        let i = (grid.len() - 1) as usize;
        law_plan_follows_the_grid(prev);
        lemma_row_plan_follows_the_row(grid.last(), i);
        let a = maze_plan(prev);
        let b = row_plan(grid.last(), i);
        assert forall|k: int| 0 <= k < maze_plan(grid).len() implies {
            let p = #[trigger] maze_plan(grid)[k];
            &&& p.row < grid.len()
            &&& p.col < grid[p.row as int].len()
            &&& (grid[p.row as int][p.col as int] == 4 <==> p.feature is House)
            &&& grid[p.row as int][p.col as int] == 4 ==> p.feature == Feature::House(
                house_style_spec(p.col, p.row),
            )
            &&& (grid[p.row as int][p.col as int] == 3 <==> p.feature is Tree)
            &&& (grid[p.row as int][p.col as int] == 2 <==> p.feature is Arch)
            &&& (grid[p.row as int][p.col as int] == 1 || grid[p.row as int][p.col as int] == 5
                <==> p.feature is Wall)
        } by {
            if k < a.len() {
                assert(maze_plan(grid)[k] == a[k]);
                assert(grid[a[k].row as int] == prev[a[k].row as int]);
            } else {
                assert(maze_plan(grid)[k] == b[k - a.len()]);
                assert(b[k - a.len()].row == i);
                assert(grid[i as int] == grid.last());
            }
        }
    }
}

/// Height (number of rows) and width (length of the first row) of the maze.
pub fn calculate_maze_dimensions(maze: &Vec<Vec<i32>>) -> (dims: (usize, usize))
    requires
        maze@.len() > 0,
    ensures
        dims.0 == maze@.len(),
        dims.1 == maze@[0]@.len(),
{
    (maze.len(), maze[0].len())
}

/// What the maze builds, cell by cell: every wall, arch, tree and house with
/// its cell, in reading order.
pub fn plan_maze(maze: &Vec<Vec<i32>>) -> (plan: Vec<Placement>)
    ensures
        plan@ == maze_plan(maze.deep_view()),
{
    let mut plan: Vec<Placement> = Vec::new();
    let mut i: usize = 0;
    let ghost grid = maze.deep_view();
    while i < maze.len()
        invariant
            grid == maze.deep_view(),
            i <= grid.len(),
            plan@ == maze_plan(grid.take(i as int)),
        decreases grid.len() - i,
    {
        let row = &maze[i];
        assert(row@ == grid[i as int]);
        let mut j: usize = 0;
        while j < row.len()
            invariant
                grid == maze.deep_view(),
                i < grid.len(),
                row@ == grid[i as int],
                j <= row@.len(),
                plan@ == maze_plan(grid.take(i as int)) + row_plan(row@.take(j as int), i),
            decreases row@.len() - j,
        {
            proof {
                assert(row@.take(j + 1).drop_last() =~= row@.take(j as int));
                assert(row@.take(j + 1).last() == row@[j as int]);
            }
            match cell_feature(row[j], i, j) {
                Some(f) => {
                    plan.push(Placement { row: i, col: j, feature: f });
                },
                None => {},
            }
            proof {
                assert(plan@ =~= maze_plan(grid.take(i as int)) + row_plan(row@.take(j + 1), i));
            }
            j += 1;
        }
        proof {
            assert(row@.take(row@.len() as int) =~= row@);
            assert(grid.take(i + 1).drop_last() =~= grid.take(i as int));
            assert(grid.take(i + 1).last() == grid[i as int]);
        }
        i += 1;
    }
    assert(grid.take(grid.len() as int) =~= grid);
    plan
}

/// Whether a cell shows as floor on the minimap: empty cells (0) and arches
/// (2) do, everything else shows as wall.
pub fn is_minimap_floor(cell: i32) -> (b: bool)
    ensures
        b == (cell == 2 || cell == 0),
{
    cell == 2 || cell == 0
}

} // verus!
