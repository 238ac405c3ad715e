//! The level maps and the brick layout they describe.
use vstd::prelude::*;
use crate::prelude::VRect;

verus! {

/// Where a brick of a level map is placed: the map cell it comes from, the
/// region it occupies and the row of the tile sheet that draws it.
#[derive(Clone, Copy, Debug, PartialEq, Eq, Structural)]
pub struct BrickPlan {
    pub row: usize,
    pub col: usize,
    pub region: VRect,
    pub tile_y: i32,
}

/// The tile-sheet row of a brick colour: blue, orange, red and green bricks;
/// any other cell holds no brick.
pub open spec fn spec_tile_y(color: char) -> Option<i32> {
    if color == 'b' {
        Some(0i32)
    } else if color == 'o' {
        Some(16i32)
    } else if color == 'r' {
        Some(32i32)
    } else if color == 'g' {
        Some(48i32)
    } else {
        None
    }
}

/// The tile-sheet row of the brick that a map cell holds, if it holds one.
pub fn brick_tile_y(color: char) -> (t: Option<i32>)
    ensures
        t == spec_tile_y(color),
{
    match color {
        'b' => Some(0),
        'o' => Some(16),
        'r' => Some(32),
        'g' => Some(48),
        _ => None,
    }
}

/// The brick of map cell `(row, col)`: cells are 32 wide and 16 high, the
/// first cell is centred on (54, 331) and rows go down the playfield.
pub open spec fn spec_plan_at(row: int, col: int, tile_y: i32) -> BrickPlan {
    BrickPlan {
        row: row as usize,
        col: col as usize,
        region: VRect { x: (54 + 32 * col) as i32, y: (331 - 16 * row) as i32, x_radius: 16, y_radius: 8 },
        tile_y,
    }
}

/// The bricks of one map row, left to right.
pub open spec fn row_plan(cells: Seq<char>, row: int) -> Seq<BrickPlan>
    decreases cells.len(),
{
    if cells.len() == 0 {
        Seq::empty()
    } else {
        let rest = row_plan(cells.drop_last(), row);
        match spec_tile_y(cells.last()) {
            Some(t) => rest.push(spec_plan_at(row, cells.len() - 1, t)),
            None => rest,
        }
    }
}

/// The bricks of a level map, row by row from the top, each row left to right.
pub open spec fn level_plan(grid: Seq<Seq<char>>) -> Seq<BrickPlan>
    decreases grid.len(),
{
    if grid.len() == 0 {
        Seq::empty()
    } else {
        level_plan(grid.drop_last()) + row_plan(grid.last(), grid.len() - 1)
    }
}

/// Every brick of the map has coordinates that a 32-bit position can hold.
pub open spec fn layout_fits(grid: Seq<Seq<char>>) -> bool {
    &&& 331 - 16 * grid.len() >= i32::MIN
    &&& forall|i: int| 0 <= i < grid.len() ==> 54 + 32 * (#[trigger] grid[i]).len() <= i32::MAX
}

pub(crate) proof fn lemma_take_step<T>(s: Seq<T>, n: int)
    requires
        0 <= n < s.len(),
    ensures
        s.take(n + 1).drop_last() == s.take(n),
        s.take(n + 1).last() == s[n],
        s.take(n + 1).len() == n + 1,
{
    assert(s.take(n + 1).drop_last() =~= s.take(n));
}

/// The bricks that a level map describes, in map order.
pub fn brick_layout(level: &Vec<Vec<char>>) -> (plan: Vec<BrickPlan>)
    requires
        layout_fits(level.deep_view()),
    ensures
        plan@ == level_plan(level.deep_view()),
{
    let ghost grid = level.deep_view();
    let mut bricks: Vec<BrickPlan> = Vec::new();
    let mut i: usize = 0;
    while i < level.len()
        invariant
            grid == level.deep_view(),
            layout_fits(grid),
            i <= level.len(),
            bricks@ == level_plan(grid.take(i as int)),
        decreases level.len() - i,
    {
        let row = &level[i];
        let ghost cells = row@;
        assert(grid[i as int] == cells);
        assert(54 + 32 * grid[i as int].len() <= i32::MAX);
        let y: i32 = (331 - 16 * (i as i64)) as i32;
        let mut c: usize = 0;
        while c < row.len()
            invariant
                grid == level.deep_view(),
                layout_fits(grid),
                i < level.len(),
                row@ == cells,
                cells == grid[i as int],
                54 + 32 * cells.len() <= i32::MAX,
                y == 331 - 16 * i,
                c <= row.len(),
                bricks@ == level_plan(grid.take(i as int)) + row_plan(cells.take(c as int), i as int),
            decreases row.len() - c,
        {
            proof {
                lemma_take_step(cells, c as int);
            }
            let color = row[c];
            match brick_tile_y(color) {
                Some(t) => {
                    let x: i32 = (54 + 32 * (c as i64)) as i32;
                    let plan = BrickPlan { row: i, col: c, region: VRect::new(x, y, 16, 8), tile_y: t };
                    assert(plan == spec_plan_at(i as int, c as int, t));
                    bricks.push(plan);
                    assert(bricks@ =~= level_plan(grid.take(i as int)) + row_plan(cells.take(c + 1), i as int));
                },
                None => {
                    assert(bricks@ =~= level_plan(grid.take(i as int)) + row_plan(cells.take(c + 1), i as int));
                },
            }
            c += 1;
        }
        proof {
            lemma_take_step(grid, i as int);
            assert(cells.take(c as int) =~= cells);
        }
        i += 1;
    }
    assert(grid.take(level.len() as int) =~= grid);
    bricks
}

/// Two regions share no interior point: they may touch along an edge.
pub open spec fn regions_disjoint(a: VRect, b: VRect) -> bool {
    ||| a.right() <= b.left()
    ||| b.right() <= a.left()
    ||| a.top() <= b.bottom()
    ||| b.top() <= a.bottom()
}

/// A planned brick sits on a coloured cell of the map, with that cell's
/// colour and that cell's place on the playfield.
pub open spec fn plan_on_cell(p: BrickPlan, grid: Seq<Seq<char>>) -> bool {
    &&& p.row < grid.len()
    &&& p.col < grid[p.row as int].len()
    &&& spec_tile_y(grid[p.row as int][p.col as int]) == Some(p.tile_y)
    &&& p == spec_plan_at(p.row as int, p.col as int, p.tile_y)
}

proof fn lemma_row_plan(cells: Seq<char>, row: int)
    requires
        54 + 32 * cells.len() <= i32::MAX,
        0 <= row <= 134217748,
    ensures
        ({
            let plan = row_plan(cells, row);
            &&& forall|k: int|
                #![trigger plan[k]]
                0 <= k < plan.len() ==> {
                    &&& plan[k].row == row
                    &&& plan[k].col < cells.len()
                    &&& spec_tile_y(cells[plan[k].col as int]) == Some(plan[k].tile_y)
                    &&& plan[k] == spec_plan_at(row, plan[k].col as int, plan[k].tile_y)
                }
            &&& forall|k1: int, k2: int|
                #![trigger plan[k1], plan[k2]]
                0 <= k1 < k2 < plan.len() ==> plan[k1].col < plan[k2].col
            &&& forall|c: int|
                0 <= c < cells.len() && (#[trigger] spec_tile_y(cells[c])) is Some ==> exists|k: int|
                    0 <= k < plan.len() && plan[k].col == c
        }),
    decreases cells.len(),
{
    if cells.len() > 0 {
        let rest_cells = cells.drop_last();
        lemma_row_plan(rest_cells, row);
        let rest = row_plan(rest_cells, row);
        let plan = row_plan(cells, row);
        let last = cells.len() - 1;
        assert forall|c: int|
            0 <= c < cells.len() && (#[trigger] spec_tile_y(cells[c])) is Some implies exists|k: int|
                0 <= k < plan.len() && plan[k].col == c by {
            if c < last {
                assert(rest_cells[c] == cells[c]);
                assert(spec_tile_y(rest_cells[c]) is Some);
                let k = choose|k: int| 0 <= k < rest.len() && rest[k].col == c;
                assert(plan[k] == rest[k]);
            } else {
                assert(plan[rest.len() as int].col == c);
            }
        }
        assert forall|k: int| 0 <= k < rest.len() implies #[trigger] rest[k].col < last
            && rest_cells[rest[k].col as int] == cells[rest[k].col as int] by {}
    }
}

proof fn lemma_level_plan(grid: Seq<Seq<char>>)
    requires
        layout_fits(grid),
    ensures
        ({
            let plan = level_plan(grid);
            &&& forall|k: int| 0 <= k < plan.len() ==> plan_on_cell(#[trigger] plan[k], grid)
            &&& forall|k1: int, k2: int|
                #![trigger plan[k1], plan[k2]]
                0 <= k1 < k2 < plan.len() ==> plan[k1].row < plan[k2].row || (plan[k1].row == plan[k2].row
                    && plan[k1].col < plan[k2].col)
            &&& forall|i: int, c: int|
                0 <= i < grid.len() && 0 <= c < grid[i].len() && (#[trigger] spec_tile_y(grid[i][c])) is Some
                    ==> exists|k: int| 0 <= k < plan.len() && plan[k].row == i && plan[k].col == c
        }),
    decreases grid.len(),
{
    if grid.len() > 0 {
        let rest_grid = grid.drop_last();
        let last = grid.len() - 1;
        assert(layout_fits(rest_grid)) by {
            assert forall|i: int| 0 <= i < rest_grid.len() implies 54 + 32 * (#[trigger] rest_grid[i]).len()
                <= i32::MAX by {
                assert(rest_grid[i] == grid[i]);
            }
        }
        lemma_level_plan(rest_grid);
        assert(54 + 32 * grid[last].len() <= i32::MAX);
        lemma_row_plan(grid.last(), last);
        let rest = level_plan(rest_grid);
        let tail = row_plan(grid.last(), last);
        let plan = level_plan(grid);
        assert(plan == rest + tail);
        assert forall|k: int| 0 <= k < plan.len() implies plan_on_cell(#[trigger] plan[k], grid) by {
            if k < rest.len() {
                assert(plan[k] == rest[k]);
                assert(plan_on_cell(rest[k], rest_grid));
                assert(rest_grid[rest[k].row as int] == grid[rest[k].row as int]);
            } else {
                assert(plan[k] == tail[k - rest.len()]);
                assert(tail[k - rest.len()].row == last);
            }
        }
        assert forall|k1: int, k2: int|
            #![trigger plan[k1], plan[k2]]
            0 <= k1 < k2 < plan.len() implies plan[k1].row < plan[k2].row || (plan[k1].row == plan[k2].row
                && plan[k1].col < plan[k2].col) by {
            if k2 < rest.len() {
                assert(plan[k1] == rest[k1] && plan[k2] == rest[k2]);
            } else if k1 < rest.len() {
                assert(plan[k1] == rest[k1]);
                assert(plan_on_cell(rest[k1], rest_grid));
                assert(plan[k2] == tail[k2 - rest.len()]);
                assert(tail[k2 - rest.len()].row == last);
            } else {
                assert(plan[k1] == tail[k1 - rest.len()] && plan[k2] == tail[k2 - rest.len()]);
            }
        }
        assert forall|i: int, c: int|
            0 <= i < grid.len() && 0 <= c < grid[i].len() && (#[trigger] spec_tile_y(grid[i][c])) is Some
                implies exists|k: int| 0 <= k < plan.len() && plan[k].row == i && plan[k].col == c by {
            if i < last {
                assert(rest_grid[i] == grid[i]);
                assert(spec_tile_y(rest_grid[i][c]) is Some);
                let k = choose|k: int| 0 <= k < rest.len() && rest[k].row == i && rest[k].col == c;
                assert(plan[k] == rest[k]);
            } else {
                assert(grid.last()[c] == grid[i][c]);
                assert(spec_tile_y(grid.last()[c]) is Some);
                let j = choose|j: int| 0 <= j < tail.len() && tail[j].col == c;
                assert(plan[rest.len() + j] == tail[j]);
            }
        }
    }
}

/// The bricks of a level are exactly the coloured cells of its map: each
/// brick sits on a coloured cell with that cell's colour and place, and each
/// coloured cell holds a brick.
pub proof fn lemma_layout_matches_map(grid: Seq<Seq<char>>)
    requires
        layout_fits(grid),
    ensures
        forall|k: int| 0 <= k < level_plan(grid).len() ==> plan_on_cell(#[trigger] level_plan(grid)[k], grid),
        forall|i: int, c: int|
            0 <= i < grid.len() && 0 <= c < grid[i].len() && (#[trigger] spec_tile_y(grid[i][c])) is Some
                ==> exists|k: int|
                0 <= k < level_plan(grid).len() && level_plan(grid)[k].row == i && level_plan(grid)[k].col == c,
{
    lemma_level_plan(grid);
}

/// Each brick of a map stands on its cell: 32 wide and 16 high, centred at
/// (54 + 32 col, 331 - 16 row); a blue cell gives a brick drawn from tile row
/// 0, orange from 16, red from 32 and green from 48; and every cell of one of
/// those colours, and no other, holds a brick. Bricks come row by row from the
/// top, each row left to right.
pub proof fn lemma_brick_places(grid: Seq<Seq<char>>)
    requires
        layout_fits(grid),
    ensures
        forall|k: int|
            0 <= k < level_plan(grid).len() ==> {
                let p = #[trigger] level_plan(grid)[k];
                let cell = grid[p.row as int][p.col as int];
                &&& p.row < grid.len() && p.col < grid[p.row as int].len()
                &&& p.region.x == 54 + 32 * p.col && p.region.y == 331 - 16 * p.row
                &&& p.region.x_radius == 16 && p.region.y_radius == 8
                &&& (cell == 'b' && p.tile_y == 0) || (cell == 'o' && p.tile_y == 16) || (cell == 'r' && p.tile_y
                    == 32) || (cell == 'g' && p.tile_y == 48)
            },
        forall|i: int, c: int|
            0 <= i < grid.len() && 0 <= c < grid[i].len() && (grid[i][c] == 'b' || grid[i][c] == 'o' || grid[i][c]
                == 'r' || grid[i][c] == 'g') ==> exists|k: int|
                0 <= k < level_plan(grid).len() && (#[trigger] level_plan(grid)[k]).row == i && level_plan(grid)[k].col
                    == c,
        forall|k1: int, k2: int|
            0 <= k1 < k2 < level_plan(grid).len() ==> (#[trigger] level_plan(grid)[k1]).row < (
            #[trigger] level_plan(grid)[k2]).row || (level_plan(grid)[k1].row == level_plan(grid)[k2].row
                && level_plan(grid)[k1].col < level_plan(grid)[k2].col),
{
    lemma_level_plan(grid);
    let plan = level_plan(grid);
    assert forall|k: int| 0 <= k < plan.len() implies {
        let p = #[trigger] plan[k];
        p.region.x == 54 + 32 * p.col && p.region.y == 331 - 16 * p.row
    } by {
        let p = plan[k];
        assert(plan_on_cell(p, grid));
        assert(54 + 32 * grid[p.row as int].len() <= i32::MAX);
    }
    assert forall|i: int, c: int|
        0 <= i < grid.len() && 0 <= c < grid[i].len() && (grid[i][c] == 'b' || grid[i][c] == 'o' || grid[i][c] == 'r'
            || grid[i][c] == 'g') implies exists|k: int|
        0 <= k < plan.len() && (#[trigger] plan[k]).row == i && plan[k].col == c by {
        assert(spec_tile_y(grid[i][c]) is Some);
    }
}

/// No two bricks of a level overlap: their regions share at most an edge.
pub proof fn lemma_bricks_do_not_overlap(grid: Seq<Seq<char>>)
    requires
        layout_fits(grid),
    ensures
        forall|k1: int, k2: int|
            0 <= k1 < level_plan(grid).len() && 0 <= k2 < level_plan(grid).len() && k1 != k2
                ==> regions_disjoint(
                #[trigger] level_plan(grid)[k1].region,
                #[trigger] level_plan(grid)[k2].region,
            ),
{
    lemma_level_plan(grid);
    let plan = level_plan(grid);
    assert forall|k1: int, k2: int|
        0 <= k1 < plan.len() && 0 <= k2 < plan.len() && k1 != k2 implies regions_disjoint(
        #[trigger] plan[k1].region,
        #[trigger] plan[k2].region,
    ) by {
        let (a, b) = if k1 < k2 { (plan[k1], plan[k2]) } else { (plan[k2], plan[k1]) };
        assert(plan_on_cell(a, grid) && plan_on_cell(b, grid));
        assert(54 + 32 * grid[a.row as int].len() <= i32::MAX);
        assert(54 + 32 * grid[b.row as int].len() <= i32::MAX);
        assert(a.region.x == 54 + 32 * a.col);
        assert(b.region.x == 54 + 32 * b.col);
        assert(a.region.y == 331 - 16 * a.row);
        assert(b.region.y == 331 - 16 * b.row);
    }
}

/// The four level maps: one row of cells per line, `X` for an empty cell.
pub open spec fn spec_map_levels() -> Seq<Seq<Seq<char>>> {
    seq![
        seq![
            seq!['X', 'X', 'g', 'o', 'g', 'X', 'X'],
            seq!['o', 'b', 'g', 'g', 'g', 'b', 'o'],
            seq!['X', 'b', 'b', 'b', 'b', 'b', 'X'],
        ],
        seq![
            seq!['X', 'g', 'o', 'g', 'o', 'g', 'X'],
            seq!['X', 'b', 'b', 'b', 'b', 'b', 'X'],
            seq!['g', 'b', 'r', 'b', 'r', 'b', 'g'],
            seq!['g', 'b', 'b', 'b', 'b', 'b', 'g'],
            seq!['g', 'b', 'X', 'X', 'X', 'b', 'g'],
            seq!['X', 'b', 'b', 'b', 'b', 'b', 'X'],
        ],
        seq![
            seq!['X', 'b', 'X', 'g', 'X', 'b', 'X'],
            seq!['b', 'X', 'b', 'o', 'b', 'X', 'b'],
            seq!['b', 'g', 'b', 'o', 'b', 'g', 'b'],
            seq!['b', 'X', 'b', 'o', 'b', 'X', 'b'],
            seq!['X', 'b', 'X', 'X', 'X', 'b', 'X'],
            seq!['r', 'X', 'r', 'X', 'r', 'X', 'r'],
        ],
        seq![
            seq!['r', 'g', 'o', 'b', 'r', 'g', 'o'],
            seq!['b', 'X', 'X', 'X', 'X', 'X', 'X'],
            seq!['o', 'X', 'o', 'b', 'r', 'g', 'o'],
            seq!['g', 'X', 'g', 'X', 'X', 'X', 'b'],
            seq!['r', 'X', 'r', 'X', 'r', 'X', 'r'],
            seq!['b', 'X', 'b', 'o', 'g', 'X', 'g'],
            seq!['o', 'X', 'X', 'X', 'X', 'X', 'o'],
            seq!['g', 'r', 'b', 'o', 'g', 'r', 'b'],
        ],
    ]
}

/// The level maps that the game is played through, in order.
pub fn map_levels() -> (levels: Vec<Vec<Vec<char>>>)
    ensures
        levels.deep_view() == spec_map_levels(),
{
    let levels = vec![
        vec![
            vec!['X', 'X', 'g', 'o', 'g', 'X', 'X'],
            vec!['o', 'b', 'g', 'g', 'g', 'b', 'o'],
            vec!['X', 'b', 'b', 'b', 'b', 'b', 'X'],
        ],
        vec![
            vec!['X', 'g', 'o', 'g', 'o', 'g', 'X'],
            vec!['X', 'b', 'b', 'b', 'b', 'b', 'X'],
            vec!['g', 'b', 'r', 'b', 'r', 'b', 'g'],
            vec!['g', 'b', 'b', 'b', 'b', 'b', 'g'],
            vec!['g', 'b', 'X', 'X', 'X', 'b', 'g'],
            vec!['X', 'b', 'b', 'b', 'b', 'b', 'X'],
        ],
        vec![
            vec!['X', 'b', 'X', 'g', 'X', 'b', 'X'],
            vec!['b', 'X', 'b', 'o', 'b', 'X', 'b'],
            vec!['b', 'g', 'b', 'o', 'b', 'g', 'b'],
            vec!['b', 'X', 'b', 'o', 'b', 'X', 'b'],
            vec!['X', 'b', 'X', 'X', 'X', 'b', 'X'],
            vec!['r', 'X', 'r', 'X', 'r', 'X', 'r'],
        ],
        vec![
            vec!['r', 'g', 'o', 'b', 'r', 'g', 'o'],
            vec!['b', 'X', 'X', 'X', 'X', 'X', 'X'],
            vec!['o', 'X', 'o', 'b', 'r', 'g', 'o'],
            vec!['g', 'X', 'g', 'X', 'X', 'X', 'b'],
            vec!['r', 'X', 'r', 'X', 'r', 'X', 'r'],
            vec!['b', 'X', 'b', 'o', 'g', 'X', 'g'],
            vec!['o', 'X', 'X', 'X', 'X', 'X', 'o'],
            vec!['g', 'r', 'b', 'o', 'g', 'r', 'b'],
        ],
    ];
    assert(levels.deep_view() =~~= spec_map_levels());
    levels
}

/// Every map of the game fits the brick layout's coordinates.
pub proof fn lemma_maps_fit()
    ensures
        spec_map_levels().len() == 4,
        forall|n: int| 0 <= n < spec_map_levels().len() ==> layout_fits(#[trigger] spec_map_levels()[n]),
{
    let maps = spec_map_levels();
    assert forall|n: int| 0 <= n < maps.len() implies layout_fits(#[trigger] maps[n]) by {
        assert(maps[n].len() <= 8);
        assert forall|i: int| 0 <= i < maps[n].len() implies 54 + 32 * (#[trigger] maps[n][i]).len() <= i32::MAX by {
            assert(maps[n][i].len() == 7);
        }
    }
}

/// The four maps, written one string per row: "letsa begin", "how's it
/// going?", "tie fighta!" and "swirl", with `X` for an empty cell and `b`,
/// `o`, `r`, `g` for a blue, orange, red or green brick.
pub proof fn lemma_maps_read_as_rows()
    ensures
        spec_map_levels() =~~= seq![
            seq!["XXgogXX"@, "obgggbo"@, "XbbbbbX"@],
            seq!["XgogogX"@, "XbbbbbX"@, "gbrbrbg"@, "gbbbbbg"@, "gbXXXbg"@, "XbbbbbX"@],
            seq!["XbXgXbX"@, "bXbobXb"@, "bgbobgb"@, "bXbobXb"@, "XbXXXbX"@, "rXrXrXr"@],
            seq!["rgobrgo"@, "bXXXXXX"@, "oXobrgo"@, "gXgXXXb"@, "rXrXrXr"@, "bXbogXg"@, "oXXXXXo"@, "grbogrb"@],
        ],
{
    reveal_strlit("XXgogXX");
    reveal_strlit("XbXXXbX");
    reveal_strlit("XbXgXbX");
    reveal_strlit("XbbbbbX");
    reveal_strlit("XgogogX");
    reveal_strlit("bXXXXXX");
    reveal_strlit("bXbobXb");
    reveal_strlit("bXbogXg");
    reveal_strlit("bgbobgb");
    reveal_strlit("gXgXXXb");
    reveal_strlit("gbXXXbg");
    reveal_strlit("gbbbbbg");
    reveal_strlit("gbrbrbg");
    reveal_strlit("grbogrb");
    reveal_strlit("oXXXXXo");
    reveal_strlit("oXobrgo");
    reveal_strlit("obgggbo");
    reveal_strlit("rXrXrXr");
    reveal_strlit("rgobrgo");
}

/// The fourth map's second row holds one brick, blue, in its first column:
/// laid out, it is the brick centred on (54, 315) drawn from the first row of
/// the tile sheet, and the cell beside it is empty.
pub proof fn lemma_fourth_map_second_row()
    ensures
        exists|k: int|
            0 <= k < level_plan(spec_map_levels()[3]).len() && #[trigger] level_plan(spec_map_levels()[3])[k] == (
            BrickPlan {
                row: 1,
                col: 0,
                region: VRect { x: 54, y: 315, x_radius: 16, y_radius: 8 },
                tile_y: 0,
            }),
        forall|k: int|
            0 <= k < level_plan(spec_map_levels()[3]).len() ==> !(#[trigger] level_plan(spec_map_levels()[3])[k].row
                == 1 && level_plan(spec_map_levels()[3])[k].col == 1),
{
    lemma_maps_read_as_rows();
    lemma_maps_fit();
    let grid = spec_map_levels()[3];
    lemma_layout_matches_map(grid);
    reveal_strlit("bXXXXXX");
    assert(grid[1][0] == 'b');
    assert(grid[1][1] == 'X');
    assert(spec_tile_y(grid[1][0]) is Some);
    let k = choose|k: int| 0 <= k < level_plan(grid).len() && level_plan(grid)[k].row == 1 && level_plan(grid)[k].col == 0;
    assert(plan_on_cell(level_plan(grid)[k], grid));
    assert forall|k: int| 0 <= k < level_plan(grid).len() implies !(#[trigger] level_plan(grid)[k].row == 1
        && level_plan(grid)[k].col == 1) by {
        assert(plan_on_cell(level_plan(grid)[k], grid));
    }
}

/// The maps hold 15, 33, 26 and 35 bricks.
pub proof fn lemma_brick_counts()
    ensures
        level_plan(spec_map_levels()[0]).len() == 15,
        level_plan(spec_map_levels()[1]).len() == 33,
        level_plan(spec_map_levels()[2]).len() == 26,
        level_plan(spec_map_levels()[3]).len() == 35,
{
    reveal_with_fuel(row_plan, 8);
    reveal_with_fuel(level_plan, 9);
    let m = spec_map_levels();
    assert(m[0].drop_last().drop_last().drop_last() =~= Seq::<Seq<char>>::empty());
}

} // verus!
