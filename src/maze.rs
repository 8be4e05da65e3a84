use vstd::prelude::*;

verus! {

/// A grid of cell symbols, one inner vector per row.
pub type Maze = Vec<Vec<char>>;

/// The symbol of a passable cell.
pub open spec fn is_empty_symbol(c: char) -> bool {
    c == ' '
}

/// The cell grid as rows of symbols.
pub open spec fn cells(m: &Maze) -> Seq<Seq<char>> {
    m@.map_values(|row: Vec<char>| row@)
}

/// Every row has the length of the first, and there is at least one cell.
pub open spec fn is_rectangular(g: Seq<Seq<char>>) -> bool {
    &&& g.len() > 0
    &&& g[0].len() > 0
    &&& forall|j: int| 0 <= j < g.len() ==> #[trigger] g[j].len() == g[0].len()
}

/// Cell indices `(i, j)` (column, row) lie inside the grid.
pub open spec fn in_grid(g: Seq<Seq<char>>, i: int, j: int) -> bool {
    0 <= j < g.len() && 0 <= i < g[j].len()
}

/// The cell that holds world point `(x, y)`: integer division by the cell size.
/// Negative coordinates fall outside every cell.
pub open spec fn cell_of(x: int, block_size: int) -> int {
    if x < 0 {
        -1
    } else {
        x / block_size
    }
}

/// A world point blocks when it lies outside the grid or in a non-empty cell.
pub open spec fn wall_at(g: Seq<Seq<char>>, block_size: int, x: int, y: int) -> bool {
    let i = cell_of(x, block_size);
    let j = cell_of(y, block_size);
    !in_grid(g, i, j) || !is_empty_symbol(g[j][i])
}

/// Why a map description was refused.
#[derive(Clone, Copy, Debug, PartialEq, Eq, Structural)]
pub enum MazeError {
    /// No rows, or a first row without cells.
    Empty,
    /// The row at this index differs in length from the first row.
    NotRectangular { row: usize },
}

/// Checks a map given as rows of symbols (one per text line) and takes it as the maze.
pub fn load_maze(rows: Vec<Vec<char>>) -> (r: Result<Maze, MazeError>)
    ensures
        (rows@.len() == 0 || rows@[0]@.len() == 0) ==> r == Err::<Maze, MazeError>(
            MazeError::Empty,
        ),
        (rows@.len() > 0 && rows@[0]@.len() > 0) ==> match r {
            Ok(m) => m@ == rows@ && is_rectangular(cells(&m)),
            Err(MazeError::NotRectangular { row }) => {
                &&& row < rows@.len()
                &&& rows@[row as int]@.len() != rows@[0]@.len()
                &&& forall|j: int| 0 <= j < row ==> #[trigger] rows@[j]@.len() == rows@[0]@.len()
            },
            Err(MazeError::Empty) => false,
        },
        r is Ok <==> is_rectangular(cells(&rows)),
{
    if rows.len() == 0 || rows[0].len() == 0 {
        return Err(MazeError::Empty);
    }
    let width = rows[0].len();
    let mut j: usize = 0;
    while j < rows.len()
        invariant
            rows@.len() > 0,
            width == rows@[0]@.len(),
            width > 0,
            j <= rows@.len(),
            forall|k: int| 0 <= k < j ==> #[trigger] rows@[k]@.len() == width,
        decreases rows@.len() - j,
    {
        if rows[j].len() != width {
            proof {
                assert(cells(&rows)[j as int].len() != cells(&rows)[0].len());
            }
            return Err(MazeError::NotRectangular { row: j });
        }
        j = j + 1;
    }
    proof {
        assert forall|k: int| 0 <= k < cells(&rows).len() implies #[trigger] cells(&rows)[k].len()
            == cells(&rows)[0].len() by {
            assert(rows@[k]@.len() == width);
        }
    }
    Ok(rows)
}

/// The cell indices `(column, row)` of world point `(x, y)`, if it lies in the grid.
pub fn grid_index(x: i64, y: i64, maze: &Maze, block_size: usize) -> (r: Option<(usize, usize)>)
    requires
        block_size > 0,
    ensures
        match r {
            Some((i, j)) => {
                &&& i == cell_of(x as int, block_size as int)
                &&& j == cell_of(y as int, block_size as int)
                &&& in_grid(cells(maze), i as int, j as int)
            },
            None => !in_grid(
                cells(maze),
                cell_of(x as int, block_size as int),
                cell_of(y as int, block_size as int),
            ),
        },
{
    if x < 0 || y < 0 {
        return None;
    }
    let i = x as u64 / block_size as u64;
    let j = y as u64 / block_size as u64;
    if j >= maze.len() as u64 {
        return None;
    }
    let row = &maze[j as usize];
    if i >= row.len() as u64 {
        return None;
    }
    Some((i as usize, j as usize))
}

/// Whether world point `(x, y)` blocks: outside the grid, or in a cell whose
/// symbol is not the empty one.
pub fn is_wall(x: i64, y: i64, maze: &Maze, block_size: usize) -> (r: bool)
    requires
        block_size > 0,
    ensures
        r == wall_at(cells(maze), block_size as int, x as int, y as int),
{
    match grid_index(x, y, maze, block_size) {
        None => true,
        Some((i, j)) => maze[j][i] != ' ',
    }
}

/// The symbol at world point `(x, y)`, if the point lies in the grid.
pub fn cell_at(x: i64, y: i64, maze: &Maze, block_size: usize) -> (r: Option<char>)
    requires
        block_size > 0,
    ensures
        r == (if in_grid(cells(maze), cell_of(x as int, block_size as int), cell_of(y as int, block_size as int)) {
            Some(cells(maze)[cell_of(y as int, block_size as int)][cell_of(x as int, block_size as int)])
        } else {
            None::<char>
        }),
{
    match grid_index(x, y, maze, block_size) {
        None => None,
        Some((i, j)) => Some(maze[j][i]),
    }
}

/// A point blocks exactly when it lies outside the grid or in a non-empty
/// cell: points in a wall cell block, points in an empty cell of the grid do
/// not, and points outside the grid on either axis block.
pub proof fn wall_at_by_cell(g: Seq<Seq<char>>, block_size: int, x: int, y: int)
    requires
        block_size > 0,
    ensures
        x >= 0 && y >= 0 && in_grid(g, x / block_size, y / block_size) ==> (wall_at(g, block_size, x, y)
            <==> g[y / block_size][x / block_size] != ' '),
        x < 0 || y < 0 || y / block_size >= g.len() ==> wall_at(g, block_size, x, y),
        x >= 0 && 0 <= y / block_size < g.len() && x / block_size >= g[y / block_size].len() ==> wall_at(
            g,
            block_size,
            x,
            y,
        ),
{
}

/// A line without the carriage return that ends it, if any.
pub open spec fn strip_cr(line: Seq<char>) -> Seq<char> {
    if line.len() > 0 && line.last() == '\r' {
        line.drop_last()
    } else {
        line
    }
}

/// The lines completed so far and the line in progress after reading the
/// first `n` characters of `text`.
pub open spec fn scan_lines(text: Seq<char>, n: int) -> (Seq<Seq<char>>, Seq<char>)
    decreases n,
{
    if n <= 0 {
        (Seq::empty(), Seq::empty())
    } else {
        let (rows, cur) = scan_lines(text, n - 1);
        if text[n - 1] == '\n' {
            (rows.push(strip_cr(cur)), Seq::empty())
        } else {
            (rows, cur.push(text[n - 1]))
        }
    }
}

/// The lines of `text`: split at each line feed, a carriage return right
/// before it dropped, with no empty line after a final line feed.
pub open spec fn lines_of(text: Seq<char>) -> Seq<Seq<char>> {
    let (rows, cur) = scan_lines(text, text.len() as int);
    if cur.len() == 0 {
        rows
    } else {
        rows.push(cur)
    }
}

fn finish_line(cur: Vec<char>) -> (r: Vec<char>)
    ensures
        r@ == strip_cr(cur@),
{
    let mut cur = cur;
    if cur.len() > 0 && cur[cur.len() - 1] == '\r' {
        cur.pop();
    }
    cur
}

/// Splits map text into rows of cell symbols, one per line.
pub fn split_lines(text: &Vec<char>) -> (rows: Vec<Vec<char>>)
    ensures
        rows@.map_values(|r: Vec<char>| r@) == lines_of(text@),
{
    let mut rows: Vec<Vec<char>> = Vec::new();
    let mut cur: Vec<char> = Vec::new();
    let mut i: usize = 0;
    while i < text.len()
        invariant
            i <= text@.len(),
            (rows@.map_values(|r: Vec<char>| r@), cur@) == scan_lines(text@, i as int),
        decreases text@.len() - i,
    {
        let c = text[i];
        let ghost before = rows@;
        if c == '\n' {
            let line = finish_line(cur);
            rows.push(line);
            cur = Vec::new();
            assert(rows@.map_values(|r: Vec<char>| r@) =~= before.map_values(|r: Vec<char>| r@).push(line@));
        } else {
            cur.push(c);
        }
        i = i + 1;
    }
    if cur.len() > 0 {
        let ghost before = rows@;
        rows.push(cur);
        assert(rows@.map_values(|r: Vec<char>| r@) =~= before.map_values(|r: Vec<char>| r@).push(cur@));
    }
    rows
}

/// Reads a map from its text: one row per line, one cell per character.
pub fn parse_maze(text: &Vec<char>) -> (r: Result<Maze, MazeError>)
    ensures
        r is Ok <==> is_rectangular(lines_of(text@)),
        r matches Ok(m) ==> cells(&m) == lines_of(text@),
{
    let rows = split_lines(text);
    assert(cells(&rows) == lines_of(text@));
    load_maze(rows)
}

} // verus!
