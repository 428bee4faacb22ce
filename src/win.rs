use vstd::prelude::*;

use crate::error::Error;

verus! {

/// Largest number of cells a single walk may visit.
pub const MAX_WALK_STEPS: usize = 1000;

/// Side length of the fixed boards scored by `calc_bingos`.
pub const CLASSIC_SIDE: usize = 5;

/// A line family on the board, named by the direction of its walk.
#[derive(Debug, Clone, Copy, PartialEq, Eq, Structural)]
pub enum Direction {
    Right,
    Down,
    RightDown,
    RightUp,
}

/// `n` is the side of a square board of `len` cells within the accepted sizes.
pub open spec fn is_side(len: int, n: int) -> bool {
    2 <= n <= 9 && n * n == len
}

/// `len` is the cell count of a board of accepted size.
pub open spec fn is_grid_len(len: int) -> bool {
    exists|n: int| is_side(len, n)
}

/// Offset between two consecutive cells of a walk.
pub open spec fn stride(d: Direction, n: int) -> int {
    match d {
        Direction::Right => 1,
        Direction::Down => n,
        Direction::RightDown => n + 1,
        Direction::RightUp => -(n - 1),
    }
}

/// Flat index of the `k`-th cell of the walk from `start`.
pub open spec fn cell(start: int, d: Direction, n: int, k: int) -> int {
    start + k * stride(d, n)
}

/// The `k`-th step of the walk stays on the board: inside the cell range,
/// not wrapping to a new row when going right, and never landing on the
/// first cell after a step up-right.
pub open spec fn on_grid(len: int, n: int, start: int, d: Direction, k: int) -> bool {
    let p = cell(start, d, n, k);
    &&& 0 <= p < len
    &&& (k > 0 && d == Direction::Right ==> p % n != 0)
    &&& (k > 0 && d == Direction::RightUp ==> p != 0)
}

/// Every step of the walk up to and including the `k`-th stays on the board.
pub open spec fn reached(len: int, n: int, start: int, d: Direction, k: int) -> bool {
    forall|i: int| 0 <= i <= k ==> #[trigger] on_grid(len, n, start, d, i)
}

/// The walk reaches its `k`-th step and lands there on a checked cell.
pub open spec fn lands(fields: Seq<bool>, n: int, start: int, d: Direction, k: int) -> bool {
    reached(fields.len() as int, n, start, d, k) && fields[cell(start, d, n, k)]
}

/// Checked cells met among the first `m` steps of the walk, counting only
/// steps that the walk actually reached.
pub open spec fn walk_hits(fields: Seq<bool>, n: int, start: int, d: Direction, m: int) -> nat
    decreases m,
{
    if m <= 0 {
        0
    } else {
        walk_hits(fields, n, start, d, m - 1) + if lands(fields, n, start, d, m - 1) {
            1nat
        } else {
            0nat
        }
    }
}

/// All `n` steps of the walk stay on the board and land on checked cells.
pub open spec fn is_line(fields: Seq<bool>, n: int, start: int, d: Direction) -> bool {
    forall|k: int|
        0 <= k < n ==> #[trigger] on_grid(fields.len() as int, n, start, d, k) && fields[cell(
            start,
            d,
            n,
            k,
        )]
}

/// A walk may start from a cell of the first row or of the first column.
pub open spec fn is_border(n: int, b: int) -> bool {
    b < n || b % n == 0
}

/// Completed lines in direction `d` that start from a border cell below `m`.
pub open spec fn lines_from(fields: Seq<bool>, n: int, d: Direction, m: int) -> nat
    decreases m,
{
    if m <= 0 {
        0
    } else {
        lines_from(fields, n, d, m - 1) + if is_border(n, m - 1) && is_line(fields, n, m - 1, d) {
            1nat
        } else {
            0nat
        }
    }
}

/// Completed lines of the board over the four directions, each started from
/// every border cell but the last cell of the board.
pub open spec fn line_count(fields: Seq<bool>, n: int) -> nat {
    let m = fields.len() - 1;
    lines_from(fields, n, Direction::Right, m) + lines_from(fields, n, Direction::Down, m)
        + lines_from(fields, n, Direction::RightDown, m) + lines_from(
        fields,
        n,
        Direction::RightUp,
        m,
    )
}

/// Every one of the first `count` cells `first`, `first + step`, ... is checked.
pub open spec fn strided_full(h: Seq<bool>, first: int, step: int, count: int) -> bool {
    forall|j: int| 0 <= j < count ==> #[trigger] h[first + j * step]
}

/// Full rows among the first `m` rows of an `n`-wide board.
pub open spec fn full_rows(h: Seq<bool>, n: int, m: int) -> nat
    decreases m,
{
    if m <= 0 {
        0
    } else {
        full_rows(h, n, m - 1) + if strided_full(h, (m - 1) * n, 1, n) {
            1nat
        } else {
            0nat
        }
    }
}

/// Full columns among the first `m` columns of an `n`-wide board.
pub open spec fn full_cols(h: Seq<bool>, n: int, m: int) -> nat
    decreases m,
{
    if m <= 0 {
        0
    } else {
        full_cols(h, n, m - 1) + if strided_full(h, m - 1, n, n) {
            1nat
        } else {
            0nat
        }
    }
}

/// Rows, columns and the two corner-to-corner diagonals that are full.
pub open spec fn classic_lines(h: Seq<bool>, n: int) -> nat {
    full_rows(h, n, n) + full_cols(h, n, n) + (if strided_full(h, 0, n + 1, n) {
        1nat
    } else {
        0nat
    }) + (if strided_full(h, n - 1, n - 1, n) {
        1nat
    } else {
        0nat
    })
}

proof fn lemma_side_unique(len: int, a: int, b: int)
    requires
        is_side(len, a),
        is_side(len, b),
    ensures
        a == b,
{
    if a < b {
        assert(a * a < b * b) by (nonlinear_arith)
            requires
                2 <= a < b,
        ;
    } else if b < a {
        assert(b * b < a * a) by (nonlinear_arith)
            requires
                2 <= b < a,
        ;
    }
}

proof fn lemma_side_square_bounds(n: int)
    requires
        2 <= n <= 9,
    ensures
        4 <= n * n <= 81,
{
    assert(4 <= n * n <= 81) by (nonlinear_arith)
        requires
            2 <= n <= 9,
    ;
}

proof fn lemma_hits_bounded(fields: Seq<bool>, n: int, start: int, d: Direction, m: int)
    requires
        0 <= m,
    ensures
        walk_hits(fields, n, start, d, m) <= m,
        walk_hits(fields, n, start, d, m) == m <==> forall|k: int|
            0 <= k < m ==> #[trigger] lands(fields, n, start, d, k),
    decreases m,
{
    if m > 0 {
        lemma_hits_bounded(fields, n, start, d, m - 1);
        if walk_hits(fields, n, start, d, m) == m {
            assert forall|k: int| 0 <= k < m implies #[trigger] lands(fields, n, start, d, k) by {
                if k < m - 1 {
                }
            }
        }
        if forall|k: int| 0 <= k < m ==> #[trigger] lands(fields, n, start, d, k) {
            assert(lands(fields, n, start, d, m - 1));
        }
    }
}

proof fn lemma_line_iff_lands(fields: Seq<bool>, n: int, start: int, d: Direction)
    ensures
        is_line(fields, n, start, d) <==> forall|k: int|
            0 <= k < n ==> #[trigger] lands(fields, n, start, d, k),
{
    let len = fields.len() as int;
    if is_line(fields, n, start, d) {
        assert forall|k: int| 0 <= k < n implies #[trigger] lands(fields, n, start, d, k) by {
            assert(on_grid(len, n, start, d, k));
            assert forall|i: int| 0 <= i <= k implies #[trigger] on_grid(len, n, start, d, i) by {
                assert(on_grid(len, n, start, d, i));
            }
        }
    }
    if forall|k: int| 0 <= k < n ==> #[trigger] lands(fields, n, start, d, k) {
        assert forall|k: int| 0 <= k < n implies #[trigger] on_grid(len, n, start, d, k)
            && fields[cell(start, d, n, k)] by {
            assert(lands(fields, n, start, d, k));
            assert(reached(len, n, start, d, k));
        }
    }
}

proof fn lemma_hits_stop(fields: Seq<bool>, n: int, start: int, d: Direction, k: int, m: int)
    requires
        0 <= k <= m,
        !on_grid(fields.len() as int, n, start, d, k),
    ensures
        walk_hits(fields, n, start, d, m) == walk_hits(fields, n, start, d, k),
    decreases m - k,
{
    if m > k {
        lemma_hits_stop(fields, n, start, d, k, m - 1);
        assert(!reached(fields.len() as int, n, start, d, m - 1));
    }
}

/// Grid side for a board of `field_amount` cells: the board must be square
/// with a side from 2 to 9.
pub fn grid_size(field_amount: usize) -> (r: Result<usize, Error>)
    ensures
        match r {
            Ok(n) => is_side(field_amount as int, n as int),
            Err(e) => e is InternalServer && !is_grid_len(field_amount as int),
        },
{
    let mut v: usize = 2;
    while v < 10
        invariant
            2 <= v <= 10,
            forall|u: int| 2 <= u < v ==> #[trigger] (u * u) != field_amount,
        decreases 10 - v,
    {
        proof {
            lemma_side_square_bounds(v as int);
        }
        if v * v == field_amount {
            return Ok(v);
        }
        v = v + 1;
    }
    assert(!is_grid_len(field_amount as int)) by {
        assert forall|n: int| !is_side(field_amount as int, n) by {
            if 2 <= n <= 9 {
                assert(n * n != field_amount);
            }
        }
    }
    Err(Error::InternalServer)
}

/// Walks `grid_size` steps from `start` in `direction` and counts the checked
/// cells it lands on. The walk stops early where a step leaves the board,
/// wraps across a row going right, or reaches the first cell going up-right.
pub fn walk(fields: &Vec<bool>, grid_size: usize, start: usize, direction: Direction) -> (r: usize)
    requires
        is_side(fields.len() as int, grid_size as int),
        start < fields.len(),
    ensures
        r == walk_hits(fields@, grid_size as int, start as int, direction, grid_size as int),
        r == grid_size <==> is_line(fields@, grid_size as int, start as int, direction),
{
    let ghost len = fields.len() as int;
    let ghost n = grid_size as int;
    proof {
        lemma_side_square_bounds(n);
    }
    let side = grid_size as i64;
    let size = fields.len() as i64;
    let step: i64 = match direction {
        Direction::Right => 1,
        Direction::Down => side,
        Direction::RightDown => side + 1,
        Direction::RightUp => -(side - 1),
    };
    let mut hits: usize = 0;
    let mut k: usize = 0;
    let mut pos: i64 = start as i64;
    let mut inside = true;
    while inside && k < grid_size && k < MAX_WALK_STEPS
        invariant
            0 <= k <= grid_size,
            n == grid_size,
            len == fields.len(),
            size == len,
            side == n,
            step == stride(direction, n),
            4 <= len <= 81,
            2 <= n <= 9,
            pos == cell(start as int, direction, n, k as int),
            inside ==> reached(len, n, start as int, direction, k - 1),
            inside ==> -9 <= pos <= 90,
            !inside ==> k < grid_size && !on_grid(len, n, start as int, direction, k as int)
                && (k == 0 || reached(len, n, start as int, direction, k - 1)),
            hits == walk_hits(fields@, n, start as int, direction, k as int),
            hits <= k,
        decreases grid_size - k + if inside { 1int } else { 0int },
    {
        let on_board = 0 <= pos && pos < size && !(direction == Direction::Right && k > 0 && (
        pos as usize) % grid_size == 0) && !(direction == Direction::RightUp && k > 0 && pos == 0);
        assert(on_board == on_grid(len, n, start as int, direction, k as int));
        if on_board {
            assert(reached(len, n, start as int, direction, k as int)) by {
                assert forall|i: int| 0 <= i <= k implies #[trigger] on_grid(
                    len,
                    n,
                    start as int,
                    direction,
                    i,
                ) by {
                    if i < k {
                        assert(reached(len, n, start as int, direction, k - 1));
                    }
                }
            }
            proof {
                lemma_hits_bounded(fields@, n, start as int, direction, k as int);
            }
            if fields[pos as usize] {
                hits = hits + 1;
            }
            assert(cell(start as int, direction, n, k + 1) == pos + step) by (nonlinear_arith)
                requires
                    pos == start + k * step,
                    cell(start as int, direction, n, k + 1) == start + (k + 1) * step,
            ;
            pos = pos + step;
            k = k + 1;
        } else {
            inside = false;
        }
    }
    proof {
        lemma_hits_bounded(fields@, n, start as int, direction, n);
        lemma_line_iff_lands(fields@, n, start as int, direction);
        if !inside {
            lemma_hits_stop(fields@, n, start as int, direction, k as int, n);
            lemma_hits_bounded(fields@, n, start as int, direction, k as int);
            assert(!lands(fields@, n, start as int, direction, k as int));
        }
    }
    hits
}

/// Completed lines in `direction` over the walks that start from border
/// cells, that is cells of the first row or column, but the board's last.
fn count_lines(fields: &Vec<bool>, grid_size: usize, direction: Direction) -> (r: u32)
    requires
        is_side(fields.len() as int, grid_size as int),
    ensures
        r == lines_from(fields@, grid_size as int, direction, fields.len() - 1),
        r < fields.len(),
{
    proof {
        lemma_side_square_bounds(grid_size as int);
    }
    let last = fields.len() - 1;
    let mut count: u32 = 0;
    let mut b: usize = 0;
    while b < last
        invariant
            b <= last,
            last == fields.len() - 1,
            is_side(fields.len() as int, grid_size as int),
            4 <= fields.len() <= 81,
            count <= b,
            count == lines_from(fields@, grid_size as int, direction, b as int),
        decreases last - b,
    {
        if b < grid_size || b % grid_size == 0 {
            if walk(fields, grid_size, b, direction) == grid_size {
                count = count + 1;
            }
        }
        b = b + 1;
    }
    count
}

/// Number of completed lines on a square board given as its checked flags in
/// row-major order. Lines are counted in four directions from every border
/// cell; a cell count that is no accepted square board scores zero.
pub fn bingos(fields: Vec<bool>) -> (r: i32)
    ensures
        !is_grid_len(fields.len() as int) ==> r == 0,
        forall|n: int| is_side(fields.len() as int, n) ==> r == line_count(fields@, n),
{
    match grid_size(fields.len()) {
        Ok(n) => {
            let right = count_lines(&fields, n, Direction::Right);
            let down = count_lines(&fields, n, Direction::Down);
            let right_down = count_lines(&fields, n, Direction::RightDown);
            let right_up = count_lines(&fields, n, Direction::RightUp);
            proof {
                lemma_side_square_bounds(n as int);
                assert forall|m: int| is_side(fields.len() as int, m) implies m == n by {
                    lemma_side_unique(fields.len() as int, m, n as int);
                }
            }
            (right + down + right_down + right_up) as i32
        },
        Err(_) => 0,
    }
}

/// Whether the `count` cells `first`, `first + step`, ... are all checked.
fn line_checked(hits: &Vec<bool>, first: usize, step: usize, count: usize) -> (r: bool)
    requires
        1 <= count,
        step <= hits.len(),
        first + (count - 1) * step < hits.len(),
    ensures
        r == strided_full(hits@, first as int, step as int, count as int),
{
    let mut j: usize = 0;
    let mut all = true;
    while j < count
        invariant
            j <= count,
            1 <= count,
            first + (count - 1) * step < hits.len(),
            all == forall|i: int| 0 <= i < j ==> #[trigger] hits@[first + i * step],
        decreases count - j,
    {
        assert(j * step <= (count - 1) * step) by (nonlinear_arith)
            requires
                j < count,
        ;
        let idx = first + j * step;
        all = all && hits[idx];
        j = j + 1;
    }
    all
}

/// Completed lines on a 5 by 5 board: full rows, full columns and the two
/// corner-to-corner diagonals. Any other cell count scores zero.
pub fn calc_bingos(hits: Vec<bool>) -> (r: i32)
    ensures
        hits.len() != CLASSIC_SIDE * CLASSIC_SIDE ==> r == 0,
        hits.len() == CLASSIC_SIDE * CLASSIC_SIDE ==> r == classic_lines(
            hits@,
            CLASSIC_SIDE as int,
        ),
{
    if hits.len() != CLASSIC_SIDE * CLASSIC_SIDE {
        return 0;
    }
    let mut rows: u32 = 0;
    let mut x: usize = 0;
    while x < CLASSIC_SIDE
        invariant
            x <= CLASSIC_SIDE,
            hits.len() == 25,
            rows <= x,
            rows == full_rows(hits@, 5, x as int),
        decreases CLASSIC_SIDE - x,
    {
        if line_checked(&hits, x * CLASSIC_SIDE, 1, CLASSIC_SIDE) {
            rows = rows + 1;
        }
        x = x + 1;
    }
    let mut cols: u32 = 0;
    let mut y: usize = 0;
    while y < CLASSIC_SIDE
        invariant
            y <= CLASSIC_SIDE,
            hits.len() == 25,
            cols <= y,
            cols == full_cols(hits@, 5, y as int),
        decreases CLASSIC_SIDE - y,
    {
        if line_checked(&hits, y, CLASSIC_SIDE, CLASSIC_SIDE) {
            cols = cols + 1;
        }
        y = y + 1;
    }
    let mut total = rows + cols;
    if line_checked(&hits, 0, CLASSIC_SIDE + 1, CLASSIC_SIDE) {
        total = total + 1;
    }
    if line_checked(&hits, CLASSIC_SIDE - 1, CLASSIC_SIDE - 1, CLASSIC_SIDE) {
        total = total + 1;
    }
    total as i32
}

} // verus!
