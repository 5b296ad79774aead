//! Placement of a chain of commands along a space filling curve, such that every sequence of
//! conditional commands lies on one straight segment of the curve.

use crate::geometry3::{Coordinate3, Direction3};
use vstd::arithmetic::div_mod::lemma_fundamental_div_mod_converse;
use vstd::prelude::*;

verus! {

/// A command that can be placed in a chain.
///
/// An implementation says in [`conditional`](Command::conditional) what
/// [`is_conditional`](Command::is_conditional) returns. What is proved of the placement of a
/// chain holds for commands for which the two agree.
pub trait Command {
    /// Whether the command only runs if the command before it in the chain succeeded.
    spec fn conditional(&self) -> bool;

    /// Whether the command only runs if the command before it in the chain succeeded.
    fn is_conditional(&self) -> (conditional: bool)
        ensures
            conditional == self.conditional(),
    ;
}

/// One cell of a placed chain: a command, or nothing for a cell that only passes the signal on,
/// the position of the cell and the direction of the cell that it triggers.
pub struct CommandBlock<C: Command> {
    pub command: Option<C>,
    pub coordinate: Coordinate3<i32>,
    pub direction: Direction3,
}

/// For every command of a chain whether it is conditional.
pub open spec fn conditional_flags<C: Command>(chain: Seq<C>) -> Seq<bool> {
    Seq::new(chain.len(), |i: int| chain[i].conditional())
}

/// Whether the `len` commands from `start` on are all conditional.
pub open spec fn is_run(flags: Seq<bool>, start: int, len: int) -> bool {
    &&& 0 <= start
    &&& 0 <= len
    &&& start + len <= flags.len()
    &&& forall|j: int| start <= j < start + len ==> flags[j]
}

/// The number of consecutive conditional commands directly before position `end`.
pub open spec fn run_until(flags: Seq<bool>, end: int) -> nat
    decreases end,
{
    if 0 < end <= flags.len() && flags[end - 1] {
        run_until(flags, end - 1) + 1
    } else {
        0
    }
}

/// The length of the longest sequence of consecutive conditional commands among the first `end`
/// commands.
pub open spec fn longest_run_until(flags: Seq<bool>, end: int) -> nat
    decreases end,
{
    if 0 < end <= flags.len() {
        let before = longest_run_until(flags, end - 1);
        let here = run_until(flags, end);
        if here > before {
            here
        } else {
            before
        }
    } else {
        0
    }
}

/// The length of the longest sequence of consecutive conditional commands.
pub open spec fn longest_run(flags: Seq<bool>) -> nat {
    longest_run_until(flags, flags.len() as int)
}

/// The commands directly before `end` that `run_until` counts are a run, and no longer run ends
/// there.
pub proof fn lemma_run_until(flags: Seq<bool>, end: int)
    requires
        0 <= end <= flags.len(),
    ensures
        is_run(flags, end - run_until(flags, end), run_until(flags, end) as int),
        forall|start: int, len: int|
            is_run(flags, start, len) && start + len == end ==> len <= run_until(flags, end),
    decreases end,
{
    if 0 < end && flags[end - 1] {
        lemma_run_until(flags, end - 1);
        assert forall|start: int, len: int|
            is_run(flags, start, len) && start + len == end implies len <= run_until(
            flags,
            end,
        ) by {
            if len > 0 {
                assert(is_run(flags, start, len - 1));
            }
        }
    } else {
        assert forall|start: int, len: int|
            is_run(flags, start, len) && start + len == end implies len <= 0 by {
            if len > 0 {
                assert(flags[end - 1]);
            }
        }
    }
}

/// No run of conditional commands is longer than `longest_run`, and some run is as long.
pub proof fn lemma_longest_run(flags: Seq<bool>)
    ensures
        forall|start: int, len: int| is_run(flags, start, len) ==> len <= longest_run(flags),
        exists|start: int| is_run(flags, start, longest_run(flags) as int),
{
    lemma_longest_run_until(flags, flags.len() as int);
    let longest = longest_run(flags);
    let witness = choose|start: int|
        is_run(flags, start, longest as int) && start + longest <= flags.len();
    assert(is_run(flags, witness, longest_run(flags) as int));
}

proof fn lemma_longest_run_until(flags: Seq<bool>, end: int)
    requires
        0 <= end <= flags.len(),
    ensures
        forall|start: int, len: int|
            is_run(flags, start, len) && start + len <= end ==> len <= longest_run_until(
                flags,
                end,
            ),
        exists|start: int|
            is_run(flags, start, longest_run_until(flags, end) as int) && start
                + longest_run_until(flags, end) <= end,
    decreases end,
{
    let longest = longest_run_until(flags, end);
    if 0 < end {
        lemma_longest_run_until(flags, end - 1);
        lemma_run_until(flags, end);
        let before = longest_run_until(flags, end - 1);
        let here = run_until(flags, end);
        let witness = if here > before {
            end - here
        } else {
            choose|start: int| is_run(flags, start, before as int) && start + before <= end - 1
        };
        assert(is_run(flags, witness, longest as int) && witness + longest <= end);
    } else {
        assert(is_run(flags, 0, longest as int) && 0 + longest <= end);
    }
}

/// Finds the length of the longest sequence of conditional commands.
pub fn max_cond_len<C: Command>(chain: &Vec<C>) -> (max_cond_len: usize)
    ensures
        max_cond_len == longest_run(conditional_flags(chain@)),
        forall|start: int, len: int|
            is_run(conditional_flags(chain@), start, len) ==> len <= max_cond_len,
        exists|start: int| is_run(conditional_flags(chain@), start, max_cond_len as int),
{
    let ghost flags = conditional_flags(chain@);
    let mut max_cond_len: usize = 0;
    let mut cond_len: usize = 0;
    let mut i: usize = 0;
    while i < chain.len()
        invariant
            i <= chain.len(),
            flags == conditional_flags(chain@),
            cond_len == run_until(flags, i as int),
            max_cond_len == longest_run_until(flags, i as int),
            cond_len <= i,
            max_cond_len <= i,
        decreases chain.len() - i,
    {
        if chain[i].is_conditional() {
            cond_len = cond_len + 1;
        } else {
            cond_len = 0;
        }
        if cond_len > max_cond_len {
            max_cond_len = cond_len;
        }
        i = i + 1;
    }
    proof {
        lemma_longest_run(flags);
    }
    max_cond_len
}

/// The point that follows `point` on the quarter spiral.
pub open spec fn spiral_step(point: (int, int)) -> (int, int) {
    let (x, y) = point;
    if x > y || (x == y && x % 2 == 0) {
        if x % 2 == 1 {
            (x, y + 1)
        } else if y == 0 {
            (x + 1, y)
        } else {
            (x, y - 1)
        }
    } else {
        if y % 2 == 0 {
            (x + 1, y)
        } else if x == 0 {
            (x, y + 1)
        } else {
            (x - 1, y)
        }
    }
}

/// The point with the given index on the quarter spiral, which starts at the origin.
pub open spec fn spiral_point(index: nat) -> (int, int)
    decreases index,
{
    if index == 0 {
        (0, 0)
    } else {
        spiral_step(spiral_point((index - 1) as nat))
    }
}

/// A step of the quarter spiral changes one component by one and leaves the other as it is, and
/// it never leads to a negative component.
pub proof fn lemma_spiral_step(point: (int, int))
    requires
        0 <= point.0,
        0 <= point.1,
    ensures
        0 <= spiral_step(point).0,
        0 <= spiral_step(point).1,
        ({
            let next = spiral_step(point);
            ||| next == (point.0 + 1, point.1)
            ||| next == (point.0 - 1, point.1)
            ||| next == (point.0, point.1 + 1)
            ||| next == (point.0, point.1 - 1)
        }),
{
}

/// The points of the quarter spiral have no negative component and lie no further out than
/// their index.
pub proof fn lemma_spiral_point(index: nat)
    ensures
        0 <= spiral_point(index).0 <= index,
        0 <= spiral_point(index).1 <= index,
        spiral_point(index).0 + spiral_point(index).1 <= index,
    decreases index,
{
    if index > 0 {
        lemma_spiral_point((index - 1) as nat);
        lemma_spiral_step(spiral_point((index - 1) as nat));
    }
}

/// An infinite space filling curve that starts at the origin and alternates a quarter spiral back
/// and forth. The table shows in which order the curve visits the points:
///
/// |  y\x  |  0 |  1 |  2 |  3 |
/// |-------|----|----|----|----|
/// | **0** |  1 |  2 |  9 | 10 |
/// | **1** |  4 |  3 |  8 | 11 |
/// | **2** |  5 |  6 |  7 | 12 |
/// | **3** | 16 | 15 | 14 | 13 |
pub struct QuaterSpiralCurve {
    next: (i32, i32),
}

impl View for QuaterSpiralCurve {
    type V = (int, int);

    /// The point that the curve gives next.
    closed spec fn view(&self) -> (int, int) {
        (self.next.0 as int, self.next.1 as int)
    }
}

impl QuaterSpiralCurve {
    /// The curve at its start.
    pub fn new() -> (curve: QuaterSpiralCurve)
        ensures
            curve@ == spiral_point(0),
    {
        QuaterSpiralCurve { next: (0, 0) }
    }

    /// Gives the current point of the curve and moves on to the point after it.
    pub fn next(&mut self) -> (point: Option<(i32, i32)>)
        requires
            0 <= old(self)@.0 < i32::MAX,
            0 <= old(self)@.1 < i32::MAX,
        ensures
            point matches Some(p) && (p.0 as int, p.1 as int) == old(self)@,
            final(self)@ == spiral_step(old(self)@),
    {
        let current = self.next;
        if current.0 > current.1 || (current.0 == current.1 && current.0 % 2 == 0) {
            if current.0 % 2 == 1 {
                self.next.1 = self.next.1 + 1;
            } else if current.1 == 0 {
                self.next.0 = self.next.0 + 1;
            } else {
                self.next.1 = self.next.1 - 1;
            }
        } else {
            if current.1 % 2 == 0 {
                self.next.0 = self.next.0 + 1;
            } else if current.0 == 0 {
                self.next.1 = self.next.1 + 1;
            } else {
                self.next.0 = self.next.0 - 1;
            }
        }
        Some(current)
    }
}

/// Whether `root` is the least number whose cube is at least `n`.
pub open spec fn is_cube_root_ceil(n: nat, root: nat) -> bool {
    &&& root * root * root >= n
    &&& root > 0 ==> (root - 1) * (root - 1) * (root - 1) < n
}

/// The cube root of `n`, rounded up to a whole number.
pub open spec fn cube_root_ceil(n: nat) -> nat {
    choose|root: nat| is_cube_root_ceil(n, root)
}

proof fn lemma_cube_monotone(a: nat, b: nat)
    requires
        a <= b,
    ensures
        a * a * a <= b * b * b,
{
    assert(a * a <= b * b) by (nonlinear_arith)
        requires
            a <= b,
    ;
    assert(a * a * a <= b * b * b) by (nonlinear_arith)
        requires
            a <= b,
            a * a <= b * b,
    ;
}

/// At most one number is the cube root of `n`, rounded up.
pub proof fn lemma_cube_root_unique(n: nat, first: nat, second: nat)
    requires
        is_cube_root_ceil(n, first),
        is_cube_root_ceil(n, second),
    ensures
        first == second,
{
    if first < second {
        lemma_cube_monotone(first, (second - 1) as nat);
    } else if second < first {
        lemma_cube_monotone(second, (first - 1) as nat);
    }
}

/// Finds the cube root of `n`, rounded up to a whole number.
pub fn ceil_cube_root(n: usize) -> (root: usize)
    requires
        n <= i32::MAX,
    ensures
        is_cube_root_ceil(n as nat, root as nat),
        root == cube_root_ceil(n as nat),
        root <= n,
{
    let mut root: usize = 0;
    loop
        invariant
            n <= i32::MAX,
            root <= 1291,
            root <= n,
            root > 0 ==> (root - 1) * (root - 1) * (root - 1) < n,
        ensures
            is_cube_root_ceil(n as nat, root as nat),
            root <= n,
        decreases 1292 - root,
    {
        assert(root * root <= 1291 * 1291) by (nonlinear_arith)
            requires
                root <= 1291,
        ;
        assert(root * root * root <= 1291 * 1291 * 1291) by (nonlinear_arith)
            requires
                root <= 1291,
                root * root <= 1291 * 1291,
        ;
        let square: u64 = (root as u64) * (root as u64);
        let cube: u64 = square * (root as u64);
        if cube >= n as u64 {
            break ;
        }
        proof {
            if root >= 1291 {
                lemma_cube_monotone(1291, root as nat);
            }
            if root >= 1 {
                assert(root * root * root >= root) by (nonlinear_arith)
                    requires
                        root >= 1,
                ;
            }
        }
        root = root + 1;
    }
    proof {
        lemma_cube_root_unique(n as nat, root as nat, cube_root_ceil(n as nat));
    }
    root
}

/// The extent of the curve in its primary direction: wide enough for the longest sequence of
/// conditional commands together with the command before it and one cell at the corner, and at
/// least the cube root of the length of the chain.
pub open spec fn primary_size(flags: Seq<bool>) -> nat {
    let min_size = longest_run(flags) + 2;
    let side_length = cube_root_ceil(flags.len());
    if min_size >= side_length {
        min_size
    } else {
        side_length
    }
}

/// The number of consecutive conditional commands from position `start` on.
pub open spec fn run_from(flags: Seq<bool>, start: int) -> nat
    decreases flags.len() - start,
{
    if 0 <= start < flags.len() && flags[start] {
        run_from(flags, start + 1) + 1
    } else {
        0
    }
}

/// The commands that `run_from` counts are a run.
pub proof fn lemma_run_from(flags: Seq<bool>, start: int)
    requires
        0 <= start <= flags.len(),
    ensures
        is_run(flags, start, run_from(flags, start) as int),
        run_from(flags, start) <= longest_run(flags),
    decreases flags.len() - start,
{
    if start < flags.len() && flags[start] {
        lemma_run_from(flags, start + 1);
    }
    lemma_longest_run(flags);
}

/// The number of cells on one straight segment that the command at position `i` asks for,
/// itself included: for a conditional command the rest of its sequence, for an unconditional
/// command that a conditional one follows that whole sequence and itself, otherwise nothing.
pub open spec fn sequence_len(flags: Seq<bool>, i: int) -> nat {
    if flags[i] {
        run_from(flags, i)
    } else if run_from(flags, i + 1) != 0 {
        run_from(flags, i + 1) + 1
    } else {
        0
    }
}

/// For every command of the chain the number of cells on one straight segment that it asks for.
fn sequence_lens<C: Command>(chain: &Vec<C>) -> (lens: Vec<usize>)
    ensures
        lens@.len() == chain@.len(),
        forall|i: int|
            0 <= i < chain@.len() ==> lens@[i] == sequence_len(conditional_flags(chain@), i),
{
    let ghost flags = conditional_flags(chain@);
    let n = chain.len();
    let mut lens: Vec<usize> = Vec::new();
    while lens.len() < n
        invariant
            lens@.len() <= n,
        decreases n - lens@.len(),
    {
        lens.push(0);
    }
    let mut run: usize = 0;
    let mut i = n;
    while i > 0
        invariant
            n == chain@.len(),
            lens@.len() == n,
            flags == conditional_flags(chain@),
            i <= n,
            run == run_from(flags, i as int),
            run <= n - i,
            forall|j: int| i <= j < n ==> lens@[j] == sequence_len(flags, j),
        decreases i,
    {
        i = i - 1;
        if chain[i].is_conditional() {
            run = run + 1;
            lens.set(i, run);
        } else {
            if run != 0 {
                lens.set(i, run + 1);
            } else {
                lens.set(i, 0);
            }
            run = 0;
        }
    }
    lens
}

/// The number of cells that only pass the signal on and are placed before the command at
/// position `i`, where `start` cells are taken already: if the sequence of the command does not
/// fit before the end of the column, the rest of the column.
pub open spec fn padding(flags: Seq<bool>, size: nat, i: int, start: nat) -> nat {
    let offset = start % size;
    let need = sequence_len(flags, i);
    if need != 0 && need > size - 1 - offset {
        (size - offset) as nat
    } else {
        0
    }
}

/// The number of cells that the first `count` commands of the chain take.
pub open spec fn cells_before(flags: Seq<bool>, size: nat, count: int) -> nat
    decreases count,
{
    if count <= 0 {
        0
    } else {
        let start = cells_before(flags, size, count - 1);
        start + padding(flags, size, count - 1, start) + 1
    }
}

/// The index on the curve of the cell that holds the command at position `i`.
pub open spec fn cell_index(flags: Seq<bool>, size: nat, i: int) -> int {
    cells_before(flags, size, i + 1) - 1
}

/// The position in the chain of the command in the cell with index `cell`, among the first
/// `count` commands; `None` for a cell that holds none of them.
pub open spec fn cell_command(flags: Seq<bool>, size: nat, count: int, cell: int) -> Option<int>
    decreases count,
{
    if count <= 0 {
        None
    } else if cell == cell_index(flags, size, count - 1) {
        Some(count - 1)
    } else {
        cell_command(flags, size, count - 1, cell)
    }
}

/// The command at the given position of the chain, if any.
pub open spec fn command_at<C>(chain: Seq<C>, position: Option<int>) -> Option<C> {
    match position {
        Some(i) => Some(chain[i]),
        None => None,
    }
}

/// No cell from `cells_before(.., count)` on holds one of the first `count` commands.
pub proof fn lemma_cell_command_none(flags: Seq<bool>, size: nat, count: int, cell: int)
    requires
        cell >= cells_before(flags, size, count),
    ensures
        cell_command(flags, size, count, cell) is None,
    decreases count,
{
    if count > 0 {
        lemma_cell_command_none(flags, size, count - 1, cell);
    }
}

/// Every command has a cell of its own: the cell with the index of the command holds it, and
/// it lies among the cells that the commands up to it take.
pub proof fn lemma_cell_of_command(flags: Seq<bool>, size: nat, count: int, i: int)
    requires
        0 <= i < count,
    ensures
        0 <= cell_index(flags, size, i) < cells_before(flags, size, count),
        cell_command(flags, size, count, cell_index(flags, size, i)) == Some(i),
    decreases count,
{
    if i < count - 1 {
        lemma_cell_of_command(flags, size, count - 1, i);
    }
}

/// Whether the cells of a column are visited with rising second component.
pub open spec fn column_forwards(column: (int, int)) -> bool {
    (column.0 % 2 == 0) == (column.1 % 2 == 0)
}

/// The cell at `offset` in the column that stands on `column`.
pub open spec fn cell_in_column(size: int, column: (int, int), offset: int) -> Coordinate3<int> {
    Coordinate3(
        column.0,
        if column_forwards(column) {
            offset
        } else {
            size - 1 - offset
        },
        column.1,
    )
}

/// The coordinate of the cell with index `cell` on the curve: the columns stand on the points of
/// the quarter spiral, each holds `size` cells, and the curve runs through them alternately
/// forwards and backwards.
pub open spec fn curve_coordinate(size: int, cell: int) -> Coordinate3<int> {
    cell_in_column(size, spiral_point((cell / size) as nat), cell % size)
}

/// The direction from the cell with index `cell` to the cell after it.
pub open spec fn curve_direction(size: int, cell: int) -> Direction3 {
    Direction3::of(curve_coordinate(size, cell + 1).sub(curve_coordinate(size, cell)))
}

proof fn lemma_column_change(index: nat)
    ensures
        column_forwards(spiral_point(index + 1)) != column_forwards(spiral_point(index)),
        spiral_point(index + 1) == spiral_step(spiral_point(index)),
{
    lemma_spiral_point(index);
    lemma_spiral_step(spiral_point(index));
    let point = spiral_point(index);
    let next = spiral_point(index + 1);
    assert(next == spiral_step(point));
    assert(((point.0 + 1) % 2 == 0) != (point.0 % 2 == 0));
    assert(((point.0 - 1) % 2 == 0) != (point.0 % 2 == 0));
    assert(((point.1 + 1) % 2 == 0) != (point.1 % 2 == 0));
    assert(((point.1 - 1) % 2 == 0) != (point.1 % 2 == 0));
}

/// Every cell of the curve shares a face with the cell after it: the curve steps by one unit in
/// the direction of the cell.
pub proof fn lemma_curve_steps_to_neighbour(size: int, cell: int)
    requires
        size >= 1,
        cell >= 0,
    ensures
        Direction3::is_axis_aligned(
            curve_coordinate(size, cell + 1).sub(curve_coordinate(size, cell)),
        ),
        curve_coordinate(size, cell + 1) == curve_coordinate(size, cell).add(
            curve_direction(size, cell).unit(),
        ),
{
    let column = cell / size;
    let offset = cell % size;
    vstd::arithmetic::div_mod::lemma_fundamental_div_mod(cell, size);
    vstd::arithmetic::div_mod::lemma_mod_bound(cell, size);
    vstd::arithmetic::div_mod::lemma_div_pos_is_pos(cell, size);
    assert(cell == size * column + offset);
    if offset + 1 < size {
        assert(cell + 1 == column * size + (offset + 1)) by (nonlinear_arith)
            requires
                cell == size * column + offset,
        ;
        lemma_fundamental_div_mod_converse(cell + 1, size, column, offset + 1);
    } else {
        assert(cell + 1 == (column + 1) * size + 0) by (nonlinear_arith)
            requires
                cell == size * column + offset,
                offset + 1 == size,
        ;
        lemma_fundamental_div_mod_converse(cell + 1, size, column + 1, 0);
        lemma_column_change(column as nat);
    }
}

/// A cell that is not the last of its column points along the column: up in a column that is
/// visited forwards, down in one that is visited backwards.
pub proof fn lemma_direction_in_column(size: int, cell: int)
    requires
        size >= 1,
        cell >= 0,
        cell % size + 1 < size,
    ensures
        curve_direction(size, cell) == (if column_forwards(spiral_point((cell / size) as nat)) {
            Direction3::Up
        } else {
            Direction3::Down
        }),
{
    vstd::arithmetic::div_mod::lemma_fundamental_div_mod(cell, size);
    vstd::arithmetic::div_mod::lemma_div_pos_is_pos(cell, size);
    let column = cell / size;
    let offset = cell % size;
    assert(cell + 1 == column * size + (offset + 1)) by (nonlinear_arith)
        requires
            cell == size * column + offset,
    ;
    lemma_fundamental_div_mod_converse(cell + 1, size, column, offset + 1);
}

/// The cell of a command that asks for room on a straight segment lies so early in its column
/// that the rest of the sequence fits before the last cell of the column.
pub proof fn lemma_room_after_cell(flags: Seq<bool>, size: nat, i: int)
    requires
        0 <= i < flags.len(),
        size >= longest_run(flags) + 2,
        sequence_len(flags, i) != 0,
    ensures
        cell_index(flags, size, i) >= 0,
        cell_index(flags, size, i) % (size as int) + sequence_len(flags, i) <= size - 1,
{
    let start = cells_before(flags, size, i) as int;
    let need = sequence_len(flags, i);
    let offset = start % (size as int);
    lemma_run_from(flags, i);
    lemma_run_from(flags, i + 1);
    vstd::arithmetic::div_mod::lemma_fundamental_div_mod(start, size as int);
    vstd::arithmetic::div_mod::lemma_mod_bound(start, size as int);
    if need > size - 1 - offset {
        let cell = start + size - offset;
        let column = start / (size as int);
        assert(cell == (column + 1) * size + 0) by (nonlinear_arith)
            requires
                start == size * column + offset,
                cell == start + size - offset,
        ;
        lemma_fundamental_div_mod_converse(cell, size as int, column + 1, 0);
        assert(cell_index(flags, size, i) == cell);
    } else {
        assert(cell_index(flags, size, i) == start);
    }
}

/// A conditional command stands directly behind the command before it in the chain: its cell is
/// the next cell of the curve, in the same column, and both cells point in the same direction
/// along the column.
pub proof fn lemma_conditional_follows(flags: Seq<bool>, size: nat, i: int)
    requires
        0 < i < flags.len(),
        flags[i],
        size >= longest_run(flags) + 2,
    ensures
        cell_index(flags, size, i) == cell_index(flags, size, i - 1) + 1,
        cell_index(flags, size, i) / (size as int) == cell_index(flags, size, i - 1) / (
        size as int),
        curve_direction(size as int, cell_index(flags, size, i)) == curve_direction(
            size as int,
            cell_index(flags, size, i - 1),
        ),
        curve_direction(size as int, cell_index(flags, size, i)) is Up || curve_direction(
            size as int,
            cell_index(flags, size, i),
        ) is Down,
{
    let previous = cell_index(flags, size, i - 1);
    let column = previous / (size as int);
    let offset = previous % (size as int);
    assert(sequence_len(flags, i - 1) == run_from(flags, i) + 1);
    assert(sequence_len(flags, i) == run_from(flags, i));
    lemma_room_after_cell(flags, size, i - 1);
    lemma_room_after_cell(flags, size, i);
    vstd::arithmetic::div_mod::lemma_fundamental_div_mod(previous, size as int);
    vstd::arithmetic::div_mod::lemma_mod_bound(previous, size as int);
    assert(previous + 1 == column * size + (offset + 1)) by (nonlinear_arith)
        requires
            previous == size * column + offset,
    ;
    lemma_fundamental_div_mod_converse(previous + 1, size as int, column, offset + 1);
    assert(cells_before(flags, size, i) == previous + 1);
    assert(padding(flags, size, i, (previous + 1) as nat) == 0);
    assert(cell_index(flags, size, i) == previous + 1);
    lemma_direction_in_column(size as int, previous);
    lemma_direction_in_column(size as int, previous + 1);
}

/// A sequence of consecutive conditional commands takes consecutive cells of the curve, which
/// all point in the same direction along one column: the sequence is never split at a corner.
pub proof fn lemma_run_on_straight_segment(flags: Seq<bool>, start: int, len: int, j: int)
    requires
        is_run(flags, start, len),
        0 <= j < len,
    ensures
        ({
            let size = primary_size(flags);
            let first = cell_index(flags, size, start);
            &&& cell_index(flags, size, start + j) == first + j
            &&& cell_index(flags, size, start + j) / (size as int) == first / (size as int)
            &&& curve_direction(size as int, first + j) == curve_direction(size as int, first)
            &&& curve_direction(size as int, first) is Up || curve_direction(size as int, first)
                is Down
        }),
    decreases j,
{
    let size = primary_size(flags);
    let first = cell_index(flags, size, start);
    if j > 0 {
        lemma_run_on_straight_segment(flags, start, len, j - 1);
        assert(flags[start + j]);
        lemma_conditional_follows(flags, size, start + j);
    } else {
        assert(flags[start]);
        lemma_room_after_cell(flags, size, start);
        lemma_direction_in_column(size as int, first);
    }
}

/// A position on the curve.
struct CurveCursor {
    prim_size: usize,
    /// Gives the point of the column after the current one.
    curve: QuaterSpiralCurve,
    column: (i32, i32),
    offset: usize,
    columns: Ghost<nat>,
}

impl CurveCursor {
    spec fn wf(&self) -> bool {
        &&& 1 <= self.prim_size <= i32::MAX
        &&& self.offset < self.prim_size
        &&& (self.column.0 as int, self.column.1 as int) == spiral_point(self.columns@)
        &&& self.curve@ == spiral_point(self.columns@ + 1)
    }

    /// The index on the curve of the cell at the cursor.
    spec fn index(&self) -> int {
        self.columns@ * self.prim_size + self.offset
    }

    fn new(prim_size: usize) -> (cursor: CurveCursor)
        requires
            1 <= prim_size <= i32::MAX,
        ensures
            cursor.wf(),
            cursor.index() == 0,
            cursor.columns@ == 0,
            cursor.prim_size == prim_size,
    {
        let mut curve = QuaterSpiralCurve::new();
        curve.next();
        proof {
            reveal_with_fuel(spiral_point, 2);
        }
        CurveCursor { prim_size, curve, column: (0, 0), offset: 0, columns: Ghost(0) }
    }

    /// Gives the offset in its column, the coordinate and the direction of the cell at the
    /// cursor, and moves the cursor on to the next cell.
    fn next_coordinate(&mut self) -> (cell: (usize, Coordinate3<i32>, Direction3))
        requires
            old(self).wf(),
            old(self).columns@ + 2 <= i32::MAX,
        ensures
            final(self).wf(),
            final(self).prim_size == old(self).prim_size,
            final(self).index() == old(self).index() + 1,
            final(self).columns@ == old(self).columns@ + (if old(self).offset + 1
                == old(self).prim_size {
                1nat
            } else {
                0nat
            }),
            final(self).offset == (if old(self).offset + 1 == old(self).prim_size {
                0
            } else {
                old(self).offset + 1
            }),
            cell.0 == old(self).offset,
            cell.0 == old(self).index() % (old(self).prim_size as int),
            cell.1@ == curve_coordinate(old(self).prim_size as int, old(self).index()),
            cell.2 == curve_direction(old(self).prim_size as int, old(self).index()),
    {
        let ghost size = self.prim_size as int;
        let ghost index = self.index();
        let ghost columns = self.columns@;
        proof {
            lemma_spiral_point(columns);
            lemma_spiral_point(columns + 1);
            lemma_fundamental_div_mod_converse(index, size, columns as int, self.offset as int);
            lemma_curve_steps_to_neighbour(size, index);
            if self.offset + 1 < self.prim_size {
                assert(index + 1 == columns * size + (self.offset + 1));
                lemma_fundamental_div_mod_converse(
                    index + 1,
                    size,
                    columns as int,
                    self.offset as int + 1,
                );
            } else {
                assert(index + 1 == (columns + 1) * size + 0) by (nonlinear_arith)
                    requires
                        index == columns * size + self.offset,
                        self.offset + 1 == size,
                ;
                lemma_fundamental_div_mod_converse(index + 1, size, columns as int + 1, 0);
                lemma_column_change(columns);
            }
        }
        let column = self.column;
        let offset = self.offset;
        let forwards = (column.0 % 2 == 0) == (column.1 % 2 == 0);
        let y = if forwards {
            offset as i32
        } else {
            (self.prim_size - 1 - offset) as i32
        };
        let current = Coordinate3(column.0, y, column.1);
        let next = if offset + 1 < self.prim_size {
            self.offset = offset + 1;
            Coordinate3(
                column.0,
                if forwards {
                    y + 1
                } else {
                    y - 1
                },
                column.1,
            )
        } else {
            let next_column = self.curve.next().unwrap();
            self.column = next_column;
            self.offset = 0;
            self.columns = Ghost((columns + 1) as nat);
            let next_forwards = (next_column.0 % 2 == 0) == (next_column.1 % 2 == 0);
            let next_y = if next_forwards {
                0
            } else {
                (self.prim_size - 1) as i32
            };
            Coordinate3(next_column.0, next_y, next_column.1)
        };
        assert(current@ == curve_coordinate(size, index));
        assert(next@ == curve_coordinate(size, index + 1));
        let direction = Direction3::try_from(next.sub(current)).unwrap();
        (offset, current, direction)
    }
}

/// The greatest length of a chain that [`place_commands`] takes: with it every coordinate of the
/// curve fits in an `i32`.
pub const MAX_CHAIN_LEN: usize = 2147483645;

/// Places the commands of `chain` in this order along an infinite space filling curve and gives
/// the cells of the curve from its start up to the cell of the last command.
///
/// The curve runs through columns of [`primary_size`] cells, which stand on the points of the
/// [quarter spiral](QuaterSpiralCurve), alternately forwards and backwards. Where a sequence of
/// conditional commands, together with the unconditional command before it, does not fit in the
/// rest of a column, the rest of the column is filled with cells that hold no command, so that
/// the sequence lies on one straight segment.
pub fn place_commands<C: Command>(chain: Vec<C>) -> (blocks: Vec<CommandBlock<C>>)
    requires
        chain@.len() <= MAX_CHAIN_LEN,
    ensures
        blocks@.len() == cells_before(
            conditional_flags(chain@),
            primary_size(conditional_flags(chain@)),
            chain@.len() as int,
        ),
        forall|cell: int|
            #![trigger blocks@[cell]]
            0 <= cell < blocks@.len() ==> {
                let flags = conditional_flags(chain@);
                let size = primary_size(flags);
                &&& blocks@[cell].coordinate@ == curve_coordinate(size as int, cell)
                &&& blocks@[cell].direction == curve_direction(size as int, cell)
                &&& blocks@[cell].command == command_at(
                    chain@,
                    cell_command(flags, size, chain@.len() as int, cell),
                )
            },
        forall|i: int|
            #![trigger chain@[i]]
            0 <= i < chain@.len() ==> {
                let flags = conditional_flags(chain@);
                let cell = cell_index(flags, primary_size(flags), i);
                &&& 0 <= cell < blocks@.len()
                &&& blocks@[cell].command == Some(chain@[i])
            },
        forall|i: int|
            #![trigger chain@[i]]
            0 < i < chain@.len() && chain@[i].conditional() ==> {
                let flags = conditional_flags(chain@);
                let cell = cell_index(flags, primary_size(flags), i);
                &&& cell == cell_index(flags, primary_size(flags), i - 1) + 1
                &&& blocks@[cell].direction == blocks@[cell - 1].direction
                &&& blocks@[cell].coordinate@ == blocks@[cell - 1].coordinate@.add(
                    blocks@[cell - 1].direction.unit(),
                )
            },
{
    let ghost commands = chain@;
    let ghost flags = conditional_flags(chain@);
    let ghost size = primary_size(flags);
    let count = chain.len();
    let max_cond_len = max_cond_len(&chain);
    // The minimum size for the primary direction needed to place all conditional commands
    let min_prim_size = max_cond_len + 2;
    let estimated_side_length = ceil_cube_root(count);
    let prim_size = if min_prim_size >= estimated_side_length {
        min_prim_size
    } else {
        estimated_side_length
    };
    let lens = sequence_lens(&chain);
    let mut cursor = CurveCursor::new(prim_size);
    let mut result: Vec<CommandBlock<C>> = Vec::new();
    let mut position: usize = 0;
    for command in iter: chain
        invariant
            position == iter.index(),
            iter.seq() == commands,
            flags == conditional_flags(commands),
            size == primary_size(flags),
            size == prim_size,
            size >= longest_run(flags) + 2,
            count == commands.len(),
            count <= MAX_CHAIN_LEN,
            lens@.len() == count,
            forall|i: int| 0 <= i < count ==> lens@[i] == sequence_len(flags, i),
            cursor.wf(),
            cursor.prim_size == prim_size,
            cursor.index() == result@.len(),
            cursor.columns@ <= iter.index(),
            result@.len() == cells_before(flags, size, iter.index()),
            forall|cell: int|
                #![trigger result@[cell]]
                0 <= cell < result@.len() ==> {
                    &&& result@[cell].coordinate@ == curve_coordinate(size as int, cell)
                    &&& result@[cell].direction == curve_direction(size as int, cell)
                    &&& result@[cell].command == command_at(
                        commands,
                        cell_command(flags, size, iter.index(), cell),
                    )
                },
    {
        let ghost i = iter.index();
        let ghost start = result@.len();
        let ghost base_columns = cursor.columns@;
        let cond_seq_len = lens[position];
        let (offset, mut coordinate, mut direction) = cursor.next_coordinate();
        proof {
            lemma_run_from(flags, i);
            lemma_run_from(flags, i + 1);
            assert(cond_seq_len == sequence_len(flags, i));
            assert(cond_seq_len <= longest_run(flags) + 1);
            assert(offset == start % size);
        }
        if cond_seq_len != 0 {
            let space_until_corner = prim_size - 1 - offset;
            if cond_seq_len > space_until_corner {
                // Insert cells that hold no command
                let no_op_count = space_until_corner + 1;
                let mut k: usize = 0;
                while k < no_op_count
                    invariant
                        k <= no_op_count,
                        no_op_count == prim_size - offset,
                        1 <= offset < prim_size,
                        size == prim_size,
                        base_columns + 3 <= i32::MAX,
                        cursor.wf(),
                        cursor.prim_size == prim_size,
                        cursor.index() == result@.len() + 1,
                        result@.len() == start + k,
                        cursor.offset == (if k == no_op_count {
                            1
                        } else if offset + k + 1 == prim_size {
                            0
                        } else {
                            offset + k + 1
                        }),
                        cursor.columns@ == base_columns + (if offset + k + 1 >= prim_size {
                            1nat
                        } else {
                            0nat
                        }),
                        coordinate@ == curve_coordinate(size as int, result@.len() as int),
                        direction == curve_direction(size as int, result@.len() as int),
                        forall|cell: int|
                            #![trigger result@[cell]]
                            0 <= cell < result@.len() ==> {
                                &&& result@[cell].coordinate@ == curve_coordinate(
                                    size as int,
                                    cell,
                                )
                                &&& result@[cell].direction == curve_direction(size as int, cell)
                                &&& result@[cell].command == (if cell < start {
                                    command_at(commands, cell_command(flags, size, i, cell))
                                } else {
                                    None
                                })
                            },
                    decreases no_op_count - k,
                {
                    k = k + 1;
                    result.push(CommandBlock { command: None, coordinate, direction });
                    let (_, new_coordinate, new_direction) = cursor.next_coordinate();
                    coordinate = new_coordinate;
                    direction = new_direction;
                }
            }
        }
        proof {
            assert(result@.len() == start + padding(flags, size, i, start as nat));
            assert(result@.len() == cell_index(flags, size, i));
            assert forall|cell: int|
                0 <= cell < result@.len() implies #[trigger] result@[cell].command == command_at(
                commands,
                cell_command(flags, size, i + 1, cell),
            ) by {
                if cell >= start {
                    lemma_cell_command_none(flags, size, i, cell);
                }
            }
        }
        result.push(CommandBlock { command: Some(command), coordinate, direction });
        position = position + 1;
    }
    proof {
        assert forall|i: int| 0 <= i < commands.len() implies {
            let cell = cell_index(flags, size, i);
            &&& 0 <= cell < result@.len()
            &&& result@[cell].command == Some(#[trigger] commands[i])
        } by {
            lemma_cell_of_command(flags, size, commands.len() as int, i);
        }
        assert forall|i: int|
            0 < i < commands.len() && (#[trigger] commands[i]).conditional() implies {
            let cell = cell_index(flags, size, i);
            &&& cell == cell_index(flags, size, i - 1) + 1
            &&& result@[cell].direction == result@[cell - 1].direction
            &&& result@[cell].coordinate@ == result@[cell - 1].coordinate@.add(
                result@[cell - 1].direction.unit(),
            )
        } by {
            assert(flags[i]);
            lemma_conditional_follows(flags, size, i);
            lemma_cell_of_command(flags, size, commands.len() as int, i);
            lemma_cell_of_command(flags, size, commands.len() as int, i - 1);
            lemma_curve_steps_to_neighbour(size as int, cell_index(flags, size, i - 1));
        }
    }
    result
}

} // verus!
