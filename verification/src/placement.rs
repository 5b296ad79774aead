//! The layout of the commands of a structure: a fixed group of blocks that loads the next
//! structure and keeps the connection alive, and behind it the chain of command blocks, which
//! fills a cuboid along a zigzag curve.

use crate::geometry3::{Coordinate3, Direction3, Orientation3};
use crate::json::{create_json_text_component, escaped, json_text_component, push_escaped};
use crate::structure::nbt::{
    compound_view, palette_view, properties_view, PaletteBlockView, Structure, ValueView,
};
use crate::structure::{
    command_block_data, command_block_properties, new_command_block, new_structure_block, Block,
    CommandBlockKind, StructureBuilder,
};
use crate::text::{decimal, push_decimal, push_signed_decimal, signed_decimal};
use crate::{commands_view, Command, CommandView};
use vstd::arithmetic::div_mod::{
    lemma_div_pos_is_pos, lemma_fundamental_div_mod, lemma_fundamental_div_mod_converse,
    lemma_mod_bound,
};
use vstd::prelude::*;
use vstd::string::StringExecFns;

verus! {

/// The namespace of the structures.
pub const NAMESPACE: &'static str = "minect";

/// The size of the cuboid that the chain of command blocks fills, in the directions x, y and z.
///
/// Minecraft limits the number of blocks that one fill command can change, with which the
/// command blocks are removed again, to 32768. X is limited to 16 and z to 8 to stay within one
/// chunk, which leaves 256 for y; the structure starts at y = 1, and the height of a world was
/// limited to 256 before Minecraft 1.18, which gives 255.
pub open spec fn max_size() -> Coordinate3<int> {
    Coordinate3(16, 255, 8)
}

/// The number of cells of the cuboid that the chain of command blocks fills.
pub const MAX_LEN: usize = 32640;

/// The greatest number of commands of one structure: every cell of the cuboid but one, which is
/// left for the clean up block that removes the chain again.
pub const MAX_COMMANDS: usize = 32639;

/// Where the cuboid of the chain of command blocks begins in the structure.
pub open spec fn cmd_block_offset() -> Coordinate3<int> {
    Coordinate3(0, 0, 8)
}

/// The orientation of the curve in the structure: x first, then z, then y.
pub open spec fn curve_orientation() -> Orientation3 {
    Orientation3::XZY
}

/// The size of the cuboid as the curve sees it, before it is oriented.
pub open spec fn curve_size() -> Coordinate3<int> {
    Coordinate3(16, 8, 255)
}

/// The direction in which the zigzag curve leaves the cell `current` of a cuboid of the given
/// size; `None` for the last cell of the curve.
///
/// The curve runs along x, forwards in the rows in which y and z are both even or both odd and
/// backwards in the others. At the end of a row it steps along y, upwards in the layers in
/// which z is even and downwards in the others, and at the end of a layer it steps along z.
pub open spec fn cuboid_direction(current: Coordinate3<int>, size: Coordinate3<int>) -> Option<
    Direction3,
> {
    let forward0 = (current.1 % 2 == 0) == (current.2 % 2 == 0);
    let limit0 = if forward0 {
        size.0 - 1
    } else {
        0
    };
    let forward1 = current.2 % 2 == 0;
    let limit1 = if forward1 {
        size.1 - 1
    } else {
        0
    };
    if current.0 != limit0 {
        Some(if forward0 {
            Direction3::East
        } else {
            Direction3::West
        })
    } else if current.1 != limit1 {
        Some(if forward1 {
            Direction3::Up
        } else {
            Direction3::Down
        })
    } else if current.2 != size.2 - 1 {
        Some(Direction3::South)
    } else {
        None
    }
}

/// The cell in row `row` of layer `layer` that the curve reaches after `column` steps in that
/// row, where the rows of a layer and the layers are counted in the order of the curve.
pub open spec fn cuboid_cell_at(size: Coordinate3<int>, layer: int, row: int, column: int)
    -> Coordinate3<int> {
    let y = if layer % 2 == 0 {
        row
    } else {
        size.1 - 1 - row
    };
    let x = if (y % 2 == 0) == (layer % 2 == 0) {
        column
    } else {
        size.0 - 1 - column
    };
    Coordinate3(x, y, layer)
}

/// The cell with the given index on the zigzag curve through a cuboid of the given size. The
/// curve starts at the origin.
pub open spec fn cuboid_cell(size: Coordinate3<int>, index: int) -> Coordinate3<int> {
    cuboid_cell_at(size, (index / size.0) / size.1, (index / size.0) % size.1, index % size.0)
}

/// Whether `cell` lies in the cuboid of the given size.
pub open spec fn in_cuboid(cell: Coordinate3<int>, size: Coordinate3<int>) -> bool {
    &&& 0 <= cell.0 < size.0
    &&& 0 <= cell.1 < size.1
    &&& 0 <= cell.2 < size.2
}

/// The number of cells of a cuboid of the given size.
pub open spec fn volume(size: Coordinate3<int>) -> int {
    size.0 * size.1 * size.2
}

proof fn lemma_cuboid_index(size: Coordinate3<int>, layer: int, row: int, column: int)
    requires
        size.0 >= 1,
        size.1 >= 1,
        0 <= column < size.0,
        0 <= row < size.1,
        0 <= layer,
    ensures
        ({
            let index = (layer * size.1 + row) * size.0 + column;
            &&& index >= 0
            &&& index % size.0 == column
            &&& (index / size.0) % size.1 == row
            &&& (index / size.0) / size.1 == layer
            &&& cuboid_cell(size, index) == cuboid_cell_at(size, layer, row, column)
        }),
{
    let rows = layer * size.1 + row;
    let index = rows * size.0 + column;
    assert(layer * size.1 >= 0) by (nonlinear_arith)
        requires
            layer >= 0,
            size.1 >= 1,
    ;
    assert(rows * size.0 >= 0) by (nonlinear_arith)
        requires
            rows >= 0,
            size.0 >= 1,
    ;
    lemma_fundamental_div_mod_converse(index, size.0, rows, column);
    lemma_fundamental_div_mod_converse(rows, size.1, layer, row);
}

/// The curve starts at the origin, it stays in the cuboid, it steps from every cell but the
/// last to a cell that shares a face with it, in the direction that [`cuboid_direction`]
/// gives, and it ends in the last cell, only there.
pub proof fn lemma_cuboid_step(size: Coordinate3<int>, index: int)
    requires
        size.0 >= 1,
        size.1 >= 1,
        size.2 >= 1,
        0 <= index < volume(size),
    ensures
        in_cuboid(cuboid_cell(size, index), size),
        index == 0 <==> cuboid_cell(size, index) == Coordinate3(0int, 0int, 0int),
        index + 1 == volume(size) <==> cuboid_direction(cuboid_cell(size, index), size) is None,
        index + 1 < volume(size) ==> cuboid_cell(size, index + 1) == cuboid_cell(
            size,
            index,
        ).add(cuboid_direction(cuboid_cell(size, index), size)->Some_0.unit()),
{
    let column = index % size.0;
    let rows = index / size.0;
    let row = rows % size.1;
    let layer = rows / size.1;
    lemma_fundamental_div_mod(index, size.0);
    lemma_mod_bound(index, size.0);
    lemma_div_pos_is_pos(index, size.0);
    lemma_fundamental_div_mod(rows, size.1);
    lemma_mod_bound(rows, size.1);
    lemma_div_pos_is_pos(rows, size.1);
    assert(index == (layer * size.1 + row) * size.0 + column) by (nonlinear_arith)
        requires
            index == size.0 * rows + column,
            rows == size.1 * layer + row,
    ;
    assert(layer < size.2) by (nonlinear_arith)
        requires
            index == (layer * size.1 + row) * size.0 + column,
            index < size.0 * size.1 * size.2,
            0 <= column,
            0 <= row,
            size.0 >= 1,
            size.1 >= 1,
            layer >= 0,
    ;
    assert(index + 1 == size.0 * size.1 * size.2 <==> (column == size.0 - 1 && row == size.1 - 1
        && layer == size.2 - 1)) by (nonlinear_arith)
        requires
            index == (layer * size.1 + row) * size.0 + column,
            index < size.0 * size.1 * size.2,
            0 <= column < size.0,
            0 <= row < size.1,
            0 <= layer < size.2,
    ;
    assert(index == 0 <==> (column == 0 && row == 0 && layer == 0)) by (nonlinear_arith)
        requires
            index == (layer * size.1 + row) * size.0 + column,
            0 <= column < size.0,
            0 <= row < size.1,
            0 <= layer,
            size.0 >= 1,
            size.1 >= 1,
    ;
    if column + 1 < size.0 {
        lemma_cuboid_index(size, layer, row, column + 1);
        assert(index + 1 == (layer * size.1 + row) * size.0 + (column + 1));
    } else if row + 1 < size.1 {
        lemma_cuboid_index(size, layer, row + 1, 0);
        assert(index + 1 == (layer * size.1 + (row + 1)) * size.0 + 0) by (nonlinear_arith)
            requires
                index == (layer * size.1 + row) * size.0 + column,
                column + 1 == size.0,
        ;
    } else if layer + 1 < size.2 {
        lemma_cuboid_index(size, layer + 1, 0, 0);
        assert(index + 1 == ((layer + 1) * size.1 + 0) * size.0 + 0) by (nonlinear_arith)
            requires
                index == (layer * size.1 + row) * size.0 + column,
                column + 1 == size.0,
                row + 1 == size.1,
        ;
    }
}

/// The curve comes to no cell twice.
pub proof fn lemma_cuboid_cells_distinct(size: Coordinate3<int>, first: int, second: int)
    requires
        size.0 >= 1,
        size.1 >= 1,
        0 <= first,
        0 <= second,
        cuboid_cell(size, first) == cuboid_cell(size, second),
    ensures
        first == second,
{
    lemma_fundamental_div_mod(first, size.0);
    lemma_mod_bound(first, size.0);
    lemma_div_pos_is_pos(first, size.0);
    lemma_fundamental_div_mod(first / size.0, size.1);
    lemma_mod_bound(first / size.0, size.1);
    lemma_fundamental_div_mod(second, size.0);
    lemma_mod_bound(second, size.0);
    lemma_div_pos_is_pos(second, size.0);
    lemma_fundamental_div_mod(second / size.0, size.1);
    lemma_mod_bound(second / size.0, size.1);
    assert((first / size.0) / size.1 == (second / size.0) / size.1);
    assert((first / size.0) % size.1 == (second / size.0) % size.1);
    assert(first % size.0 == second % size.0);
}

/// Finds the direction in which the zigzag curve leaves the cell `current` of a cuboid of the
/// given size; `None` for the last cell of the curve.
pub fn direction_in_cuboid_curve(current: Coordinate3<i32>, size: Coordinate3<i32>) -> (direction:
    Option<Direction3>)
    requires
        size.0 > i32::MIN,
        size.1 > i32::MIN,
        size.2 > i32::MIN,
    ensures
        direction == cuboid_direction(current@, size@),
{
    // Try advance x
    {
        let forward0 = (current.1 % 2 == 0) == (current.2 % 2 == 0);
        let max0 = size.0 - 1;
        let limit0 = if forward0 {
            max0
        } else {
            0
        };
        if current.0 != limit0 {
            return Some(
                if forward0 {
                    Direction3::East
                } else {
                    Direction3::West
                },
            );
        }
    }
    // Try advance y
    {
        let forward1 = current.2 % 2 == 0;
        let max1 = size.1 - 1;
        let limit1 = if forward1 {
            max1
        } else {
            0
        };
        if current.1 != limit1 {
            return Some(
                if forward1 {
                    Direction3::Up
                } else {
                    Direction3::Down
                },
            );
        }
    }
    // Try advance z
    {
        let max2 = size.2 - 1;
        let limit2 = max2;
        if current.2 != limit2 {
            return Some(Direction3::South);
        }
    }
    None
}

/// A space filling curve with a zigzag pattern in the form of a cuboid. Whenever possible the
/// curve steps along x, then along y, and if that is not possible along z. It gives every cell
/// of the cuboid but the last one, together with the direction to the next cell.
pub struct CuboidCurve {
    next: Option<Coordinate3<i32>>,
    size: Coordinate3<i32>,
}

impl CuboidCurve {
    /// The cell that the curve gives next, if it has not ended.
    pub closed spec fn position(&self) -> Option<Coordinate3<int>> {
        match self.next {
            Some(next) => Some(next@),
            None => None,
        }
    }

    /// The size of the cuboid.
    pub closed spec fn size(&self) -> Coordinate3<int> {
        self.size@
    }

    /// The invariant of the curve: the cuboid is not empty and the curve is in it.
    pub open spec fn wf(&self) -> bool {
        &&& self.size().0 >= 1 && self.size().1 >= 1 && self.size().2 >= 1
        &&& self.position() matches Some(position) ==> in_cuboid(position, self.size())
    }

    /// The curve through a cuboid of the given size, at its start in the origin.
    pub fn new(size: Coordinate3<i32>) -> (curve: CuboidCurve)
        ensures
            curve.position() == Some(Coordinate3(0int, 0int, 0int)),
            curve.size() == size@,
    {
        CuboidCurve { next: Some(Coordinate3(0, 0, 0)), size }
    }

    /// Gives the current cell of the curve and the direction to the next cell, and moves on
    /// to the next cell. In the last cell the curve ends: it gives nothing for it, and nothing
    /// from then on.
    pub fn next(&mut self) -> (item: Option<(Coordinate3<i32>, Direction3)>)
        requires
            old(self).wf(),
        ensures
            final(self).wf(),
            final(self).size() == old(self).size(),
            match old(self).position() {
                None => item is None && final(self).position() is None,
                Some(current) => match cuboid_direction(current, old(self).size()) {
                    None => item is None && final(self).position() is None,
                    Some(direction) => {
                        &&& item matches Some(given)
                        &&& given.0@ == current
                        &&& given.1 == direction
                        &&& final(self).position() == Some(current.add(direction.unit()))
                    },
                },
            },
    {
        let current = match self.next {
            None => { return None; },
            Some(current) => current,
        };
        let direction = direction_in_cuboid_curve(current, self.size);
        match direction {
            None => {
                // Leave the last corner for the command block that removes the chain
                self.next = None;
                None
            },
            Some(direction) => {
                self.next = Some(current.add(direction.as_coordinate(1, 0)));
                Some((current, direction))
            },
        }
    }
}

/// Whether `block` is the command block for the command with index `index` of a structure: an
/// impulse command block for the first command and a chain command block for the others, which
/// is always active and not conditional, stands in the cell with that index on the curve and
/// faces the next cell.
pub open spec fn is_command_block(block: Block, command: CommandView, index: int) -> bool {
    let cell = cuboid_cell(curve_size(), index);
    let direction = cuboid_direction(cell, curve_size())->Some_0;
    let kind = if index == 0 {
        CommandBlockKind::Impulse
    } else {
        CommandBlockKind::Chain
    };
    &&& block.name@ == kind.name()
    &&& block.pos@ == curve_orientation().orient(cell).add(cmd_block_offset())
    &&& properties_view(block.properties@) == command_block_properties(
        false,
        curve_orientation().orient_unit(direction),
    )
    &&& block.nbt matches Some(data)
    &&& compound_view(data@) == command_block_data(
        match command.name {
            Some(name) => Some(json_text_component(name)),
            None => None,
        },
        command.command,
        true,
    )
}

/// The position in the structure of the cell with the given index of the chain.
pub open spec fn chain_position(index: int) -> Coordinate3<int> {
    curve_orientation().orient(cuboid_cell(curve_size(), index)).add(cmd_block_offset())
}

/// The direction in the structure from the cell with the given index of the chain to the next
/// cell.
pub open spec fn chain_direction(index: int) -> Direction3 {
    curve_orientation().orient_unit(
        cuboid_direction(cuboid_cell(curve_size(), index), curve_size())->Some_0,
    )
}

/// Whether `position` lies in the cuboid of the chain.
pub open spec fn in_chain_box(position: Coordinate3<int>) -> bool {
    &&& 0 <= position.0 < 16
    &&& 0 <= position.1 < 255
    &&& 8 <= position.2 < 16
}

/// Every cell of the chain lies in the cuboid of the chain, and every cell but the last steps
/// to the next cell in its direction.
pub proof fn lemma_chain_position(index: int)
    requires
        0 <= index < MAX_LEN,
    ensures
        in_chain_box(chain_position(index)),
        index + 1 < MAX_LEN ==> chain_position(index + 1) == chain_position(index).add(
            chain_direction(index).unit(),
        ),
{
    assert(volume(curve_size()) == MAX_LEN);
    lemma_cuboid_step(curve_size(), index);
}

/// The lower corner of the box around the first `count` cells of the chain.
pub open spec fn chain_lower(count: int) -> Coordinate3<int>
    decreases count,
{
    if count <= 1 {
        chain_position(0)
    } else {
        Coordinate3::min_corner(chain_lower(count - 1), chain_position(count - 1))
    }
}

/// The upper corner of the box around the first `count` cells of the chain.
pub open spec fn chain_upper(count: int) -> Coordinate3<int>
    decreases count,
{
    if count <= 1 {
        chain_position(0)
    } else {
        Coordinate3::max_corner(chain_upper(count - 1), chain_position(count - 1))
    }
}

/// The text of the command that fills the box between the corners `lower` and `upper` with
/// air. The corners are given relative to the block that executes the command.
pub open spec fn clean_up_command_text(lower: Coordinate3<int>, upper: Coordinate3<int>) -> Seq<
    char,
> {
    "fill ~"@ + signed_decimal(lower.0) + " ~"@ + signed_decimal(lower.1) + " ~"@
        + signed_decimal(lower.2) + " ~"@ + signed_decimal(upper.0) + " ~"@ + signed_decimal(
        upper.1,
    ) + " ~"@ + signed_decimal(upper.2) + " air"@
}

/// Generates the command that fills the box between the corners `lower` and `upper` with air.
/// The corners are given relative to the block that executes the command.
pub fn clean_up_command(lower: Coordinate3<i32>, upper: Coordinate3<i32>) -> (command: String)
    ensures
        command@ == clean_up_command_text(lower@, upper@),
{
    let mut command = String::from_str("fill ~");
    push_signed_decimal(&mut command, lower.0);
    command.append(" ~");
    push_signed_decimal(&mut command, lower.1);
    command.append(" ~");
    push_signed_decimal(&mut command, lower.2);
    command.append(" ~");
    push_signed_decimal(&mut command, upper.0);
    command.append(" ~");
    push_signed_decimal(&mut command, upper.1);
    command.append(" ~");
    push_signed_decimal(&mut command, upper.2);
    command.append(" air");
    command
}

/// The direction that the clean up block in the cell with the given index of the chain faces:
/// back to the cell before it, and east in the first cell, so that it points into the cuboid
/// of the chain.
pub open spec fn clean_up_facing(index: int) -> Direction3 {
    if index == 0 {
        Direction3::East
    } else {
        chain_direction(index - 1).neg()
    }
}

/// Whether `block` is the clean up block behind a chain of `index` command blocks: a command
/// block in the cell with that index of the chain, which is always active and not conditional,
/// faces back into the cuboid and fills the box around all cells of the chain, its own cell
/// included, with air. It is an impulse command block if it is the first block of the chain and
/// a chain command block otherwise.
pub open spec fn is_clean_up_block(block: Block, index: int) -> bool {
    let position = chain_position(index);
    let kind = if index == 0 {
        CommandBlockKind::Impulse
    } else {
        CommandBlockKind::Chain
    };
    &&& block.name@ == kind.name()
    &&& block.pos@ == position
    &&& properties_view(block.properties@) == command_block_properties(
        false,
        clean_up_facing(index),
    )
    &&& block.nbt matches Some(data)
    &&& compound_view(data@) == command_block_data(
        None,
        clean_up_command_text(
            chain_lower(index + 1).sub(position),
            chain_upper(index + 1).sub(position),
        ),
        true,
    )
}

/// The number of commands among `commands_len` commands that get a command block.
pub open spec fn placed_commands(commands_len: nat) -> int {
    if commands_len <= MAX_COMMANDS {
        commands_len as int
    } else {
        MAX_COMMANDS as int
    }
}

/// Whether `blocks` are the chain for `commands`: one command block for each of the first
/// [`MAX_COMMANDS`] commands, in their order, and behind them the clean up block.
pub open spec fn are_command_blocks(blocks: Seq<Block>, commands: Seq<CommandView>) -> bool {
    let count = placed_commands(commands.len());
    &&& blocks.len() == count + 1
    &&& forall|i: int| 0 <= i < count ==> is_command_block(#[trigger] blocks[i], commands[i], i)
    &&& is_clean_up_block(blocks[count], count)
}

/// The number of commands at the end of a list of `commands_len` commands for which
/// [`generate_command_blocks`] generates no command block.
pub fn ignored_commands(commands_len: usize) -> (ignored: usize)
    ensures
        ignored == commands_len - placed_commands(commands_len as nat),
{
    if commands_len <= MAX_COMMANDS {
        0
    } else {
        commands_len - MAX_COMMANDS
    }
}

/// Finds the corners of the box around the cells of the command blocks `blocks` and the cell
/// at `position` behind them.
fn bounding_box(blocks: &Vec<Block>, position: Coordinate3<i32>) -> (corners: (
    Coordinate3<i32>,
    Coordinate3<i32>,
))
    requires
        blocks@.len() < MAX_LEN,
        forall|i: int| 0 <= i < blocks@.len() ==> (#[trigger] blocks@[i]).pos@ == chain_position(i),
        position@ == chain_position(blocks@.len() as int),
    ensures
        corners.0@ == chain_lower(blocks@.len() as int + 1),
        corners.1@ == chain_upper(blocks@.len() as int + 1),
        in_chain_box(corners.0@),
        in_chain_box(corners.1@),
{
    let count = blocks.len();
    proof {
        lemma_chain_position(count as int);
        lemma_chain_position(0);
    }
    if count == 0 {
        return (position, position);
    }
    let mut lower = blocks[0].pos;
    let mut upper = blocks[0].pos;
    let mut i: usize = 1;
    while i < count
        invariant
            1 <= i <= count == blocks@.len() < MAX_LEN,
            forall|i: int|
                0 <= i < blocks@.len() ==> (#[trigger] blocks@[i]).pos@ == chain_position(i),
            lower@ == chain_lower(i as int),
            upper@ == chain_upper(i as int),
            in_chain_box(lower@),
            in_chain_box(upper@),
        decreases count - i,
    {
        proof {
            lemma_chain_position(i as int);
        }
        lower = Coordinate3::<i32>::min(lower, blocks[i].pos);
        upper = Coordinate3::<i32>::max(upper, blocks[i].pos);
        i = i + 1;
    }
    lower = Coordinate3::<i32>::min(lower, position);
    upper = Coordinate3::<i32>::max(upper, position);
    (lower, upper)
}

/// Generates the chain for `commands`: a command block for every command and behind them the
/// clean up block, which removes the chain again after the last command. The chain fills the
/// cuboid along the zigzag curve. Only the first [`MAX_COMMANDS`] commands get a command block,
/// the rest is ignored.
pub fn generate_command_blocks(commands: Vec<Command>) -> (blocks: Vec<Block>)
    ensures
        are_command_blocks(blocks@, commands_view(commands@)),
        blocks@.len() == placed_commands(commands@.len()) + 1,
        blocks@.len() <= MAX_LEN,
        commands@.len() > MAX_COMMANDS ==> blocks@.len() == MAX_COMMANDS + 1,
        forall|i: int|
            0 <= i < blocks@.len() ==> (#[trigger] blocks@[i]).wf() && in_chain_box(
                blocks@[i].pos@,
            ),
{
    let curve_orientation = Orientation3::XZY;
    let max_size = curve_orientation.inverse().orient_coordinate(Coordinate3(16, 255, 8));
    assert(max_size@ == curve_size());
    let mut curve = CuboidCurve::new(max_size);
    let ghost given = commands_view(commands@);
    let mut blocks: Vec<Block> = Vec::new();
    let mut previous: Option<(Coordinate3<i32>, Direction3)> = None;
    for command in iter: commands
        invariant
            iter.seq() == commands@,
            given == commands_view(commands@),
            curve_orientation == Orientation3::XZY,
            curve.wf(),
            curve.size() == curve_size(),
            curve.position() == (if iter.index() < MAX_LEN {
                Some(cuboid_cell(curve_size(), iter.index()))
            } else {
                None
            }),
            blocks@.len() == placed_commands(iter.index() as nat),
            match previous {
                None => blocks@.len() == 0,
                Some((cell, direction)) => {
                    &&& blocks@.len() > 0
                    &&& cell@ == cuboid_cell(curve_size(), blocks@.len() - 1)
                    &&& cuboid_direction(cell@, curve_size()) == Some(direction)
                },
            },
            forall|i: int|
                0 <= i < blocks@.len() ==> {
                    &&& is_command_block(#[trigger] blocks@[i], given[i], i)
                    &&& blocks@[i].pos@ == chain_position(i)
                    &&& blocks@[i].wf()
                    &&& in_chain_box(blocks@[i].pos@)
                },
    {
        let ghost index = iter.index();
        proof {
            if index < MAX_LEN {
                lemma_chain_position(index);
                lemma_cuboid_step(curve_size(), index);
            }
        }
        match curve.next() {
            None => {},
            Some((cell, step)) => {
                let coordinate = curve_orientation.orient_coordinate(cell);
                let direction = curve_orientation.orient_direction(step);
                let first = coordinate.0 == 0 && coordinate.1 == 0 && coordinate.2 == 0;
                let kind = if first {
                    CommandBlockKind::Impulse
                } else {
                    CommandBlockKind::Chain
                };
                let name = command.get_name_as_json();
                let block = new_command_block(
                    kind,
                    name,
                    command.into_command(),
                    false,
                    true,
                    direction,
                    coordinate.add(Coordinate3(0, 0, 8)),
                );
                assert(is_command_block(block, given[index], index));
                blocks.push(block);
                previous = Some((cell, step));
            },
        }
    }
    let block = new_clean_up_block(&blocks, previous);
    blocks.push(block);
    blocks
}

/// Creates the clean up block behind the command blocks `blocks` of a chain: it stands in the
/// next cell of the curve, faces back to the last command block and fills the box around all
/// cells of the chain, its own cell included, with air. `previous` is the cell of the last
/// command block on the curve and the direction in which the curve leaves it; `None` for a
/// chain without command blocks.
pub fn new_clean_up_block(
    blocks: &Vec<Block>,
    previous: Option<(Coordinate3<i32>, Direction3)>,
) -> (block: Block)
    requires
        blocks@.len() < MAX_LEN,
        forall|i: int| 0 <= i < blocks@.len() ==> (#[trigger] blocks@[i]).pos@ == chain_position(i),
        match previous {
            None => blocks@.len() == 0,
            Some((cell, direction)) => {
                &&& blocks@.len() > 0
                &&& cell@ == cuboid_cell(curve_size(), blocks@.len() - 1)
                &&& cuboid_direction(cell@, curve_size()) == Some(direction)
            },
        },
    ensures
        is_clean_up_block(block, blocks@.len() as int),
        block.wf(),
        in_chain_box(block.pos@),
{
    let curve_orientation = Orientation3::XZY;
    let ghost count = blocks@.len() as int;
    proof {
        assert(volume(curve_size()) == MAX_LEN);
        lemma_chain_position(count);
        lemma_cuboid_step(curve_size(), count);
        if count > 0 {
            lemma_cuboid_step(curve_size(), count - 1);
        }
    }
    let (cell, facing) = match previous {
        None => (Coordinate3(0, 0, 0), Direction3::East),
        Some((cell, step)) => (
            cell.add(step.as_coordinate(1, 0)),
            curve_orientation.orient_direction(step).neg(),
        ),
    };
    assert(cell@ == cuboid_cell(curve_size(), count));
    assert(facing == clean_up_facing(count));
    let coordinate = curve_orientation.orient_coordinate(cell);
    let position = coordinate.add(Coordinate3(0, 0, 8));
    assert(position@ == chain_position(count));
    let (lower, upper) = bounding_box(blocks, position);
    let first = coordinate.0 == 0 && coordinate.1 == 0 && coordinate.2 == 0;
    let kind = if first {
        CommandBlockKind::Impulse
    } else {
        CommandBlockKind::Chain
    };
    new_command_block(
        kind,
        None,
        clean_up_command(lower.sub(position), upper.sub(position)),
        false,
        true,
        facing,
        position,
    )
}

/// The name of the structure with the given id of the connection with the given id.
pub open spec fn structure_name(connection_id: Seq<char>, structure_id: u64) -> Seq<char> {
    NAMESPACE@ + ":"@ + connection_id + "/"@ + decimal(structure_id as nat)
}

/// The text of the command that summons the entity of a connection, unless it is there.
pub open spec fn summon_connection_entity_command_text(connection_id: Seq<char>) -> Seq<char> {
    "execute positioned ~ ~2 ~ align xyz unless entity @e[type=area_effect_cloud,"@
        + "dx=1,dy=1,dz=1,tag=minect_connection,tag=minect_connection+"@ + connection_id
        + "] run summon area_effect_cloud ~.5 ~.5 ~.5 {Duration:2147483647,CustomName:\""@
        + escaped(json_text_component(connection_id))
        + "\",Tags:[minect_connection,minect_connection+"@ + connection_id + "]}"@
}

/// The text of the command that replaces its command block by a repeating command block, which
/// summons the entity of a connection, unless it is there.
pub open spec fn refresh_connection_command_text(connection_id: Seq<char>) -> Seq<char> {
    "setblock ~ ~ ~ repeating_command_block[facing=east]{Command:\""@ + escaped(
        summon_connection_entity_command_text(connection_id),
    ) + "\",auto:true}"@
}

/// Generates the command that summons the entity of the connection with the given id, unless
/// it is there. The entity marks the place of the connection and carries its name.
pub fn summon_connection_entity_command(connection_id: &str) -> (command: String)
    ensures
        command@ == summon_connection_entity_command_text(connection_id@),
{
    let custom_name = create_json_text_component(connection_id);
    let mut command = String::from_str(
        "execute positioned ~ ~2 ~ align xyz unless entity @e[type=area_effect_cloud,",
    );
    command.append("dx=1,dy=1,dz=1,tag=minect_connection,tag=minect_connection+");
    command.append(connection_id);
    command.append(
        "] run summon area_effect_cloud ~.5 ~.5 ~.5 {Duration:2147483647,CustomName:\"",
    );
    push_escaped(&mut command, custom_name.as_str());
    command.append("\",Tags:[minect_connection,minect_connection+");
    command.append(connection_id);
    command.append("]}");
    command
}

/// Whether `block` is a plain block with the given name at the given position, without
/// properties and without block entity data.
pub open spec fn is_plain_block(block: Block, name: Seq<char>, pos: Coordinate3<int>) -> bool {
    &&& block.name@ == name
    &&& block.pos@ == pos
    &&& block.properties@.len() == 0
    &&& block.nbt is None
}

/// Whether `block` is a structure block at the given position with the given mode, which names
/// the structure `name`.
pub open spec fn is_structure_block(
    block: Block,
    name: Seq<char>,
    mode: Seq<char>,
    pos: Coordinate3<int>,
) -> bool {
    &&& block.name@ == "minecraft:structure_block"@
    &&& block.pos@ == pos
    &&& block.properties@.len() == 0
    &&& block.nbt matches Some(data)
    &&& compound_view(data@) == seq![
        ("name"@, ValueView::Text(name)),
        ("mode"@, ValueView::Text(mode)),
    ]
}

/// Whether `blocks` are the fixed group of blocks of the structure of a connection, which
/// names the next structure. From bottom to top: a structure block that loads the next
/// structure, a stone, a structure block that marks the corner of the structure, an impulse
/// command block that replaces itself by the repeating command block that keeps the entity of
/// the connection, a redstone block and an activator rail.
pub open spec fn is_basic_structure(
    blocks: Seq<Block>,
    connection_id: Seq<char>,
    next_structure_id: u64,
) -> bool {
    let name = structure_name(connection_id, next_structure_id);
    &&& blocks.len() == 6
    &&& is_structure_block(blocks[0], name, "LOAD"@, Coordinate3(0, 0, 0))
    &&& is_plain_block(blocks[1], "minecraft:stone"@, Coordinate3(0, 1, 0))
    &&& is_structure_block(blocks[2], name, "CORNER"@, Coordinate3(0, 2, 0))
    &&& blocks[3].name@ == CommandBlockKind::Impulse.name()
    &&& blocks[3].pos@ == Coordinate3(0int, 3int, 0int)
    &&& properties_view(blocks[3].properties@) == command_block_properties(
        false,
        Direction3::East,
    )
    &&& blocks[3].nbt matches Some(data)
    &&& compound_view(data@) == command_block_data(
        None,
        refresh_connection_command_text(connection_id),
        true,
    )
    &&& is_plain_block(blocks[4], "minecraft:redstone_block"@, Coordinate3(0, 4, 0))
    &&& is_plain_block(blocks[5], "minecraft:activator_rail"@, Coordinate3(0, 5, 0))
}

/// Creates a block with the given name at the given position, without properties and without
/// block entity data.
fn plain_block(name: &str, pos: Coordinate3<i32>) -> (block: Block)
    ensures
        is_plain_block(block, name@, pos@),
        block.wf(),
{
    Block { name: String::from_str(name), pos, properties: Vec::new(), nbt: None }
}

/// The name of the structure with the given id of the connection with the given id.
fn name_of_structure(connection_id: &str, structure_id: u64) -> (name: String)
    ensures
        name@ == structure_name(connection_id@, structure_id),
{
    let mut name = String::from_str(NAMESPACE);
    name.append(":");
    name.append(connection_id);
    name.append("/");
    push_decimal(&mut name, structure_id);
    name
}

/// Generates the fixed group of blocks of the structure of the connection with the given id,
/// which names the next structure.
pub fn generate_basic_structure(connection_id: &str, next_structure_id: u64) -> (blocks: Vec<Block>)
    ensures
        is_basic_structure(blocks@, connection_id@, next_structure_id),
        forall|i: int| 0 <= i < blocks@.len() ==> (#[trigger] blocks@[i]).wf(),
{
    let mut blocks: Vec<Block> = Vec::new();
    blocks.push(
        new_structure_block(
            name_of_structure(connection_id, next_structure_id),
            String::from_str("LOAD"),
            Coordinate3(0, 0, 0),
        ),
    );
    blocks.push(plain_block("minecraft:stone", Coordinate3(0, 1, 0)));
    blocks.push(
        new_structure_block(
            name_of_structure(connection_id, next_structure_id),
            String::from_str("CORNER"),
            Coordinate3(0, 2, 0),
        ),
    );
    // The repeating command block of the previous structure is replaced by an impulse command
    // block to reset its place in the order of execution. This way it is executed after the
    // chain (it stands higher) and can execute the logged block commands that were registered
    // in the same tick. It then replaces itself by a repeating command block, which refreshes
    // the entity of the connection.
    let summon = summon_connection_entity_command(connection_id);
    let mut refresh = String::from_str(
        "setblock ~ ~ ~ repeating_command_block[facing=east]{Command:\"",
    );
    push_escaped(&mut refresh, summon.as_str());
    refresh.append("\",auto:true}");
    blocks.push(
        new_command_block(
            CommandBlockKind::Impulse,
            None,
            refresh,
            false,
            true,
            Direction3::East,
            Coordinate3(0, 3, 0),
        ),
    );
    blocks.push(plain_block("minecraft:redstone_block", Coordinate3(0, 4, 0)));
    blocks.push(plain_block("minecraft:activator_rail", Coordinate3(0, 5, 0)));
    blocks
}

/// The palette for blocks with the given block states: every state once, in the order in which
/// the states come first.
pub open spec fn palette_of(states: Seq<PaletteBlockView>) -> Seq<PaletteBlockView>
    decreases states.len(),
{
    if states.len() == 0 {
        Seq::empty()
    } else {
        let before = palette_of(states.drop_last());
        if before.contains(states.last()) {
            before
        } else {
            before.push(states.last())
        }
    }
}

/// The size of a structure with blocks at the given positions: one beyond the greatest
/// position on every axis, and nothing below zero.
pub open spec fn size_of(positions: Seq<Coordinate3<int>>) -> Coordinate3<int>
    decreases positions.len(),
{
    if positions.len() == 0 {
        Coordinate3(0, 0, 0)
    } else {
        Coordinate3::max_corner(
            size_of(positions.drop_last()),
            positions.last().add(Coordinate3(1, 1, 1)),
        )
    }
}

/// Whether `structure` holds exactly `blocks`, in their order: every block with its position
/// and its block entity data, the palette with the block states of the blocks, each once in
/// the order in which they come first, and the size one beyond the greatest position.
pub open spec fn structure_holds(structure: Structure, blocks: Seq<Block>) -> bool {
    let states = Seq::new(blocks.len(), |i: int| blocks[i].state());
    let positions = Seq::new(blocks.len(), |i: int| blocks[i].pos@);
    let size = size_of(positions);
    &&& structure.wf()
    &&& structure.size@ == seq![size.0 as i32, size.1 as i32, size.2 as i32]
    &&& palette_view(structure.palette@) == palette_of(states)
    &&& structure.blocks@.len() == blocks.len()
    &&& forall|i: int|
        0 <= i < blocks.len() ==> {
            &&& (#[trigger] structure.blocks@[i]).pos@ == seq![
                blocks[i].pos.0,
                blocks[i].pos.1,
                blocks[i].pos.2,
            ]
            &&& structure.blocks@[i].nbt == blocks[i].nbt
            &&& 0 <= structure.blocks@[i].state < structure.palette@.len()
            &&& structure.palette@[structure.blocks@[i].state as int]@ == blocks[i].state()
        }
}

/// Adds `blocks` to the structure of `builder`, in their order.
fn add_blocks(builder: &mut StructureBuilder, blocks: Vec<Block>, Ghost(before): Ghost<Seq<Block>>)
    requires
        old(builder).wf(),
        builds(*old(builder), before),
        before.len() + blocks@.len() < i32::MAX,
        forall|i: int|
            0 <= i < blocks@.len() ==> (#[trigger] blocks@[i]).pos.0 < i32::MAX && blocks@[i].pos.1
                < i32::MAX && blocks@[i].pos.2 < i32::MAX,
        forall|i: int| 0 <= i < blocks@.len() ==> (#[trigger] blocks@[i]).wf(),
    ensures
        final(builder).wf(),
        builds(*final(builder), before + blocks@),
{
    let ghost all = before + blocks@;
    assert(all.take(before.len() as int) =~= before);
    for block in iter: blocks
        invariant
            iter.seq() == blocks@,
            all == before + blocks@,
            before.len() + blocks@.len() < i32::MAX,
            forall|i: int|
                0 <= i < blocks@.len() ==> (#[trigger] blocks@[i]).pos.0 < i32::MAX
                    && blocks@[i].pos.1 < i32::MAX && blocks@[i].pos.2 < i32::MAX,
            forall|i: int| 0 <= i < blocks@.len() ==> (#[trigger] blocks@[i]).wf(),
            builder.wf(),
            builds(*builder, all.take(before.len() + iter.index())),
    {
        let ghost done = all.take(before.len() + iter.index());
        let ghost next = all.take(before.len() + iter.index() + 1);
        let ghost old_builder = *builder;
        assert(block == blocks@[iter.index()]);
        assert(next =~= done.push(block));
        builder.add_block(block);
        proof {
            lemma_builds_push(old_builder, *builder, done, block);
        }
    }
    assert(all.take(all.len() as int) =~= all);
}

/// Whether `builder` holds exactly `blocks`, in their order.
pub open spec fn builds(builder: StructureBuilder, blocks: Seq<Block>) -> bool {
    let states = Seq::new(blocks.len(), |i: int| blocks[i].state());
    let positions = Seq::new(blocks.len(), |i: int| blocks[i].pos@);
    &&& builder.size() == size_of(positions)
    &&& palette_view(builder.palette()) == palette_of(states)
    &&& builder.blocks().len() == blocks.len()
    &&& forall|i: int|
        0 <= i < blocks.len() ==> {
            &&& (#[trigger] builder.blocks()[i]).pos@ == seq![
                blocks[i].pos.0,
                blocks[i].pos.1,
                blocks[i].pos.2,
            ]
            &&& builder.blocks()[i].nbt == blocks[i].nbt
            &&& 0 <= builder.blocks()[i].state < builder.palette().len()
            &&& builder.palette()[builder.blocks()[i].state as int]@ == blocks[i].state()
        }
}

proof fn lemma_builds_push(
    before: StructureBuilder,
    after: StructureBuilder,
    blocks: Seq<Block>,
    block: Block,
)
    requires
        before.wf(),
        after.wf(),
        builds(before, blocks),
        after.size() == Coordinate3::max_corner(
            before.size(),
            block.pos@.add(Coordinate3(1, 1, 1)),
        ),
        palette_view(after.palette()) == (if palette_view(before.palette()).contains(
            block.state(),
        ) {
            palette_view(before.palette())
        } else {
            palette_view(before.palette()).push(block.state())
        }),
        after.blocks().len() == before.blocks().len() + 1,
        forall|i: int| 0 <= i < before.blocks().len() ==> after.blocks()[i] == before.blocks()[i],
        after.blocks().last().state == crate::structure::state_index(
            palette_view(before.palette()),
            block.state(),
        ),
        after.blocks().last().pos@ == seq![block.pos.0, block.pos.1, block.pos.2],
        after.blocks().last().nbt == block.nbt,
    ensures
        builds(after, blocks.push(block)),
{
    let all = blocks.push(block);
    let states = Seq::new(blocks.len(), |i: int| blocks[i].state());
    let all_states = Seq::new(all.len(), |i: int| all[i].state());
    let positions = Seq::new(blocks.len(), |i: int| blocks[i].pos@);
    let all_positions = Seq::new(all.len(), |i: int| all[i].pos@);
    assert(all_states.drop_last() =~= states);
    assert(all_positions.drop_last() =~= positions);
    assert(all_states.last() == block.state());
    assert(all_positions.last() == block.pos@);
    let old_palette = palette_view(before.palette());
    let new_palette = palette_view(after.palette());
    assert(new_palette.len() == after.palette().len());
    assert(old_palette.len() == before.palette().len());
    assert forall|i: int| 0 <= i < all.len() implies {
        &&& (#[trigger] after.blocks()[i]).pos@ == seq![all[i].pos.0, all[i].pos.1, all[i].pos.2]
        &&& after.blocks()[i].nbt == all[i].nbt
        &&& 0 <= after.blocks()[i].state < after.palette().len()
        &&& after.palette()[after.blocks()[i].state as int]@ == all[i].state()
    } by {
        if i < blocks.len() {
            let state = before.blocks()[i].state as int;
            assert(after.blocks()[i] == before.blocks()[i]);
            assert(old_palette[state] == before.palette()[state]@);
            assert(new_palette[state] == old_palette[state]);
            assert(new_palette[state] == after.palette()[state]@);
        } else {
            assert(after.blocks()[i] == after.blocks().last());
            let state = after.blocks()[i].state as int;
            if old_palette.contains(block.state()) {
                assert(old_palette[old_palette.index_of(block.state())] == block.state());
            }
            assert(new_palette[state] == block.state());
            assert(new_palette[state] == after.palette()[state]@);
        }
    }
}

/// Generates the structure with the commands of one batch for the connection with the given
/// identifier: the fixed group of blocks, which names the structure with the id `next_id`, and
/// the chain of command blocks for `commands`.
pub fn generate_structure(identifier: &str, next_id: u64, commands: Vec<Command>) -> (structure:
    Structure)
    ensures
        structure.wf(),
        structure.blocks@.len() == 6 + placed_commands(commands@.len()) + 1,
        exists|basic: Seq<Block>, chain: Seq<Block>|
            #![trigger structure_holds(structure, basic + chain)]
            {
                &&& is_basic_structure(basic, identifier@, next_id)
                &&& are_command_blocks(chain, commands_view(commands@))
                &&& structure_holds(structure, basic + chain)
            },
{
    let mut builder = StructureBuilder::new();
    let basic = generate_basic_structure(identifier, next_id);
    let chain = generate_command_blocks(commands);
    let ghost basic_blocks = basic@;
    let ghost chain_blocks = chain@;
    proof {
        assert forall|i: int| 0 <= i < chain_blocks.len() implies (#[trigger] chain_blocks[i]).pos.0
            < i32::MAX && chain_blocks[i].pos.1 < i32::MAX && chain_blocks[i].pos.2
            < i32::MAX by {
            assert(in_chain_box(chain_blocks[i].pos@));
        }
        assert(Seq::<Block>::empty() + basic_blocks =~= basic_blocks);
        assert(palette_view(builder.palette()) =~= Seq::empty());
        assert(builds(builder, Seq::empty()));
    }
    add_blocks(&mut builder, basic, Ghost(Seq::empty()));
    add_blocks(&mut builder, chain, Ghost(basic_blocks));
    let structure = builder.build();
    assert(structure_holds(structure, basic_blocks + chain_blocks));
    structure
}

} // verus!
