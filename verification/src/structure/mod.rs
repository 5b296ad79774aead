//! The structure document, the builder that fills it block by block, and the blocks that carry
//! commands.

pub mod nbt;
pub mod placement;

use crate::geometry3::{Coordinate3, Direction3};
use crate::structure::nbt::{
    compound_view, names_distinct, palette_and_blocks_wf, palette_view, properties_sorted,
    properties_view,
    PaletteBlock, PaletteBlockView, Structure, StructureBlock, Value, ValueView, DATA_VERSION,
};
use crate::text::text_less;
use vstd::prelude::*;
use vstd::string::StringExecFns;

verus! {

/// A block to add to a structure.
#[derive(Clone, Debug, PartialEq, Eq)]
pub struct Block {
    /// The name of the block.
    pub name: String,
    /// The position of the block in the structure.
    pub pos: Coordinate3<i32>,
    /// The properties of the block state, ordered by their keys.
    pub properties: Vec<(String, String)>,
    /// The block entity data, a compound of named values.
    pub nbt: Option<Vec<(String, Value)>>,
}

impl Block {
    /// The invariant of a block: the properties are ordered by their keys, so that every key
    /// occurs once, and every name occurs once in the block entity data.
    pub open spec fn wf(&self) -> bool {
        &&& properties_sorted(properties_view(self.properties@))
        &&& self.nbt matches Some(data) ==> names_distinct(compound_view(data@))
    }

    /// The block state of this block.
    pub open spec fn state(&self) -> PaletteBlockView {
        PaletteBlockView { name: self.name@, properties: properties_view(self.properties@) }
    }
}

/// The first index at which `state` stands in `palette`, or the length of `palette` if it does
/// not stand there.
pub open spec fn state_index(palette: Seq<PaletteBlockView>, state: PaletteBlockView) -> int {
    if palette.contains(state) {
        palette.index_of(state)
    } else {
        palette.len() as int
    }
}

/// Collects the blocks of a structure. The palette holds the block state of every block once,
/// in the order in which the states came first, and the size reaches one beyond the greatest
/// position on every axis.
pub struct StructureBuilder {
    size: Coordinate3<i32>,
    palette: Vec<PaletteBlock>,
    blocks: Vec<StructureBlock>,
}

impl StructureBuilder {
    /// The size of the structure so far.
    pub closed spec fn size(&self) -> Coordinate3<int> {
        self.size@
    }

    /// The palette so far.
    pub closed spec fn palette(&self) -> Seq<PaletteBlock> {
        self.palette@
    }

    /// The blocks so far.
    pub closed spec fn blocks(&self) -> Seq<StructureBlock> {
        self.blocks@
    }

    /// The invariant of the builder: the palette holds every block state once, with its
    /// properties ordered by their keys, every block names a state of the palette and has block
    /// entity data in which every name occurs once, no more states than blocks are held, and
    /// the position of every block lies below the size on every axis.
    pub open spec fn wf(&self) -> bool {
        &&& palette_and_blocks_wf(
            seq![self.size().0, self.size().1, self.size().2],
            self.palette(),
            self.blocks(),
        )
        &&& self.palette().len() <= self.blocks().len()
    }

    /// A builder without blocks.
    pub fn new() -> (builder: StructureBuilder)
        ensures
            builder.wf(),
            builder.size() == Coordinate3(0int, 0int, 0int),
            builder.palette().len() == 0,
            builder.blocks().len() == 0,
    {
        let builder = StructureBuilder {
            size: Coordinate3(0, 0, 0),
            palette: Vec::new(),
            blocks: Vec::new(),
        };
        assert(palette_view(builder.palette@) =~= Seq::empty());
        builder
    }

    /// Adds `block` to the structure: its block state is looked up in the palette and added
    /// there if it is new, the block is appended with the index of the state, and the size
    /// grows to one beyond the position of the block where it was smaller.
    pub fn add_block(&mut self, block: Block)
        requires
            old(self).wf(),
            block.wf(),
            old(self).blocks().len() < i32::MAX,
            block.pos.0 < i32::MAX,
            block.pos.1 < i32::MAX,
            block.pos.2 < i32::MAX,
        ensures
            final(self).wf(),
            final(self).size() == Coordinate3::max_corner(
                old(self).size(),
                block.pos@.add(Coordinate3(1, 1, 1)),
            ),
            palette_view(final(self).palette()) == (if palette_view(old(self).palette()).contains(
                block.state(),
            ) {
                palette_view(old(self).palette())
            } else {
                palette_view(old(self).palette()).push(block.state())
            }),
            final(self).blocks().len() == old(self).blocks().len() + 1,
            forall|i: int|
                0 <= i < old(self).blocks().len()
                    ==> final(self).blocks()[i] == old(self).blocks()[i],
            final(self).blocks().last().state == state_index(
                palette_view(old(self).palette()),
                block.state(),
            ),
            final(self).blocks().last().pos@ == seq![block.pos.0, block.pos.1, block.pos.2],
            final(self).blocks().last().nbt == block.nbt,
    {
        let Block { name, pos, properties, nbt } = block;
        let palette_block = PaletteBlock { name, properties };
        let ghost state = palette_block@;
        let ghost old_palette = palette_view(self.palette@);
        let mut index: usize = 0;
        while index < self.palette.len() && !self.palette[index].same(&palette_block)
            invariant
                index <= self.palette@.len(),
                old_palette == palette_view(self.palette@),
                state == palette_block@,
                forall|i: int| 0 <= i < index ==> old_palette[i] != state,
            decreases self.palette@.len() - index,
        {
            index = index + 1;
        }
        proof {
            if index < self.palette@.len() {
                assert(old_palette[index as int] == state);
                assert(old_palette.contains(state));
                let first = old_palette.index_of(state);
                assert(old_palette[first] == state);
                assert(first == index);
            } else {
                assert(!old_palette.contains(state));
            }
        }
        if index == self.palette.len() {
            self.palette.push(palette_block);
            assert(palette_view(self.palette@) =~= old_palette.push(state));
        }
        let block = StructureBlock { state: index as i32, pos: pos.into_vec(), nbt };
        self.blocks.push(block);
        self.size = Coordinate3::max(self.size, pos.add(Coordinate3(1, 1, 1)));
    }

    /// Turns the collected blocks into a structure.
    pub fn build(self) -> (structure: Structure)
        requires
            self.wf(),
        ensures
            structure.wf(),
            structure.data_version == DATA_VERSION,
            structure.size@ == seq![
                self.size().0 as i32,
                self.size().1 as i32,
                self.size().2 as i32,
            ],
            structure.palette@ == self.palette(),
            structure.blocks@ == self.blocks(),
    {
        let structure = Structure {
            data_version: DATA_VERSION,
            size: self.size.into_vec(),
            palette: self.palette,
            blocks: self.blocks,
        };
        assert(Seq::new(structure.size@.len(), |i: int| structure.size@[i] as int) =~= seq![
            self.size().0,
            self.size().1,
            self.size().2,
        ]);
        structure
    }
}

/// The kind of a command block.
#[derive(Clone, Copy, Debug, PartialEq, Eq, Structural)]
pub enum CommandBlockKind {
    /// Runs once when it is powered.
    Impulse,
    /// Runs when the command block that points at it has run.
    Chain,
    /// Runs in every tick while it is powered.
    Repeat,
}

impl CommandBlockKind {
    /// The name of the block of this kind, as characters.
    pub open spec fn name(&self) -> Seq<char> {
        match self {
            CommandBlockKind::Impulse => "minecraft:command_block"@,
            CommandBlockKind::Chain => "minecraft:chain_command_block"@,
            CommandBlockKind::Repeat => "minecraft:repeating_command_block"@,
        }
    }

    /// The name of the block of this kind.
    pub fn block_name(&self) -> (name: &'static str)
        ensures
            name@ == self.name(),
    {
        match self {
            CommandBlockKind::Impulse => "minecraft:command_block",
            CommandBlockKind::Chain => "minecraft:chain_command_block",
            CommandBlockKind::Repeat => "minecraft:repeating_command_block",
        }
    }
}

/// Creates a structure block with the given mode, which names the structure `name`.
pub fn new_structure_block(name: String, mode: String, pos: Coordinate3<i32>) -> (block: Block)
    ensures
        block.wf(),
        block.name@ == "minecraft:structure_block"@,
        block.pos == pos,
        block.properties@.len() == 0,
        block.nbt is Some,
        compound_view(block.nbt->Some_0@) == seq![
            ("name"@, ValueView::Text(name@)),
            ("mode"@, ValueView::Text(mode@)),
        ],
{
    let mut nbt: Vec<(String, Value)> = Vec::new();
    nbt.push((String::from_str("name"), Value::Text(name)));
    nbt.push((String::from_str("mode"), Value::Text(mode)));
    assert(compound_view(nbt@) =~= seq![
        ("name"@, ValueView::Text(name@)),
        ("mode"@, ValueView::Text(mode@)),
    ]);
    proof {
        lemma_structure_block_data_distinct(name@, mode@);
    }
    Block {
        name: String::from_str("minecraft:structure_block"),
        pos,
        properties: Vec::new(),
        nbt: Some(nbt),
    }
}

/// The properties of a command block that faces in the direction `facing`.
pub open spec fn command_block_properties(conditional: bool, facing: Direction3) -> Seq<
    (Seq<char>, Seq<char>),
> {
    if conditional {
        seq![("conditional"@, "true"@), ("facing"@, facing.name())]
    } else {
        seq![("facing"@, facing.name())]
    }
}

/// The block entity data of a command block.
pub open spec fn command_block_data(
    name: Option<Seq<char>>,
    command: Seq<char>,
    always_active: bool,
) -> Seq<(Seq<char>, ValueView)> {
    seq![("Command"@, ValueView::Text(command))] + (match name {
        Some(name) => seq![("CustomName"@, ValueView::Text(name))],
        None => Seq::empty(),
    }) + (if always_active {
        seq![("auto"@, ValueView::Byte(1))]
    } else {
        Seq::empty()
    })
}

/// The block entity data of a structure block with the given mode, which names the structure
/// `name`.
pub open spec fn structure_block_data(name: Seq<char>, mode: Seq<char>) -> Seq<
    (Seq<char>, ValueView),
> {
    seq![("name"@, ValueView::Text(name)), ("mode"@, ValueView::Text(mode))]
}

/// No name occurs twice in the block entity data of a structure block.
pub proof fn lemma_structure_block_data_distinct(name: Seq<char>, mode: Seq<char>)
    ensures
        names_distinct(structure_block_data(name, mode)),
{
    reveal_strlit("name");
    reveal_strlit("mode");
    assert("name"@[0] != "mode"@[0]);
}

/// No name occurs twice in the block entity data of a command block.
pub proof fn lemma_command_block_data_distinct(
    name: Option<Seq<char>>,
    command: Seq<char>,
    always_active: bool,
)
    ensures
        names_distinct(command_block_data(name, command, always_active)),
{
    reveal_strlit("Command");
    reveal_strlit("CustomName");
    reveal_strlit("auto");
    assert("Command"@.len() == 7 && "CustomName"@.len() == 10 && "auto"@.len() == 4);
}

/// The properties of a command block are ordered by their keys.
pub proof fn lemma_command_block_properties_sorted(conditional: bool, facing: Direction3)
    ensures
        properties_sorted(command_block_properties(conditional, facing)),
{
    reveal_strlit("conditional");
    reveal_strlit("facing");
    assert(text_less("conditional"@, "facing"@));
}

/// Creates a command block of the given kind at `pos`, which faces in the direction `facing`
/// and holds `command`. `name` is the custom name under which the command is executed, given as
/// a JSON text component. A conditional command block only runs if the command block behind it
/// succeeded, and one that is always active needs no redstone signal.
pub fn new_command_block(
    kind: CommandBlockKind,
    name: Option<String>,
    command: String,
    conditional: bool,
    always_active: bool,
    facing: Direction3,
    pos: Coordinate3<i32>,
) -> (block: Block)
    ensures
        block.wf(),
        block.name@ == kind.name(),
        block.pos == pos,
        properties_view(block.properties@) == command_block_properties(conditional, facing),
        block.nbt is Some,
        compound_view(block.nbt->Some_0@) == command_block_data(
            match name {
                Some(name) => Some(name@),
                None => None,
            },
            command@,
            always_active,
        ),
{
    let mut properties: Vec<(String, String)> = Vec::new();
    if conditional {
        properties.push((String::from_str("conditional"), String::from_str("true")));
    }
    properties.push((String::from_str("facing"), String::from_str(facing.as_str())));
    assert(properties_view(properties@) =~= command_block_properties(conditional, facing));

    let ghost name_view = match &name {
        Some(name) => Some(name@),
        None => None,
    };
    let mut nbt: Vec<(String, Value)> = Vec::new();
    nbt.push((String::from_str("Command"), Value::Text(command)));
    if let Some(name) = name {
        nbt.push((String::from_str("CustomName"), Value::Text(name)));
    }
    if always_active {
        nbt.push((String::from_str("auto"), Value::Byte(1)));
    }
    assert(compound_view(nbt@) =~= command_block_data(name_view, command@, always_active));
    proof {
        lemma_command_block_properties_sorted(conditional, facing);
        lemma_command_block_data_distinct(name_view, command@, always_active);
    }
    Block { name: String::from_str(kind.block_name()), pos, properties, nbt: Some(nbt) }
}

} // verus!
