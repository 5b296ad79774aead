//! The structure document: the blocks of a structure, each with its position, its state from a
//! palette of block states that holds every state once, and its block entity data.

use crate::text::text_less;
use vstd::prelude::*;

verus! {

/// The version of the data format in which the documents are written.
pub const DATA_VERSION: i32 = 2724;

/// A value in the block entity data of a block.
#[derive(Clone, Debug, PartialEq, Eq)]
pub enum Value {
    Byte(i8),
    Text(String),
}

/// What a [`Value`] holds.
pub enum ValueView {
    Byte(i8),
    Text(Seq<char>),
}

impl View for Value {
    type V = ValueView;

    open spec fn view(&self) -> ValueView {
        match self {
            Value::Byte(byte) => ValueView::Byte(*byte),
            Value::Text(text) => ValueView::Text(text@),
        }
    }
}

/// What the named values of a compound hold, in their order.
pub open spec fn compound_view(entries: Seq<(String, Value)>) -> Seq<(Seq<char>, ValueView)> {
    Seq::new(entries.len(), |i: int| (entries[i].0@, entries[i].1@))
}

/// What the properties of a block state hold, in their order.
pub open spec fn properties_view(properties: Seq<(String, String)>) -> Seq<
    (Seq<char>, Seq<char>),
> {
    Seq::new(properties.len(), |i: int| (properties[i].0@, properties[i].1@))
}

/// Whether the keys of the properties rise strictly in the order of a dictionary, so that every
/// key occurs once and two block states with the same properties list them in the same order.
pub open spec fn properties_sorted(properties: Seq<(Seq<char>, Seq<char>)>) -> bool {
    forall|i: int, j: int|
        0 <= i < j < properties.len() ==> text_less(
            (#[trigger] properties[i]).0,
            (#[trigger] properties[j]).0,
        )
}

/// Whether every name of the compound occurs once.
pub open spec fn names_distinct(entries: Seq<(Seq<char>, ValueView)>) -> bool {
    forall|i: int, j: int|
        0 <= i < j < entries.len() ==> (#[trigger] entries[i]).0 != (#[trigger] entries[j]).0
}

/// A block state: the name of a block and its properties.
#[derive(Clone, Debug, PartialEq, Eq)]
pub struct PaletteBlock {
    pub name: String,
    /// The properties, ordered by their keys.
    pub properties: Vec<(String, String)>,
}

/// What a [`PaletteBlock`] holds.
pub struct PaletteBlockView {
    pub name: Seq<char>,
    pub properties: Seq<(Seq<char>, Seq<char>)>,
}

impl View for PaletteBlock {
    type V = PaletteBlockView;

    open spec fn view(&self) -> PaletteBlockView {
        PaletteBlockView { name: self.name@, properties: properties_view(self.properties@) }
    }
}

impl PaletteBlock {
    /// Whether two block states have the same name and the same properties.
    pub fn same(&self, other: &PaletteBlock) -> (same: bool)
        ensures
            same == (self@ == other@),
    {
        if self.name != other.name || self.properties.len() != other.properties.len() {
            assert(self@.properties.len() == self.properties@.len());
            assert(other@.properties.len() == other.properties@.len());
            return false;
        }
        let mut i: usize = 0;
        while i < self.properties.len()
            invariant
                i <= self.properties@.len(),
                self.properties@.len() == other.properties@.len(),
                forall|j: int| 0 <= j < i ==> self@.properties[j] == other@.properties[j],
            decreases self.properties@.len() - i,
        {
            if self.properties[i].0 != other.properties[i].0 || self.properties[i].1
                != other.properties[i].1 {
                assert(self@.properties[i as int] != other@.properties[i as int]);
                return false;
            }
            i = i + 1;
        }
        assert(self@.properties =~= other@.properties);
        true
    }
}

/// A block of a structure.
#[derive(Clone, Debug, PartialEq, Eq)]
pub struct StructureBlock {
    /// The index of the block state in the palette.
    pub state: i32,
    /// The position: x, y and z.
    pub pos: Vec<i32>,
    /// The block entity data, a compound of named values.
    pub nbt: Option<Vec<(String, Value)>>,
}

/// A structure as Minecraft loads it from a structure file.
#[derive(Clone, Debug, PartialEq, Eq)]
pub struct Structure {
    pub data_version: i32,
    /// The size: the extent in x, y and z.
    pub size: Vec<i32>,
    pub palette: Vec<PaletteBlock>,
    pub blocks: Vec<StructureBlock>,
}

/// What the block states of a palette hold, in their order.
pub open spec fn palette_view(palette: Seq<PaletteBlock>) -> Seq<PaletteBlockView> {
    Seq::new(palette.len(), |i: int| palette[i]@)
}

/// Whether the palette holds every block state once, with its properties ordered by their keys,
/// every block names a state of the palette and has block entity data in which every name
/// occurs once, and the position of every block lies below `size` on every axis.
pub open spec fn palette_and_blocks_wf(
    size: Seq<int>,
    palette: Seq<PaletteBlock>,
    blocks: Seq<StructureBlock>,
) -> bool {
    &&& size.len() == 3
    &&& size[0] >= 0 && size[1] >= 0 && size[2] >= 0
    &&& palette_view(palette).no_duplicates()
    &&& forall|i: int|
        0 <= i < palette.len() ==> properties_sorted(
            properties_view((#[trigger] palette[i]).properties@),
        )
    &&& forall|i: int|
        0 <= i < blocks.len() ==> ((#[trigger] blocks[i]).nbt matches Some(data)
            ==> names_distinct(compound_view(data@)))
    &&& forall|i: int|
        0 <= i < blocks.len() ==> 0 <= (#[trigger] blocks[i]).state < palette.len()
    &&& forall|i: int|
        0 <= i < blocks.len() ==> {
            &&& (#[trigger] blocks[i]).pos@.len() == 3
            &&& blocks[i].pos@[0] < size[0]
            &&& blocks[i].pos@[1] < size[1]
            &&& blocks[i].pos@[2] < size[2]
        }
}

impl Structure {
    /// The invariant of a structure: it is written in the current data format, the palette holds
    /// every block state once, with its properties ordered by their keys, every block names a
    /// state of the palette, no name occurs twice in the block entity data of a block, and every
    /// block lies within the size of the structure.
    pub open spec fn wf(&self) -> bool {
        &&& self.data_version == DATA_VERSION
        &&& palette_and_blocks_wf(
            Seq::new(self.size@.len(), |i: int| self.size@[i] as int),
            self.palette@,
            self.blocks@,
        )
    }
}

} // verus!
