use minect::geometry3::{Coordinate3, Direction3};
use minect::structure::nbt::{PaletteBlock, Value};
use minect::structure::{
    new_command_block, new_structure_block, Block, CommandBlockKind, StructureBuilder,
};

fn stone(pos: Coordinate3<i32>) -> Block {
    Block {
        name: "minecraft:stone".to_string(),
        pos,
        properties: Vec::new(),
        nbt: None,
    }
}

#[test]
fn builder_collects_states_once() {
    let mut builder = StructureBuilder::new();
    builder.add_block(stone(Coordinate3(0, 0, 0)));
    builder.add_block(new_command_block(
        CommandBlockKind::Chain,
        None,
        "say a".to_string(),
        true,
        false,
        Direction3::Up,
        Coordinate3(3, 1, 2),
    ));
    builder.add_block(stone(Coordinate3(1, 5, 0)));
    builder.add_block(new_command_block(
        CommandBlockKind::Chain,
        Some("name".to_string()),
        "say b".to_string(),
        true,
        true,
        Direction3::Up,
        Coordinate3(0, 0, 7),
    ));
    builder.add_block(new_command_block(
        CommandBlockKind::Chain,
        None,
        "say c".to_string(),
        false,
        true,
        Direction3::Up,
        Coordinate3(0, 0, 0),
    ));
    let structure = builder.build();
    assert_eq!(structure.data_version, 2724);
    assert_eq!(structure.size, vec![4, 6, 8]);
    assert_eq!(
        structure.palette,
        vec![
            PaletteBlock {
                name: "minecraft:stone".to_string(),
                properties: Vec::new(),
            },
            PaletteBlock {
                name: "minecraft:chain_command_block".to_string(),
                properties: vec![
                    ("conditional".to_string(), "true".to_string()),
                    ("facing".to_string(), "up".to_string()),
                ],
            },
            PaletteBlock {
                name: "minecraft:chain_command_block".to_string(),
                properties: vec![("facing".to_string(), "up".to_string())],
            },
        ]
    );
    let states: Vec<i32> = structure.blocks.iter().map(|block| block.state).collect();
    assert_eq!(states, vec![0, 1, 0, 1, 2]);
    assert_eq!(structure.blocks[1].pos, vec![3, 1, 2]);
    assert_eq!(
        structure.blocks[1].nbt,
        Some(vec![("Command".to_string(), Value::Text("say a".to_string()))])
    );
    assert_eq!(
        structure.blocks[3].nbt,
        Some(vec![
            ("Command".to_string(), Value::Text("say b".to_string())),
            ("CustomName".to_string(), Value::Text("name".to_string())),
            ("auto".to_string(), Value::Byte(1)),
        ])
    );
    assert_eq!(structure.blocks[0].nbt, None);
}

#[test]
fn empty_builder_builds_an_empty_structure() {
    let structure = StructureBuilder::new().build();
    assert_eq!(structure.size, vec![0, 0, 0]);
    assert!(structure.palette.is_empty());
    assert!(structure.blocks.is_empty());
}

#[test]
fn blocks_below_the_origin_do_not_shrink_the_size() {
    let mut builder = StructureBuilder::new();
    builder.add_block(stone(Coordinate3(-3, 2, -1)));
    let structure = builder.build();
    assert_eq!(structure.size, vec![0, 3, 0]);
    assert_eq!(structure.blocks[0].pos, vec![-3, 2, -1]);
}

#[test]
fn command_block_kinds_have_their_names() {
    assert_eq!(CommandBlockKind::Impulse.block_name(), "minecraft:command_block");
    assert_eq!(CommandBlockKind::Chain.block_name(), "minecraft:chain_command_block");
    assert_eq!(CommandBlockKind::Repeat.block_name(), "minecraft:repeating_command_block");
}

#[test]
fn structure_block_names_structure_and_mode() {
    let block = new_structure_block(
        "minect:test/1".to_string(),
        "LOAD".to_string(),
        Coordinate3(1, 2, 3),
    );
    assert_eq!(block.name, "minecraft:structure_block");
    assert_eq!(block.pos, Coordinate3(1, 2, 3));
    assert!(block.properties.is_empty());
    assert_eq!(
        block.nbt,
        Some(vec![
            ("name".to_string(), Value::Text("minect:test/1".to_string())),
            ("mode".to_string(), Value::Text("LOAD".to_string())),
        ])
    );
}

#[test]
fn palette_blocks_are_the_same_by_name_and_properties() {
    let a = PaletteBlock {
        name: "a".to_string(),
        properties: vec![("k".to_string(), "v".to_string())],
    };
    let b = PaletteBlock {
        name: "a".to_string(),
        properties: vec![("k".to_string(), "w".to_string())],
    };
    let c = PaletteBlock {
        name: "a".to_string(),
        properties: Vec::new(),
    };
    assert!(a.same(&a.clone()));
    assert!(!a.same(&b));
    assert!(!a.same(&c));
    assert!(!c.same(&a));
}
