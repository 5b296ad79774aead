use minect::command::{summon_named_entity_command, SummonNamedEntityOutput};
use minect::log::observer::{Listeners, LogEncoding};
use minect::placement::generate_structure;
use minect::structure::nbt::{PaletteBlock, Structure, StructureBlock, Value};
use minect::Command;
use std::collections::HashMap;
use tokio::sync::mpsc::unbounded_channel;

fn int_list(values: &[i32]) -> nbt::Value {
    nbt::Value::List(values.iter().map(|value| nbt::Value::Int(*value)).collect())
}

fn compound(entries: Vec<(&str, nbt::Value)>) -> nbt::Value {
    nbt::Value::Compound(
        entries
            .into_iter()
            .map(|(name, value)| (name.to_string(), value))
            .collect::<HashMap<_, _>>(),
    )
}

fn to_blob(structure: &Structure) -> nbt::Blob {
    let palette = structure
        .palette
        .iter()
        .map(|state| {
            compound(vec![
                ("Name", nbt::Value::String(state.name.clone())),
                (
                    "Properties",
                    nbt::Value::Compound(
                        state
                            .properties
                            .iter()
                            .map(|(key, value)| (key.clone(), nbt::Value::String(value.clone())))
                            .collect::<HashMap<_, _>>(),
                    ),
                ),
            ])
        })
        .collect();
    let blocks = structure
        .blocks
        .iter()
        .map(|block| {
            let mut entries = vec![
                ("state", nbt::Value::Int(block.state)),
                ("pos", int_list(&block.pos)),
            ];
            if let Some(data) = &block.nbt {
                entries.push((
                    "nbt",
                    nbt::Value::Compound(
                        data.iter()
                            .map(|(name, value)| {
                                let value = match value {
                                    Value::Byte(byte) => nbt::Value::Byte(*byte),
                                    Value::Text(text) => nbt::Value::String(text.clone()),
                                };
                                (name.clone(), value)
                            })
                            .collect::<HashMap<_, _>>(),
                    ),
                ));
            }
            compound(entries)
        })
        .collect();
    let mut blob = nbt::Blob::new();
    blob.insert("DataVersion", nbt::Value::Int(structure.data_version)).unwrap();
    blob.insert("size", int_list(&structure.size)).unwrap();
    blob.insert("palette", nbt::Value::List(palette)).unwrap();
    blob.insert("blocks", nbt::Value::List(blocks)).unwrap();
    blob.insert("entities", nbt::Value::List(Vec::new())).unwrap();
    blob
}

fn ints(value: &nbt::Value) -> Vec<i32> {
    match value {
        nbt::Value::List(values) => values
            .iter()
            .map(|value| match value {
                nbt::Value::Int(value) => *value,
                other => panic!("unexpected value {:?}", other),
            })
            .collect(),
        other => panic!("unexpected value {:?}", other),
    }
}

fn entries(value: &nbt::Value) -> &HashMap<String, nbt::Value> {
    match value {
        nbt::Value::Compound(entries) => entries,
        other => panic!("unexpected value {:?}", other),
    }
}

fn text(value: &nbt::Value) -> String {
    match value {
        nbt::Value::String(text) => text.clone(),
        other => panic!("unexpected value {:?}", other),
    }
}

fn list(value: &nbt::Value) -> &Vec<nbt::Value> {
    match value {
        nbt::Value::List(values) => values,
        other => panic!("unexpected value {:?}", other),
    }
}

fn from_blob(blob: &nbt::Blob) -> Structure {
    let palette = list(blob.get("palette").unwrap())
        .iter()
        .map(|state| {
            let state = entries(state);
            let mut properties: Vec<(String, String)> = entries(&state["Properties"])
                .iter()
                .map(|(key, value)| (key.clone(), text(value)))
                .collect();
            properties.sort();
            PaletteBlock {
                name: text(&state["Name"]),
                properties,
            }
        })
        .collect();
    let blocks = list(blob.get("blocks").unwrap())
        .iter()
        .map(|block| {
            let block = entries(block);
            StructureBlock {
                state: match block["state"] {
                    nbt::Value::Int(state) => state,
                    ref other => panic!("unexpected value {:?}", other),
                },
                pos: ints(&block["pos"]),
                nbt: block.get("nbt").map(|data| {
                    let mut data: Vec<(String, Value)> = entries(data)
                        .iter()
                        .map(|(name, value)| {
                            let value = match value {
                                nbt::Value::Byte(byte) => Value::Byte(*byte),
                                nbt::Value::String(text) => Value::Text(text.clone()),
                                other => panic!("unexpected value {:?}", other),
                            };
                            (name.clone(), value)
                        })
                        .collect();
                    data.sort_by(|a, b| a.0.cmp(&b.0));
                    data
                }),
            }
        })
        .collect();
    Structure {
        data_version: match blob.get("DataVersion").unwrap() {
            nbt::Value::Int(version) => *version,
            other => panic!("unexpected value {:?}", other),
        },
        size: ints(blob.get("size").unwrap()),
        palette,
        blocks,
    }
}

fn sorted(mut structure: Structure) -> Structure {
    for block in &mut structure.blocks {
        if let Some(data) = &mut block.nbt {
            data.sort_by(|a, b| a.0.cmp(&b.0));
        }
    }
    structure
}

#[test]
fn a_structure_round_trips_through_a_compressed_document() {
    let commands: Vec<Command> = (0..40)
        .map(|i| {
            if i % 3 == 0 {
                Command::named(&format!("name \"{}\"", i), &format!("say {}", i))
            } else {
                Command::new(&format!("say \\ {}", i))
            }
        })
        .collect();
    let structure = generate_structure("MyProgram", 8, commands);

    let mut bytes = Vec::new();
    to_blob(&structure).to_gzip_writer(&mut bytes).unwrap();
    let parsed = nbt::Blob::from_gzip_reader(&mut &bytes[..]).unwrap();

    assert_eq!(parsed, to_blob(&structure));
    assert_eq!(from_blob(&parsed), sorted(structure));
}

#[test]
fn a_named_command_is_observed_under_its_name() {
    let command = Command::named("A", &summon_named_entity_command("done"));
    let structure = generate_structure("test", 1, vec![command]);
    let block = &structure.blocks[6];
    let data = block.nbt.as_ref().unwrap();
    assert_eq!(
        data[0],
        (
            "Command".to_string(),
            Value::Text(
                "summon area_effect_cloud ~ ~ ~ {\"CustomName\":\"{\\\"text\\\":\\\"done\\\"}\"}"
                    .to_string()
            )
        )
    );
    assert_eq!(
        data[1],
        ("CustomName".to_string(), Value::Text("{\"text\":\"A\"}".to_string()))
    );

    // What Minecraft logs when the command block with the name A has run the command
    let mut listeners = Listeners::new();
    let (sender, mut receiver) = unbounded_channel();
    listeners.add_named_listener("A".to_string(), sender);
    listeners.process_line(
        LogEncoding::Utf8,
        b"[12:00:00] [Server thread/INFO]: [A: Summoned new done]\n",
    );
    let event = receiver.try_recv().unwrap();
    assert_eq!(event.executor, "A");
    assert_eq!(
        SummonNamedEntityOutput::from_str(&event.output).unwrap().name,
        "done"
    );
    assert!(receiver.try_recv().is_err());
}
