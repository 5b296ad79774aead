use minect::log::LogEvent;
use minect::{
    add_implicit_commands, is_allowed_in_identifier, parse_loaded_output, read_incremented_id,
    structure_file_name, validate_identifier, write_id, Command, ExecuteCommandsError,
    ExecuteCommandsErrorInner, LoadedListener, MinecraftConnectionBuilder,
};
use minect::io::IoErrorAtPath;
use std::path::PathBuf;

fn event(executor: &str, output: &str) -> LogEvent {
    LogEvent {
        hour: 12,
        minute: 34,
        second: 56,
        executor: executor.to_string(),
        output: output.to_string(),
    }
}

#[test]
fn command_holds_name_and_command() {
    let command = Command::new("say hi");
    assert_eq!(command.get_name(), None);
    assert_eq!(command.get_command(), "say hi");
    assert_eq!(command.get_name_as_json(), None);
    let command = Command::named("Herobrine", "say \"hi\"");
    assert_eq!(command.get_name(), Some("Herobrine"));
    assert_eq!(command.get_command(), "say \"hi\"");
    assert_eq!(
        command.get_name_as_json(),
        Some("{\"text\":\"Herobrine\"}".to_string())
    );
    assert_eq!(command.into_command(), "say \"hi\"");
}

#[test]
fn builder_keeps_its_parameters() {
    let builder = MinecraftConnectionBuilder::new("MyProgram".to_string(), PathBuf::from("world"));
    assert_eq!(builder.identifier, "MyProgram");
    assert_eq!(builder.world_dir, PathBuf::from("world"));
    assert_eq!(builder.log_file, None);
    assert!(builder.enable_logging_automatically);
    let builder = builder
        .log_file(PathBuf::from("logs/latest.log"))
        .enable_logging_automatically(false);
    assert_eq!(builder.identifier, "MyProgram");
    assert_eq!(builder.world_dir, PathBuf::from("world"));
    assert_eq!(builder.log_file, Some(PathBuf::from("logs/latest.log")));
    assert!(!builder.enable_logging_automatically);
}

#[test]
fn identifiers_allow_few_characters() {
    for c in "0123456789ABCXYZabcxyz+-._".chars() {
        assert!(is_allowed_in_identifier(c), "c={:?}", c);
    }
    for c in " !\"#$%&'()*,/:;<=>?@[\\]^`{|}~\näβ".chars() {
        assert!(!is_allowed_in_identifier(c), "c={:?}", c);
    }
    assert_eq!(validate_identifier("Valid-Id_1.+"), "");
    assert_eq!(validate_identifier(""), "");
    assert_eq!(validate_identifier("a b!b c"), " !");
    assert_eq!(validate_identifier("ÿes/no/ÿes"), "ÿ/");
}

#[test]
fn implicit_commands_surround_the_given_commands() {
    let enable = Command::new("function minect:enable_logging");
    let reset = Command::new("function minect:reset_logging");
    let loaded = Command::named(
        "minect_loaded",
        "summon area_effect_cloud ~ ~ ~ {\"CustomName\":\"{\\\"text\\\":\\\"minect_loaded_7\\\"}\"}",
    );
    let given = vec![Command::new("say hi"), Command::named("x", "say ho")];

    let (commands, len) = add_implicit_commands(7, given.clone(), true);
    assert_eq!(
        commands,
        vec![
            enable.clone(),
            loaded.clone(),
            given[0].clone(),
            given[1].clone(),
            reset.clone()
        ]
    );
    assert_eq!(len, 5);

    let (commands, len) = add_implicit_commands(7, given.clone(), false);
    assert_eq!(
        commands,
        vec![enable.clone(), loaded, reset.clone(), given[0].clone(), given[1].clone()]
    );
    assert_eq!(len, 5);

    let (commands, len) = add_implicit_commands(u64::MAX, Vec::new(), true);
    assert_eq!(commands.len(), 3);
    assert_eq!(len, 3);
    assert_eq!(
        commands[1].get_command(),
        "summon area_effect_cloud ~ ~ ~ {\"CustomName\":\"{\\\"text\\\":\\\"minect_loaded_18446744073709551615\\\"}\"}"
    );
    let (commands, len) = add_implicit_commands(0, Vec::new(), false);
    assert_eq!(commands.len(), 3);
    assert_eq!(len, 3);
}

#[test]
fn loaded_output_names_the_structure() {
    assert_eq!(
        parse_loaded_output(&event("minect_loaded", "Summoned new minect_loaded_42")),
        Some(42)
    );
    assert_eq!(
        parse_loaded_output(&event("minect_loaded", "Summoned new minect_loaded_0")),
        Some(0)
    );
    assert_eq!(
        parse_loaded_output(&event("other", "Summoned new minect_loaded_42")),
        None
    );
    assert_eq!(
        parse_loaded_output(&event("minect_loaded", "Summoned new minect_loaded_")),
        None
    );
    assert_eq!(
        parse_loaded_output(&event("minect_loaded", "Summoned new minect_loaded_4x")),
        None
    );
    assert_eq!(
        parse_loaded_output(&event("minect_loaded", "Summoned new loaded_42")),
        None
    );
    assert_eq!(
        parse_loaded_output(&event("minect_loaded", "Added tag 'minect_loaded_42' to x")),
        None
    );
}

#[test]
fn loaded_listener_removes_files_until_a_removal_fails() {
    assert_eq!(LoadedListener::on_event(&event("x", "Summoned new minect_loaded_42")), None);
    let listener =
        LoadedListener::on_event(&event("minect_loaded", "Summoned new minect_loaded_42")).unwrap();
    assert_eq!(listener, LoadedListener { id: 42, tried: 0 });
    assert_eq!(listener.get_structure_file(), "42.nbt");
    // The file of the loaded structure may be gone already
    let listener = listener.removal_tried(false).unwrap();
    assert_eq!(listener.get_structure_file(), "41.nbt");
    let listener = listener.removal_tried(true).unwrap();
    assert_eq!(listener.get_structure_file(), "40.nbt");
    assert_eq!(listener.removal_tried(false), None);

    let listener = LoadedListener { id: 0, tried: 0 };
    assert_eq!(listener.get_structure_file(), "0.nbt");
    let listener = listener.removal_tried(true).unwrap();
    assert_eq!(listener.get_structure_file(), "18446744073709551615.nbt");
    let listener = LoadedListener { id: 5, tried: u64::MAX };
    assert_eq!(listener.removal_tried(true), None);
}

#[test]
fn ids_are_incremented_and_wrap_around() {
    assert_eq!(read_incremented_id(""), Some(0));
    assert_eq!(read_incremented_id("0"), Some(1));
    assert_eq!(read_incremented_id("41"), Some(42));
    assert_eq!(read_incremented_id("+5"), Some(6));
    assert_eq!(read_incremented_id("18446744073709551615"), Some(0));
    assert_eq!(read_incremented_id("18446744073709551616"), None);
    assert_eq!(read_incremented_id("abc"), None);
    assert_eq!(read_incremented_id("-1"), None);
    assert_eq!(read_incremented_id(" 5"), None);
    assert_eq!(read_incremented_id("5\n"), None);
    assert_eq!(write_id(0), "0");
    assert_eq!(write_id(42), "42");
    let mut id = read_incremented_id("").unwrap();
    for expected in 0..5 {
        assert_eq!(id, expected);
        id = read_incremented_id(&write_id(id)).unwrap();
    }
    assert_eq!(read_incremented_id(&write_id(u64::MAX)), Some(0));
    assert_eq!(structure_file_name(17), "17.nbt");
}

#[test]
fn execute_commands_error_holds_the_io_error() {
    let cause = std::io::Error::new(std::io::ErrorKind::NotFound, "gone");
    let error = IoErrorAtPath::new("Failed to open file".to_string(), PathBuf::from("a/b.txt"), cause);
    let error = ExecuteCommandsError::from(error);
    assert_eq!(error.to_string(), "Failed to open file a/b.txt: gone");
    match error.into_inner() {
        ExecuteCommandsErrorInner::Io(error) => {
            assert_eq!(error.message, "Failed to open file");
            assert_eq!(error.path, PathBuf::from("a/b.txt"));
            assert_eq!(error.cause.kind(), std::io::ErrorKind::NotFound);
        }
    }
}

#[test]
fn io_error_mapper_keeps_message_and_path() {
    let map = IoErrorAtPath::mapper("Failed to lock file".to_string(), PathBuf::from("id.txt"));
    let error = map(std::io::Error::new(std::io::ErrorKind::PermissionDenied, "locked"));
    assert_eq!(error.message, "Failed to lock file");
    assert_eq!(error.path, PathBuf::from("id.txt"));
    assert_eq!(error.cause.kind(), std::io::ErrorKind::PermissionDenied);
    assert_eq!(error.to_string(), "Failed to lock file id.txt: locked");
    let empty = IoErrorAtPath::new(
        String::new(),
        PathBuf::new(),
        std::io::Error::new(std::io::ErrorKind::Other, ""),
    );
    assert_eq!(empty.to_string(), " : ");
    let map = minect::io::io_error("Failed to read file".to_string(), PathBuf::from("x"));
    let error = map(std::io::Error::new(std::io::ErrorKind::Other, "broken"));
    assert_eq!(error.to_string(), "Failed to read file x: broken");
}
