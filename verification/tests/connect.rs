use minect::connect::{
    add_to_function_tag, create_connector, expand_template, remove_from_function_tag,
    wait_for_connection, ConnectError, ConnectErrorInner, FunctionTag, Output,
};
use minect::io::IoErrorAtPath;
use minect::log::LogEvent;
use minect::ExecuteCommandsError;
use std::path::PathBuf;

fn event(output: &str) -> LogEvent {
    LogEvent {
        hour: 1,
        minute: 2,
        second: 3,
        executor: "minect_connect".to_string(),
        output: output.to_string(),
    }
}

fn texts(values: &[&str]) -> Vec<String> {
    values.iter().map(|value| value.to_string()).collect()
}

#[test]
fn templates_are_expanded() {
    assert_eq!(
        expand_template("a -connection_id- b -connection_id-", "x"),
        "a x b x"
    );
    assert_eq!(expand_template("no placeholder", "x"), "no placeholder");
    assert_eq!(
        expand_template("data/functions/connection/-connection_id-/connect", "MyProgram"),
        "data/functions/connection/MyProgram/connect"
    );
    assert_eq!(
        create_connector("-connection_id-/-structure_id- -structure_id-", "c", 12),
        "c/12 12"
    );
    assert_eq!(
        create_connector("-structure_id-", "-structure_id-", 0),
        "0"
    );
}

#[test]
fn installer_reports_success_or_cancellation() {
    assert_eq!(
        Output::try_from(&event("Summoned new minect_connect_success")),
        Ok(Output::Success)
    );
    assert_eq!(
        Output::try_from(&event("Summoned new minect_connect_cancelled")),
        Ok(Output::Cancelled)
    );
    assert_eq!(
        Output::try_from(&event("Added tag 'minect_connect_cancelled' to x")),
        Ok(Output::Cancelled)
    );
    assert_eq!(
        Output::try_from(&event("Added tag 'minect_connect_success' to x")),
        Ok(Output::Success)
    );
    assert_eq!(Output::try_from(&event("Summoned new minect_connect_other")), Err(()));
    assert_eq!(Output::try_from(&event("Summoned new success")), Err(()));
    assert_eq!(Output::try_from(&event("Summoned new minect_connect_success ")), Err(()));
    assert_eq!(Output::try_from(&event("Added 0 to [a] for b (now 1)")), Err(()));
}

#[test]
fn connection_is_awaited_with_a_named_summon() {
    let command = wait_for_connection();
    assert_eq!(command.get_name(), Some("minect_connect"));
    assert_eq!(
        command.get_command(),
        "summon area_effect_cloud ~ ~ ~ {\"CustomName\":\"{\\\"text\\\":\\\"minect_connect_success\\\"}\"}"
    );
}

#[test]
fn function_tags_hold_every_function_once() {
    let mut tag = FunctionTag::from_values(&texts(&["a", "b", "a"]));
    assert_eq!(tag.to_values(), texts(&["a", "b"]));
    assert!(add_to_function_tag(&mut tag, &texts(&["b", "c", "c", "d"])));
    assert_eq!(tag.to_values(), texts(&["a", "b", "c", "d"]));
    assert!(!add_to_function_tag(&mut tag, &texts(&["d", "a"])));
    assert_eq!(tag.to_values(), texts(&["a", "b", "c", "d"]));
    assert!(remove_from_function_tag(&mut tag, &texts(&["x", "b", "a", "b"])));
    assert_eq!(tag.to_values(), texts(&["c", "d"]));
    assert!(!remove_from_function_tag(&mut tag, &texts(&["a", "x"])));
    assert_eq!(tag.to_values(), texts(&["c", "d"]));
    assert!(!add_to_function_tag(&mut tag, &Vec::new()));
    assert!(FunctionTag::new().to_values().is_empty());
}

#[test]
fn connect_error_tells_cancellation_from_io_errors() {
    let cancelled = ConnectError::new(ConnectErrorInner::Cancelled);
    assert!(cancelled.is_cancelled());
    assert_eq!(cancelled.to_string(), "Cancelled");
    let cause = std::io::Error::new(std::io::ErrorKind::NotFound, "gone");
    let io = IoErrorAtPath::new("Failed to create file".to_string(), PathBuf::from("f"), cause);
    let error = ConnectError::from(io);
    assert!(!error.is_cancelled());
    assert_eq!(error.to_string(), "Failed to create file f: gone");
    assert_ne!(error.to_string(), "Cancelled");
    let cause = std::io::Error::new(std::io::ErrorKind::NotFound, "gone");
    let io = IoErrorAtPath::new("Failed to rename file".to_string(), PathBuf::from("g"), cause);
    let error = ConnectError::from_execute_commands_error(ExecuteCommandsError::from(io));
    assert!(!error.is_cancelled());
    match error.into_inner() {
        ConnectErrorInner::Io(error) => assert_eq!(error.message, "Failed to rename file"),
        ConnectErrorInner::Cancelled => panic!("expected an io error"),
    }
}
