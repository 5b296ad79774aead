use minect::log::LogEvent;

#[test]
fn test_from_str_to_string() {
    // given:
    let string = "[21:05:40] [Server thread/INFO]: [test: Added tag 'success' to test]";

    // when:
    let actual_event = LogEvent::from_str(string).unwrap();
    let actual_string = actual_event.to_string();

    // then:
    assert_eq!(actual_event.executor, "test");
    assert_eq!(actual_event.output, "Added tag 'success' to test");
    assert_eq!(actual_string, string);
}

#[test]
fn lines_that_report_no_event_are_rejected() {
    let lines = [
        "",
        "[",
        "21:05:40] [Server thread/INFO]: [test: output]",
        "[2a:05:40] [Server thread/INFO]: [test: output]",
        "[21:5:40] [Server thread/INFO]: [test: output]",
        "[21-05-40] [Server thread/INFO]: [test: output]",
        "[21:05:40] [Server thread/WARN]: [test: output]",
        "[21:05:40] [Server thread/INFO]: test: output]",
        "[21:05:40] [Server thread/INFO]: [test: output",
        "[21:05:40] [Server thread/INFO]: [test output]",
        "[21:05:40] [Server thread/INFO]: [test:output]",
        "[21:05:40] [Server thread/INFO]: [test: ",
        "[21:05:40] [Server thread/INFO]: [",
        "[21:05:40] [Server thread/INFO]: [   ",
        "[21:05:40] [Server thread/INFO]: [test]: ",
    ];
    for line in lines {
        assert_eq!(LogEvent::from_str(line), Err(()), "line={:?}", line);
    }
}

#[test]
fn white_space_at_the_end_of_a_line_is_ignored() {
    let event = LogEvent::from_str("[01:02:03] [Server thread/INFO]: [a: b: c] \t\r\n").unwrap();
    assert_eq!(event.hour, 1);
    assert_eq!(event.minute, 2);
    assert_eq!(event.second, 3);
    assert_eq!(event.executor, "a");
    assert_eq!(event.output, "b: c");
    assert_eq!(event.to_string(), "[01:02:03] [Server thread/INFO]: [a: b: c]");
    let event = LogEvent::from_str("[01:02:03] [Server thread/INFO]: [a: b]\u{3000}\u{a0}").unwrap();
    assert_eq!(event.output, "b");
}

#[test]
fn executor_and_output_may_be_empty() {
    let event = LogEvent::from_str("[99:00:59] [Server thread/INFO]: [: ]").unwrap();
    assert_eq!(event.hour, 99);
    assert_eq!(event.second, 59);
    assert_eq!(event.executor, "");
    assert_eq!(event.output, "");
    let event = LogEvent::from_str("[10:20:30] [Server thread/INFO]: [@: [x] y]]").unwrap();
    assert_eq!(event.executor, "@");
    assert_eq!(event.output, "[x] y]");
}

#[test]
fn an_event_round_trips_through_its_line() {
    let event = LogEvent {
        hour: 7,
        minute: 0,
        second: 45,
        executor: "Herobrine".to_string(),
        output: "Added 0 to [a] for b (now 3)".to_string(),
    };
    let line = event.to_string();
    assert_eq!(line, "[07:00:45] [Server thread/INFO]: [Herobrine: Added 0 to [a] for b (now 3)]");
    assert_eq!(LogEvent::from_str(&line), Ok(event));
}
