use minect::log::observer::{
    delete_indexes, failed_positions, observe_log, send_event_to_listeners, FileChange, Listeners,
    LogEncoding, Notification, ObserverAction,
};
use minect::log::LogEvent;
use tokio::sync::mpsc::{unbounded_channel, UnboundedReceiver};

fn line(executor: &str, output: &str) -> Vec<u8> {
    format!("[12:00:00] [Server thread/INFO]: [{}: {}]\n", executor, output).into_bytes()
}

fn outputs(receiver: &mut UnboundedReceiver<LogEvent>) -> Vec<String> {
    let mut outputs = Vec::new();
    while let Ok(event) = receiver.try_recv() {
        outputs.push(format!("{}: {}", event.executor, event.output));
    }
    outputs
}

#[test]
fn every_listener_gets_every_event_once_in_order() {
    let mut listeners = Listeners::new();
    let (sender1, mut receiver1) = unbounded_channel();
    let (sender2, mut receiver2) = unbounded_channel();
    listeners.add_listener(sender1);
    listeners.add_listener(sender2);
    for i in 0..5 {
        let event = listeners.process_line(LogEncoding::Utf8, &line("a", &i.to_string()));
        assert_eq!(event.unwrap().output, i.to_string());
    }
    let expected = vec!["a: 0", "a: 1", "a: 2", "a: 3", "a: 4"];
    assert_eq!(outputs(&mut receiver1), expected);
    assert_eq!(outputs(&mut receiver2), expected);
}

#[test]
fn malformed_lines_are_skipped() {
    let mut listeners = Listeners::new();
    let (sender, mut receiver) = unbounded_channel();
    listeners.add_listener(sender);
    assert_eq!(listeners.process_line(LogEncoding::Utf8, b"[12:00:00] [Server thread/INFO]: Done\n"), None);
    assert_eq!(listeners.process_line(LogEncoding::Utf8, b""), None);
    assert!(listeners.process_line(LogEncoding::Utf8, &line("a", "1")).is_some());
    assert_eq!(listeners.process_line(LogEncoding::Utf8, b"\xff\xfe"), None);
    assert!(listeners.process_line(LogEncoding::Utf8, &line("a", "2")).is_some());
    assert_eq!(outputs(&mut receiver), vec!["a: 1", "a: 2"]);
}

#[test]
fn named_listeners_get_the_events_of_their_executor_only() {
    let mut listeners = Listeners::new();
    let (general, mut general_receiver) = unbounded_channel();
    let (a1, mut a1_receiver) = unbounded_channel();
    let (a2, mut a2_receiver) = unbounded_channel();
    let (b, mut b_receiver) = unbounded_channel();
    listeners.add_named_listener("a".to_string(), a1);
    listeners.add_listener(general);
    listeners.add_named_listener("b".to_string(), b);
    listeners.add_named_listener("a".to_string(), a2);
    for (executor, output) in [("a", "1"), ("b", "2"), ("c", "3"), ("a", "4"), ("ab", "5")] {
        listeners.process_line(LogEncoding::Utf8, &line(executor, output));
    }
    assert_eq!(
        outputs(&mut general_receiver),
        vec!["a: 1", "b: 2", "c: 3", "a: 4", "ab: 5"]
    );
    assert_eq!(outputs(&mut a1_receiver), vec!["a: 1", "a: 4"]);
    assert_eq!(outputs(&mut a2_receiver), vec!["a: 1", "a: 4"]);
    assert_eq!(outputs(&mut b_receiver), vec!["b: 2"]);
}

#[test]
fn listeners_added_later_get_later_events_only() {
    let mut listeners = Listeners::new();
    let (early, mut early_receiver) = unbounded_channel();
    listeners.add_listener(early);
    listeners.process_line(LogEncoding::Utf8, &line("a", "1"));
    let (late, mut late_receiver) = unbounded_channel();
    listeners.add_listener(late);
    listeners.process_line(LogEncoding::Utf8, &line("a", "2"));
    assert_eq!(outputs(&mut early_receiver), vec!["a: 1", "a: 2"]);
    assert_eq!(outputs(&mut late_receiver), vec!["a: 2"]);
}

#[test]
fn listeners_without_receiver_are_removed() {
    let event = LogEvent::from_str("[12:00:00] [Server thread/INFO]: [a: 1]").unwrap();
    let (sender0, receiver0) = unbounded_channel();
    let (sender1, mut receiver1) = unbounded_channel();
    let (sender2, receiver2) = unbounded_channel();
    let (sender3, mut receiver3) = unbounded_channel();
    let mut senders = vec![sender0, sender1, sender2, sender3];
    drop(receiver0);
    drop(receiver2);
    let indexes = send_event_to_listeners(&event, &senders);
    assert_eq!(indexes, vec![0, 2]);
    delete_indexes(&mut senders, indexes);
    assert_eq!(senders.len(), 2);
    assert_eq!(outputs(&mut receiver1), vec!["a: 1"]);
    assert_eq!(outputs(&mut receiver3), vec!["a: 1"]);
    assert_eq!(send_event_to_listeners(&event, &senders), Vec::<usize>::new());
    assert_eq!(outputs(&mut receiver1), vec!["a: 1"]);
    assert_eq!(outputs(&mut receiver3), vec!["a: 1"]);
}

#[test]
fn dispatch_goes_on_after_a_receiver_is_gone() {
    let mut listeners = Listeners::new();
    let (gone, gone_receiver) = unbounded_channel();
    let (kept, mut kept_receiver) = unbounded_channel();
    let (named_gone, named_gone_receiver) = unbounded_channel();
    let (named_kept, mut named_kept_receiver) = unbounded_channel();
    let (other_gone, other_gone_receiver) = unbounded_channel();
    listeners.add_listener(gone);
    listeners.add_listener(kept);
    listeners.add_named_listener("a".to_string(), named_gone);
    listeners.add_named_listener("a".to_string(), named_kept);
    listeners.add_named_listener("b".to_string(), other_gone);
    drop(gone_receiver);
    drop(named_gone_receiver);
    drop(other_gone_receiver);
    for output in ["1", "2"] {
        listeners.process_line(LogEncoding::Utf8, &line("a", output));
        listeners.process_line(LogEncoding::Utf8, &line("b", output));
    }
    assert_eq!(outputs(&mut kept_receiver), vec!["a: 1", "b: 1", "a: 2", "b: 2"]);
    assert_eq!(outputs(&mut named_kept_receiver), vec!["a: 1", "a: 2"]);
    assert_eq!(listeners.find_named(&"a".to_string()), Some(0));
    assert_eq!(listeners.find_named(&"b".to_string()), None);
}

#[test]
fn failed_positions_are_where_nothing_was_sent() {
    assert_eq!(failed_positions(&vec![true, false, false, true, false]), vec![1, 2, 4]);
    assert_eq!(failed_positions(&vec![true, true]), Vec::<usize>::new());
    assert_eq!(failed_positions(&vec![false]), vec![0]);
    assert_eq!(failed_positions(&Vec::new()), Vec::<usize>::new());
}

#[test]
fn delete_indexes_keeps_the_other_items_in_order() {
    let mut items = vec!['a', 'b', 'c', 'd', 'e', 'f'];
    delete_indexes(&mut items, vec![0, 2, 3, 5]);
    assert_eq!(items, vec!['b', 'e']);
    delete_indexes(&mut items, Vec::new());
    assert_eq!(items, vec!['b', 'e']);
    delete_indexes(&mut items, vec![0, 1]);
    assert!(items.is_empty());
}

#[test]
fn lines_are_decoded_in_the_encoding_of_the_platform() {
    let bytes = b"[12:00:00] [Server thread/INFO]: [J\xfcrgen: Gr\xfc\xdfe]";
    let event = LogEncoding::Windows1252.parse_line(bytes).unwrap();
    assert_eq!(event.executor, "J\u{fc}rgen");
    assert_eq!(event.output, "Gr\u{fc}\u{df}e");
    let event = LogEncoding::Utf8.parse_line(bytes).unwrap();
    assert_eq!(event.executor, "J\u{fffd}rgen");
    let bytes = "[12:00:00] [Server thread/INFO]: [Jürgen: Grüße]".as_bytes();
    let event = LogEncoding::Utf8.parse_line(bytes).unwrap();
    assert_eq!(event.executor, "Jürgen");
    assert_eq!(event.output, "Grüße");
    assert_eq!(LogEncoding::Utf8.decode(b"\xef\xbb\xbfa"), "\u{feff}a");
    assert_eq!(LogEncoding::Windows1252.decode(b"\x80"), "\u{20ac}");
}

#[test]
fn observer_reads_on_changes_and_timeouts() {
    let changed = |change, log_file| Notification::Changed { change, log_file };
    assert_eq!(observe_log(changed(FileChange::Created, true)), ObserverAction::ReadAndReopen);
    assert_eq!(observe_log(changed(FileChange::DataModified, true)), ObserverAction::Read);
    assert_eq!(observe_log(changed(FileChange::Other, true)), ObserverAction::Wait);
    assert_eq!(observe_log(changed(FileChange::Created, false)), ObserverAction::Wait);
    assert_eq!(observe_log(changed(FileChange::DataModified, false)), ObserverAction::Wait);
    assert_eq!(observe_log(Notification::WatchFailed), ObserverAction::Wait);
    assert_eq!(observe_log(Notification::Timeout), ObserverAction::Read);
    assert_eq!(observe_log(Notification::Disconnected), ObserverAction::Fail);
}
