//! The delivery of log events to listeners, and what the observer of a log file does when the
//! file changes.
//!
//! A listener is the sending side of an unbounded channel. A listener whose receiving side is
//! gone is removed when an event could not be sent to it.

use crate::log::{parsed_line, LogEvent};
use tokio::sync::mpsc::UnboundedSender;
use vstd::prelude::*;

verus! {

/// `tokio::sync::mpsc::UnboundedSender`: the sending side of an unbounded channel. It is held
/// and handed to [`send`], nothing is stated of it.
#[verifier::external_type_specification]
#[verifier::external_body]
#[verifier::reject_recursive_types(T)]
pub struct ExUnboundedSender<T>(tokio::sync::mpsc::UnboundedSender<T>);

/// `tokio::sync::mpsc::UnboundedSender::send`: hands `event` to the receiving side of the
/// channel and says whether that worked. It fails when the receiving side is closed or gone,
/// which is not known beforehand, so nothing is stated of the result.
#[verifier::external_body]
fn send(listener: &UnboundedSender<LogEvent>, event: LogEvent) -> (sent: bool) {
    listener.send(event).is_ok()
}

/// The text that `bytes` stand for in the encoding windows-1252, if `windows_1252` holds, and
/// else in the encoding UTF-8, where every malformed sequence of bytes stands for the
/// replacement character. A byte order mark is not removed.
pub uninterp spec fn decoded_without_bom_handling(windows_1252: bool, bytes: Seq<u8>) -> Seq<char>;

/// `encoding_rs::Encoding::decode_without_bom_handling` of `encoding_rs::UTF_8`: the text
/// that `bytes` stand for. Texts of more than a sixteenth of the address space are left out,
/// because the size of the buffer could overflow.
#[verifier::external_body]
fn decode_utf_8(bytes: &[u8]) -> (text: String)
    requires
        bytes@.len() <= usize::MAX / 16,
    ensures
        text@ == decoded_without_bom_handling(false, bytes@),
{
    encoding_rs::UTF_8.decode_without_bom_handling(bytes).0.into_owned()
}

/// `encoding_rs::Encoding::decode_without_bom_handling` of `encoding_rs::WINDOWS_1252`: the
/// text that `bytes` stand for. Texts of more than a sixteenth of the address space are left out,
/// because the size of the buffer could overflow.
#[verifier::external_body]
fn decode_windows_1252(bytes: &[u8]) -> (text: String)
    requires
        bytes@.len() <= usize::MAX / 16,
    ensures
        text@ == decoded_without_bom_handling(true, bytes@),
{
    encoding_rs::WINDOWS_1252.decode_without_bom_handling(bytes).0.into_owned()
}

/// The encoding in which Minecraft writes its log file. It depends on the platform.
#[derive(Clone, Copy, Debug, PartialEq, Eq, Structural)]
pub enum LogEncoding {
    /// The encoding on all platforms but Windows.
    Utf8,
    /// The encoding on Windows.
    Windows1252,
}

impl LogEncoding {
    /// The text that `bytes` stand for in this encoding.
    pub open spec fn decoded(&self, bytes: Seq<u8>) -> Seq<char> {
        decoded_without_bom_handling(*self == LogEncoding::Windows1252, bytes)
    }

    /// Decodes the bytes of a line of the log file.
    pub fn decode(&self, bytes: &[u8]) -> (text: String)
        requires
            bytes@.len() <= usize::MAX / 16,
        ensures
            text@ == self.decoded(bytes@),
    {
        match self {
            LogEncoding::Utf8 => decode_utf_8(bytes),
            LogEncoding::Windows1252 => decode_windows_1252(bytes),
        }
    }

    /// Decodes the bytes of a line of the log file and parses the line. Lines that are too
    /// long to be decoded and lines that report no event give `None`.
    pub fn parse_line(&self, bytes: &[u8]) -> (event: Option<LogEvent>)
        ensures
            bytes@.len() > usize::MAX / 16 ==> event is None,
            bytes@.len() <= usize::MAX / 16 ==> match parsed_line(self.decoded(bytes@)) {
                Some(parsed) => event matches Some(e) && e@ == parsed,
                None => event is None,
            },
    {
        if bytes.len() > usize::MAX / 16 {
            return None;
        }
        let line = self.decode(bytes);
        match LogEvent::from_str(line.as_str()) {
            Ok(event) => Some(event),
            Err(_) => None,
        }
    }
}

/// Whether `indexes` rise strictly and lie below `len`.
pub open spec fn are_positions(indexes: Seq<usize>, len: int) -> bool {
    &&& forall|i: int, j: int| 0 <= i < j < indexes.len() ==> indexes[i] < indexes[j]
    &&& forall|i: int| 0 <= i < indexes.len() ==> indexes[i] < len
}

/// The items that do not stand at one of the positions `indexes`, in their order, where the
/// first item stands at position `offset`.
pub open spec fn without_from<E>(items: Seq<E>, indexes: Seq<usize>, offset: int) -> Seq<E>
    decreases items.len(),
{
    if items.len() == 0 {
        items
    } else {
        let rest = without_from(items.drop_last(), indexes, offset);
        if exists|k: int| 0 <= k < indexes.len() && indexes[k] == offset + items.len() - 1 {
            rest
        } else {
            rest.push(items.last())
        }
    }
}

/// The items that do not stand at one of the positions `indexes`, in their order.
pub open spec fn without<E>(items: Seq<E>, indexes: Seq<usize>) -> Seq<E> {
    without_from(items, indexes, 0)
}

proof fn lemma_without_split<E>(first: Seq<E>, second: Seq<E>, indexes: Seq<usize>, offset: int)
    ensures
        without_from(first + second, indexes, offset) == without_from(first, indexes, offset)
            + without_from(second, indexes, offset + first.len()),
    decreases second.len(),
{
    if second.len() == 0 {
        assert(first + second =~= first);
        assert(without_from(first, indexes, offset) + Seq::<E>::empty() =~= without_from(
            first,
            indexes,
            offset,
        ));
    } else {
        let all = first + second;
        assert(all.drop_last() =~= first + second.drop_last());
        assert(all.last() == second.last());
        lemma_without_split(first, second.drop_last(), indexes, offset);
        let head = without_from(first, indexes, offset);
        let rest = without_from(second.drop_last(), indexes, offset + first.len());
        assert((head + rest).push(second.last()) =~= head + rest.push(second.last()));
    }
}

proof fn lemma_without_none<E>(items: Seq<E>, indexes: Seq<usize>, offset: int)
    requires
        forall|k: int|
            0 <= k < indexes.len() ==> !(offset <= #[trigger] indexes[k] < offset + items.len()),
    ensures
        without_from(items, indexes, offset) == items,
    decreases items.len(),
{
    if items.len() > 0 {
        lemma_without_none(items.drop_last(), indexes, offset);
        assert(items.drop_last().push(items.last()) =~= items);
    }
}

/// As many items are left as were not removed: `count` is the number of positions among
/// `indexes` at which an item stands.
pub proof fn lemma_without_len<E>(items: Seq<E>, indexes: Seq<usize>, count: int)
    requires
        forall|i: int, j: int| 0 <= i < j < indexes.len() ==> indexes[i] < indexes[j],
        0 <= count <= indexes.len(),
        count < indexes.len() ==> indexes[count] >= items.len(),
        count > 0 ==> indexes[count - 1] < items.len(),
    ensures
        without(items, indexes).len() == items.len() - count,
    decreases items.len(),
{
    if items.len() > 0 {
        let position = items.len() - 1;
        if count > 0 && indexes[count - 1] == position {
            if count > 1 {
                assert(indexes[count - 2] < indexes[count - 1]);
            }
            lemma_without_len(items.drop_last(), indexes, count - 1);
        } else {
            lemma_without_len(items.drop_last(), indexes, count);
            assert forall|k: int| 0 <= k < indexes.len() implies indexes[k] != position by {
                if k < count {
                    if k < count - 1 {
                        assert(indexes[k] < indexes[count - 1]);
                    }
                } else if k > count {
                    assert(indexes[count] < indexes[k]);
                }
            }
        }
    }
}

/// Sends `event` to every listener, in their order, and gives the positions of the listeners
/// to which it could not be sent.
pub fn send_event_to_listeners(
    event: &LogEvent,
    listeners: &Vec<UnboundedSender<LogEvent>>,
) -> (indexes_to_delete: Vec<usize>)
    ensures
        are_positions(indexes_to_delete@, listeners@.len() as int),
{
    let mut sent: Vec<bool> = Vec::new();
    let mut index: usize = 0;
    while index < listeners.len()
        invariant
            index <= listeners@.len(),
            sent@.len() == index,
        decreases listeners@.len() - index,
    {
        sent.push(send(&listeners[index], copy_of(event)));
        index = index + 1;
    }
    failed_positions(&sent)
}

/// An event that holds what `event` holds.
fn copy_of(event: &LogEvent) -> (copy: LogEvent)
    ensures
        copy@ == event@,
{
    LogEvent {
        hour: event.hour,
        minute: event.minute,
        second: event.second,
        executor: event.executor.clone(),
        output: event.output.clone(),
    }
}

/// The positions at which `sent` says that an event could not be sent, in rising order.
pub open spec fn failures(sent: Seq<bool>) -> Seq<usize>
    decreases sent.len(),
{
    if sent.len() == 0 {
        Seq::empty()
    } else {
        let before = failures(sent.drop_last());
        if sent.last() {
            before
        } else {
            before.push((sent.len() - 1) as usize)
        }
    }
}

/// The failures are positions of `sent`, they rise strictly, and a position is among them if and
/// only if `sent` says there that the event could not be sent.
pub proof fn lemma_failures(sent: Seq<bool>)
    requires
        sent.len() <= usize::MAX,
    ensures
        are_positions(failures(sent), sent.len() as int),
        forall|i: int| 0 <= i < sent.len() ==> (failures(sent).contains(i as usize) <==> !sent[i]),
    decreases sent.len(),
{
    if sent.len() > 0 {
        let shorter = sent.drop_last();
        let before = failures(shorter);
        let all = failures(sent);
        let last = (sent.len() - 1) as usize;
        lemma_failures(shorter);
        assert forall|i: int| 0 <= i < sent.len() implies (all.contains(i as usize)
            <==> !sent[i]) by {
            if i < shorter.len() {
                assert(shorter[i] == sent[i]);
                if before.contains(i as usize) {
                    let k = choose|k: int| 0 <= k < before.len() && before[k] == i as usize;
                    assert(all[k] == i as usize);
                }
                if all.contains(i as usize) {
                    let k = choose|k: int| 0 <= k < all.len() && all[k] == i as usize;
                    assert(k < before.len());
                    assert(before[k] == i as usize);
                }
            } else {
                if sent.last() {
                    if all.contains(last) {
                        let k = choose|k: int| 0 <= k < all.len() && all[k] == last;
                        assert(before[k] < shorter.len());
                    }
                } else {
                    assert(all[before.len() as int] == last);
                }
            }
        }
    }
}

/// Finds the positions of the listeners to which an event could not be sent, where `sent` says
/// for every listener whether the event could be sent to it.
pub fn failed_positions(sent: &Vec<bool>) -> (indexes_to_delete: Vec<usize>)
    ensures
        indexes_to_delete@ == failures(sent@),
        indexes_to_delete@.len() <= sent@.len(),
        are_positions(indexes_to_delete@, sent@.len() as int),
        forall|i: int|
            0 <= i < sent@.len() ==> (indexes_to_delete@.contains(i as usize) <==> !sent@[i]),
{
    let mut indexes_to_delete: Vec<usize> = Vec::new();
    let mut index: usize = 0;
    assert(sent@.take(0) =~= Seq::empty());
    while index < sent.len()
        invariant
            index <= sent@.len(),
            indexes_to_delete@.len() <= index,
            indexes_to_delete@ == failures(sent@.take(index as int)),
        decreases sent@.len() - index,
    {
        assert(sent@.take(index + 1).drop_last() =~= sent@.take(index as int));
        if !sent[index] {
            indexes_to_delete.push(index);
        }
        index = index + 1;
    }
    assert(sent@.take(sent@.len() as int) =~= sent@);
    proof {
        lemma_failures(sent@);
    }
    indexes_to_delete
}

/// Removes the items at the positions `indexes_to_delete` from `listeners`. The other items
/// stay in their order.
pub fn delete_indexes<E>(listeners: &mut Vec<E>, indexes_to_delete: Vec<usize>)
    requires
        are_positions(indexes_to_delete@, old(listeners)@.len() as int),
    ensures
        final(listeners)@ == without(old(listeners)@, indexes_to_delete@),
        final(listeners)@.len() == old(listeners)@.len() - indexes_to_delete@.len(),
{
    let ghost items = listeners@;
    let ghost indexes = indexes_to_delete@;
    let mut remaining = indexes_to_delete.len();
    proof {
        assert(items.take(items.len() as int) =~= items);
        assert(items.skip(items.len() as int) =~= Seq::<E>::empty());
        assert(items + Seq::<E>::empty() =~= items);
    }
    // Back to front, so that the positions of the items that are still to remove stay
    while remaining > 0
        invariant
            remaining <= indexes.len(),
            indexes == indexes_to_delete@,
            items == old(listeners)@,
            are_positions(indexes, items.len() as int),
            ({
                let cut = if remaining == indexes.len() {
                    items.len() as int
                } else {
                    indexes[remaining as int] as int
                };
                listeners@ == items.take(cut) + without_from(items.skip(cut), indexes, cut)
            }),
        decreases remaining,
    {
        let ghost cut = if remaining == indexes.len() {
            items.len() as int
        } else {
            indexes[remaining as int] as int
        };
        remaining = remaining - 1;
        let index = indexes_to_delete[remaining];
        let ghost tail = without_from(items.skip(cut), indexes, cut);
        proof {
            assert(index < cut);
            let single = items.subrange(index as int, index + 1);
            let between = items.subrange(index + 1, cut);
            assert(items.skip(index as int) =~= single + (between + items.skip(cut)));
            lemma_without_split(single, between + items.skip(cut), indexes, index as int);
            lemma_without_split(between, items.skip(cut), indexes, index + 1);
            assert forall|k: int| 0 <= k < indexes.len() implies !(index + 1
                <= #[trigger] indexes[k] < index + 1 + between.len()) by {
                if k > remaining {
                    assert(indexes[remaining as int + 1] <= indexes[k]) by {
                        if k > remaining + 1 {
                            assert(indexes[remaining as int + 1] < indexes[k]);
                        }
                    }
                } else if k < remaining {
                    assert(indexes[k] < indexes[remaining as int]);
                }
            }
            lemma_without_none(between, indexes, index + 1);
            assert(single.len() == 1);
            assert(single.drop_last() =~= Seq::<E>::empty());
            assert(indexes[remaining as int] == index + single.len() - 1);
            assert(without_from(single, indexes, index as int) =~= Seq::<E>::empty()) by {
                reveal_with_fuel(without_from, 2);
            }
            assert(without_from(items.skip(index as int), indexes, index as int) =~= between
                + tail);
            assert((items.take(cut) + tail).remove(index as int) =~= items.take(index as int) + (
            between + tail));
        }
        listeners.remove(index);
    }
    proof {
        let cut = if indexes.len() == 0 {
            items.len() as int
        } else {
            indexes[0] as int
        };
        assert(items =~= items.take(cut) + items.skip(cut));
        lemma_without_split(items.take(cut), items.skip(cut), indexes, 0);
        assert forall|k: int| 0 <= k < indexes.len() implies !(0 <= #[trigger] indexes[k] < 0
            + items.take(cut).len()) by {
            if k > 0 {
                assert(indexes[0] < indexes[k]);
            }
        }
        lemma_without_none(items.take(cut), indexes, 0);
        lemma_without_len(items, indexes, indexes.len() as int);
    }
}

/// The listeners for the events of one executor.
pub struct NamedListeners {
    /// The name of the executor.
    pub name: String,
    /// The listeners, in the order in which they were added.
    pub listeners: Vec<UnboundedSender<LogEvent>>,
}

/// The listeners of an observer: those for all events and those for the events of one
/// executor. An event is sent first to the listeners for all events and then to the listeners
/// for its executor, to each once.
pub struct Listeners {
    listeners: Vec<UnboundedSender<LogEvent>>,
    named_listeners: Vec<NamedListeners>,
}

/// Whether `name` is the name of the entry at position `at` of `named`.
pub open spec fn is_named(named: Seq<NamedListeners>, name: Seq<char>, at: int) -> bool {
    0 <= at < named.len() && named[at].name@ == name
}

/// Whether the listeners `after` are what is left of the listeners `before` when those to
/// which an event could not be sent are removed.
pub open spec fn pruned<E>(before: Seq<E>, after: Seq<E>) -> bool {
    exists|indexes: Seq<usize>| #[trigger]
        are_positions(indexes, before.len() as int) && after == without(before, indexes)
}

/// Whether every executor has one entry at most, and no entry is without listeners.
pub open spec fn named_wf(named: Seq<NamedListeners>) -> bool {
    &&& forall|i: int, j: int|
        0 <= i < j < named.len() ==> (#[trigger] named[i]).name@ != (#[trigger] named[j]).name@
    &&& forall|i: int| 0 <= i < named.len() ==> (#[trigger] named[i]).listeners@.len() > 0
}

/// Whether the listeners by executor `after` are what is left of `before` when an event of
/// `executor` was sent: the listeners for other executors stay as they are, and of the
/// listeners for `executor` those to which the event could not be sent are removed, with the
/// whole entry if none of them is left.
pub open spec fn named_after(
    before: Seq<NamedListeners>,
    after: Seq<NamedListeners>,
    executor: Seq<char>,
) -> bool {
    &&& (forall|at: int| !is_named(before, executor, at)) ==> after == before
    &&& forall|at: int| #[trigger]
        is_named(before, executor, at) ==> {
            ||| {
                &&& after == before.remove(at)
                &&& pruned(before[at].listeners@, Seq::empty())
            }
            ||| {
                &&& after.len() == before.len()
                &&& after[at].name == before[at].name
                &&& pruned(before[at].listeners@, after[at].listeners@)
                &&& forall|other: int|
                    0 <= other < before.len() && other != at ==> after[other] == before[other]
            }
        }
}

impl Listeners {
    /// The listeners for all events, in the order in which they were added.
    pub closed spec fn general(&self) -> Seq<UnboundedSender<LogEvent>> {
        self.listeners@
    }

    /// The listeners for the events of one executor, by executor.
    pub closed spec fn named(&self) -> Seq<NamedListeners> {
        self.named_listeners@
    }

    /// The invariant of the listeners: every executor has one entry at most, and no entry is
    /// without listeners.
    pub open spec fn wf(&self) -> bool {
        named_wf(self.named())
    }

    /// No listeners.
    pub fn new() -> (listeners: Listeners)
        ensures
            listeners.wf(),
            listeners.general().len() == 0,
            listeners.named().len() == 0,
    {
        Listeners { listeners: Vec::new(), named_listeners: Vec::new() }
    }

    /// Adds a listener for all events.
    pub fn add_listener(&mut self, listener: UnboundedSender<LogEvent>)
        requires
            old(self).wf(),
        ensures
            final(self).wf(),
            final(self).general() == old(self).general().push(listener),
            final(self).named() == old(self).named(),
    {
        self.listeners.push(listener);
    }

    /// Finds the entry of the listeners for the events of the executor `name`.
    pub fn find_named(&self, name: &String) -> (found: Option<usize>)
        requires
            self.wf(),
        ensures
            match found {
                Some(at) => is_named(self.named(), name@, at as int),
                None => forall|at: int| !is_named(self.named(), name@, at),
            },
    {
        let mut at: usize = 0;
        while at < self.named_listeners.len()
            invariant
                at <= self.named_listeners@.len(),
                forall|earlier: int| 0 <= earlier < at ==> !is_named(self.named(), name@, earlier),
            decreases self.named_listeners@.len() - at,
        {
            if self.named_listeners[at].name == *name {
                return Some(at);
            }
            at = at + 1;
        }
        None
    }

    /// Adds a listener for the events of the executor `name`, behind the listeners that the
    /// executor has already. An executor without listeners gets a new entry at the end.
    pub fn add_named_listener(&mut self, name: String, listener: UnboundedSender<LogEvent>)
        requires
            old(self).wf(),
        ensures
            final(self).wf(),
            final(self).general() == old(self).general(),
            exists|at: int|
                {
                    &&& #[trigger] is_named(final(self).named(), name@, at)
                    &&& final(self).named()[at].listeners@.last() == listener
                    &&& forall|other: int|
                        0 <= other < old(self).named().len() && other != at
                            ==> final(self).named()[other] == old(self).named()[other]
                    &&& if exists|before: int| is_named(old(self).named(), name@, before) {
                        &&& final(self).named().len() == old(self).named().len()
                        &&& final(self).named()[at].listeners@
                            == old(self).named()[at].listeners@.push(listener)
                    } else {
                        &&& final(self).named().len() == old(self).named().len() + 1
                        &&& at == old(self).named().len()
                        &&& final(self).named()[at].listeners@ == seq![listener]
                    }
                },
    {
        match self.find_named(&name) {
            Some(at) => {
                let ghost old_named = self.named_listeners@;
                let mut entry = self.named_listeners.remove(at);
                entry.listeners.push(listener);
                self.named_listeners.insert(at, entry);
                assert(self.named_listeners@ =~= old_named.update(at as int, entry));
                assert(entry.name == old_named[at as int].name);
                assert forall|i: int, j: int| 0 <= i < j < self.named().len() implies (
                #[trigger] self.named()[i]).name@ != (#[trigger] self.named()[j]).name@ by {
                    assert(old_named[i].name@ != old_named[j].name@);
                }
                assert forall|i: int| 0 <= i < self.named().len() implies (
                #[trigger] self.named()[i]).listeners@.len() > 0 by {
                    assert(old_named[i].listeners@.len() > 0);
                }
                assert(is_named(self.named(), name@, at as int));
                assert(is_named(old(self).named(), name@, at as int));
            },
            None => {
                let ghost old_named = self.named_listeners@;
                let mut listeners = Vec::new();
                listeners.push(listener);
                self.named_listeners.push(NamedListeners { name, listeners });
                assert forall|i: int, j: int| 0 <= i < j < self.named().len() implies (
                #[trigger] self.named()[i]).name@ != (#[trigger] self.named()[j]).name@ by {
                    if j < old_named.len() {
                        assert(old_named[i].name@ != old_named[j].name@);
                    } else {
                        assert(!is_named(old_named, name@, i));
                    }
                }
                assert forall|i: int| 0 <= i < self.named().len() implies (
                #[trigger] self.named()[i]).listeners@.len() > 0 by {
                    if i < old_named.len() {
                        assert(old_named[i].listeners@.len() > 0);
                    }
                }
                assert(is_named(self.named(), name@, old(self).named().len() as int));
            },
        }
    }

    /// Sends `event` to the listeners for all events, and removes those to which it could not
    /// be sent.
    pub fn send_event_to_listeners(&mut self, event: &LogEvent)
        requires
            old(self).wf(),
        ensures
            final(self).wf(),
            final(self).named() == old(self).named(),
            pruned(old(self).general(), final(self).general()),
    {
        let indexes_to_delete = send_event_to_listeners(event, &self.listeners);
        assert(are_positions(indexes_to_delete@, old(self).general().len() as int));
        delete_indexes(&mut self.listeners, indexes_to_delete);
    }

    /// Sends `event` to the listeners for the events of its executor, and removes those to
    /// which it could not be sent. If none of them is left, the entry of the executor is
    /// removed. The listeners for other executors get nothing and stay.
    pub fn send_event_to_named_listeners(&mut self, event: &LogEvent)
        requires
            old(self).wf(),
        ensures
            final(self).wf(),
            final(self).general() == old(self).general(),
            named_after(old(self).named(), final(self).named(), event.executor@),
    {
        match self.find_named(&event.executor) {
            None => {},
            Some(at) => {
                let ghost old_named = self.named_listeners@;
                assert forall|other: int| is_named(old_named, event.executor@, other) implies other
                    == at by {
                    if other < at {
                        assert(old_named[other].name@ != old_named[at as int].name@);
                    } else if other > at {
                        assert(old_named[at as int].name@ != old_named[other].name@);
                    }
                }
                let mut entry = self.named_listeners.remove(at);
                let ghost old_listeners = entry.listeners@;
                let indexes_to_delete = send_event_to_listeners(event, &entry.listeners);
                let ghost indexes = indexes_to_delete@;
                if indexes_to_delete.len() == entry.listeners.len() {
                    proof {
                        lemma_without_len(old_listeners, indexes, indexes.len() as int);
                        assert(without(old_listeners, indexes) =~= Seq::empty());
                        assert(are_positions(indexes, old_listeners.len() as int)
                            && Seq::<UnboundedSender<LogEvent>>::empty() == without(
                            old_listeners,
                            indexes,
                        ));
                    }
                } else {
                    delete_indexes(&mut entry.listeners, indexes_to_delete);
                    assert(are_positions(indexes, old_listeners.len() as int) && entry.listeners@
                        == without(old_listeners, indexes));
                    self.named_listeners.insert(at, entry);
                }
            },
        }
    }

    /// Sends `event` to all listeners that listen for it: first to the listeners for all
    /// events, then to the listeners for its executor. Listeners to which the event could not
    /// be sent are removed.
    pub fn dispatch(&mut self, event: &LogEvent)
        requires
            old(self).wf(),
        ensures
            final(self).wf(),
            pruned(old(self).general(), final(self).general()),
            named_after(old(self).named(), final(self).named(), event.executor@),
    {
        self.send_event_to_listeners(event);
        self.send_event_to_named_listeners(event);
    }

    /// Decodes and parses a line of the log file and sends the event that it reports, if it
    /// reports one, to all listeners that listen for it. Gives the event.
    pub fn process_line(&mut self, encoding: LogEncoding, line: &[u8]) -> (event: Option<LogEvent>)
        requires
            old(self).wf(),
        ensures
            final(self).wf(),
            match event {
                None => {
                    &&& final(self).general() == old(self).general()
                    &&& final(self).named() == old(self).named()
                },
                Some(event) => pruned(old(self).general(), final(self).general()) && named_after(
                    old(self).named(),
                    final(self).named(),
                    event.executor@,
                ),
            },
            line@.len() <= usize::MAX / 16 ==> match parsed_line(encoding.decoded(line@)) {
                Some(parsed) => event matches Some(e) && e@ == parsed,
                None => event is None,
            },
    {
        match encoding.parse_line(line) {
            None => None,
            Some(event) => {
                self.dispatch(&event);
                Some(event)
            },
        }
    }
}

/// A kind of change of a file that the observer of a log file is told of.
#[derive(Clone, Copy, Debug, PartialEq, Eq, Structural)]
pub enum FileChange {
    /// The file was created: the log file was replaced by a new one.
    Created,
    /// Data was written to the file.
    DataModified,
    /// Anything else.
    Other,
}

/// What the observer of a log file got while it waited for changes.
#[derive(Clone, Copy, Debug, PartialEq, Eq, Structural)]
pub enum Notification {
    /// A file changed; `log_file` says whether it is the log file.
    Changed { change: FileChange, log_file: bool },
    /// The watcher reported an error.
    WatchFailed,
    /// Nothing came in time.
    Timeout,
    /// The watcher is gone.
    Disconnected,
}

/// What the observer of a log file does next.
#[derive(Clone, Copy, Debug, PartialEq, Eq, Structural)]
pub enum ObserverAction {
    /// Read the lines that are left in the old file, then open the new file.
    ReadAndReopen,
    /// Read the lines that were added to the file.
    Read,
    /// Nothing.
    Wait,
    /// Give up: without the watcher the observer cannot go on.
    Fail,
}

/// What the observer of a log file does after `notification`: when the log file was created
/// anew, it reads the old file to the end and opens the new one; when data was written to the
/// log file, and whenever nothing came in time, because not every platform reports every
/// change, it reads what was added; when the watcher is gone it gives up; anything else it
/// passes over.
pub open spec fn action_after(notification: Notification) -> ObserverAction {
    match notification {
        Notification::Changed { change: FileChange::Created, log_file: true } =>
            ObserverAction::ReadAndReopen,
        Notification::Changed { change: FileChange::DataModified, log_file: true } =>
            ObserverAction::Read,
        Notification::Timeout => ObserverAction::Read,
        Notification::Disconnected => ObserverAction::Fail,
        _ => ObserverAction::Wait,
    }
}

/// Decides what the observer of a log file does after `notification`.
pub fn observe_log(notification: Notification) -> (action: ObserverAction)
    ensures
        action == action_after(notification),
{
    match notification {
        Notification::Changed { change, log_file } => {
            if log_file {
                match change {
                    FileChange::Created => ObserverAction::ReadAndReopen,
                    FileChange::DataModified => ObserverAction::Read,
                    FileChange::Other => ObserverAction::Wait,
                }
            } else {
                ObserverAction::Wait
            }
        },
        Notification::WatchFailed => ObserverAction::Wait,
        Notification::Timeout => ObserverAction::Read,
        Notification::Disconnected => ObserverAction::Fail,
    }
}

} // verus!
