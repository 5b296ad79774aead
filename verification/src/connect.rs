//! Setting up a connection: the templates of the files of the installer, the function tags
//! that list its functions, and what the installer reports.

use crate::command::{summon_named_entity_command, AddTagOutput, SummonNamedEntityOutput};
use crate::io::IoErrorAtPath;
use crate::log::LogEvent;
use crate::text::{chars_of, decimal, format_u64, occurs_at, prefix_end, replace, replaced};
use crate::{Command, CommandView, ExecuteCommandsError, ExecuteCommandsErrorInner};
use crate::utils::{
    text_set_insert, text_set_items, text_set_new, text_set_shift_remove, text_set_to_vec,
};
use indexmap::IndexSet;
use vstd::prelude::*;
use vstd::string::StringExecFns;

verus! {

/// The error of setting up a connection.
#[derive(Debug)]
pub struct ConnectError {
    inner: ConnectErrorInner,
}

/// What went wrong when setting up a connection.
#[derive(Debug)]
pub enum ConnectErrorInner {
    /// A file operation failed.
    Io(IoErrorAtPath),
    /// The player cancelled the installation.
    Cancelled,
}

impl ConnectError {
    /// What went wrong.
    pub closed spec fn inner(&self) -> ConnectErrorInner {
        self.inner
    }

    /// Creates the error for what went wrong.
    pub fn new(inner: ConnectErrorInner) -> (error: ConnectError)
        ensures
            error.inner() == inner,
    {
        ConnectError { inner }
    }

    /// Returns `true` if the connection failed because the player cancelled the installation.
    pub fn is_cancelled(&self) -> (cancelled: bool)
        ensures
            cancelled == (self.inner() is Cancelled),
    {
        matches!(self.inner, ConnectErrorInner::Cancelled)
    }

    /// The error of a file operation as an error of setting up a connection.
    pub fn from(value: IoErrorAtPath) -> (error: ConnectError)
        ensures
            error.inner() == ConnectErrorInner::Io(value),
    {
        ConnectError::new(ConnectErrorInner::Io(value))
    }

    /// The error of executing commands as an error of setting up a connection.
    pub fn from_execute_commands_error(value: ExecuteCommandsError) -> (error: ConnectError)
        ensures
            match value.inner() {
                ExecuteCommandsErrorInner::Io(io) => error.inner() == ConnectErrorInner::Io(io),
            },
    {
        match value.into_inner() {
            ExecuteCommandsErrorInner::Io(error) => ConnectError::from(error),
        }
    }

    /// Gives what went wrong.
    pub fn into_inner(self) -> (inner: ConnectErrorInner)
        ensures
            inner == self.inner(),
    {
        self.inner
    }

    /// The error in one line: `Cancelled`, or the message, the path and the cause of the file
    /// operation that failed.
    pub fn to_string(&self) -> (text: String)
        ensures
            match self.inner() {
                ConnectErrorInner::Io(error) => crate::io::is_description(text@, error.message@),
                ConnectErrorInner::Cancelled => text@ == "Cancelled"@,
            },
    {
        match &self.inner {
            ConnectErrorInner::Io(error) => error.to_string(),
            ConnectErrorInner::Cancelled => String::from_str("Cancelled"),
        }
    }
}

/// What stands for the identifier of the connection in a template.
pub const CONNECTION_ID_PLACEHOLDER: &'static str = "-connection_id-";

/// What stands for the id of the next structure in a template.
pub const STRUCTURE_ID_PLACEHOLDER: &'static str = "-structure_id-";

/// Puts `identifier` in the place of every placeholder for the identifier of the connection in
/// `template`.
pub fn expand_template(template: &str, identifier: &str) -> (expanded: String)
    ensures
        expanded@ == replaced(template@, CONNECTION_ID_PLACEHOLDER@, identifier@),
{
    replace(template, CONNECTION_ID_PLACEHOLDER, identifier)
}

/// Puts `identifier` in the place of every placeholder for the identifier of the connection in
/// the template of a file of the connector, and then `structure_id` in the place of every
/// placeholder for the id of the next structure.
pub fn create_connector(template: &str, identifier: &str, structure_id: u64) -> (expanded: String)
    ensures
        expanded@ == replaced(
            replaced(template@, CONNECTION_ID_PLACEHOLDER@, identifier@),
            STRUCTURE_ID_PLACEHOLDER@,
            decimal(structure_id as nat),
        ),
{
    let expanded = expand_template(template, identifier);
    replace(expanded.as_str(), STRUCTURE_ID_PLACEHOLDER, format_u64(structure_id).as_str())
}

/// What stands before the outcome in what the installer reports.
pub const CONNECT_OUTPUT_PREFIX: &'static str = "minect_connect_";

/// The name under which the commands of the installer are executed.
pub const LISTENER_NAME: &'static str = "minect_connect";

/// What the installer reports.
#[derive(Clone, Copy, Debug, PartialEq, Eq, Structural)]
pub enum Output {
    /// The connection stands.
    Success,
    /// The player cancelled the installation.
    Cancelled,
}

/// What the output of a command reports of the installation. The outcome is the name of a
/// summoned entity or, if the output is none of that, the tag that was added to an entity. It
/// has to be [`CONNECT_OUTPUT_PREFIX`] and `success` or `cancelled`.
pub open spec fn connect_output(output: Seq<char>) -> Option<Output> {
    let outcome = match SummonNamedEntityOutput::parsed(output) {
        Some(name) => Some(name),
        None => match AddTagOutput::parsed(output) {
            Some((tag, entity)) => Some(tag),
            None => None,
        },
    };
    match outcome {
        None => None,
        Some(outcome) => if !occurs_at(outcome, 0, CONNECT_OUTPUT_PREFIX@) {
            None
        } else if outcome.skip(CONNECT_OUTPUT_PREFIX@.len() as int) == "success"@ {
            Some(Output::Success)
        } else if outcome.skip(CONNECT_OUTPUT_PREFIX@.len() as int) == "cancelled"@ {
            Some(Output::Cancelled)
        } else {
            None
        },
    }
}

impl Output {
    /// Finds what `event` reports of the installation, if it reports anything of it.
    pub fn try_from(event: &LogEvent) -> (result: Result<Output, ()>)
        ensures
            match connect_output(event.output@) {
                Some(output) => result == Ok::<Output, ()>(output),
                None => result is Err,
            },
    {
        let outcome = match SummonNamedEntityOutput::from_str(event.output.as_str()) {
            Ok(output) => output.name,
            Err(_) => match AddTagOutput::from_str(event.output.as_str()) {
                Ok(output) => output.tag,
                Err(_) => { return Err(()); },
            },
        };
        let chars = chars_of(outcome.as_str());
        let start = match prefix_end(&chars, 0, CONNECT_OUTPUT_PREFIX) {
            None => { return Err(()); },
            Some(start) => start,
        };
        let rest = crate::text::string_of(&chars, start, chars.len());
        assert(rest@ =~= chars@.skip(start as int));
        if rest == String::from_str("success") {
            Ok(Output::Success)
        } else if rest == String::from_str("cancelled") {
            Ok(Output::Cancelled)
        } else {
            Err(())
        }
    }
}

/// The command that makes the installer report that the connection stands.
pub fn wait_for_connection() -> (command: Command)
    ensures
        command@ == (CommandView {
            name: Some(LISTENER_NAME@),
            command: crate::command::summon_named_entity_command_text(
                CONNECT_OUTPUT_PREFIX@ + "success"@,
            ),
        }),
{
    let mut name = String::from_str(CONNECT_OUTPUT_PREFIX);
    name.append("success");
    Command::named(LISTENER_NAME, summon_named_entity_command(name.as_str()).as_str())
}

/// A function tag: the names of the functions that Minecraft executes for the tag, each once,
/// in their order.
pub struct FunctionTag {
    pub values: IndexSet<String>,
}

/// `items` and behind them those of `values` that are not among them, each once, in their
/// order.
pub open spec fn extended(items: Seq<Seq<char>>, values: Seq<Seq<char>>) -> Seq<Seq<char>>
    decreases values.len(),
{
    if values.len() == 0 {
        items
    } else {
        let before = extended(items, values.drop_last());
        if before.contains(values.last()) {
            before
        } else {
            before.push(values.last())
        }
    }
}

/// `items` without those that are among `values`, in their order.
pub open spec fn reduced(items: Seq<Seq<char>>, values: Seq<Seq<char>>) -> Seq<Seq<char>>
    decreases values.len(),
{
    if values.len() == 0 {
        items
    } else {
        let before = reduced(items, values.drop_last());
        if before.contains(values.last()) {
            before.remove(before.index_of(values.last()))
        } else {
            before
        }
    }
}

/// What the texts hold, in their order.
pub open spec fn texts_view(texts: Seq<String>) -> Seq<Seq<char>> {
    Seq::new(texts.len(), |i: int| texts[i]@)
}

impl FunctionTag {
    /// The names of the functions of the tag, in their order.
    pub open spec fn items(&self) -> Seq<Seq<char>> {
        text_set_items(self.values)
    }

    /// A function tag without functions.
    pub fn new() -> (tag: FunctionTag)
        ensures
            tag.items().len() == 0,
    {
        FunctionTag { values: text_set_new() }
    }

    /// The function tag with the given functions, each once, in their order.
    pub fn from_values(values: &Vec<String>) -> (tag: FunctionTag)
        ensures
            tag.items() == extended(Seq::empty(), texts_view(values@)),
    {
        let mut tag = FunctionTag::new();
        assert(tag.items() =~= Seq::empty());
        add_to_function_tag(&mut tag, values);
        tag
    }

    /// The names of the functions of the tag, in their order.
    pub fn to_values(&self) -> (values: Vec<String>)
        ensures
            texts_view(values@) == self.items(),
    {
        let values = text_set_to_vec(&self.values);
        assert(texts_view(values@) =~= self.items());
        values
    }
}

/// Adds the functions `values` to `tag`, behind the functions that the tag has already. A
/// function that the tag has already is not added. Says whether the tag has changed.
pub fn add_to_function_tag(tag: &mut FunctionTag, values: &Vec<String>) -> (modified: bool)
    ensures
        final(tag).items() == extended(old(tag).items(), texts_view(values@)),
        modified == (final(tag).items().len() != old(tag).items().len()),
        final(tag).items().len() >= old(tag).items().len(),
{
    let ghost given = texts_view(values@);
    let mut modified = false;
    let mut i: usize = 0;
    assert(given.take(0) =~= Seq::empty());
    while i < values.len()
        invariant
            i <= values@.len(),
            given == texts_view(values@),
            tag.items() == extended(old(tag).items(), given.take(i as int)),
            modified == (tag.items().len() != old(tag).items().len()),
            tag.items().len() >= old(tag).items().len(),
        decreases values@.len() - i,
    {
        assert(given.take(i + 1).drop_last() =~= given.take(i as int));
        assert(given.take(i + 1).last() == values@[i as int]@);
        if text_set_insert(&mut tag.values, values[i].clone()) {
            modified = true;
        }
        i = i + 1;
    }
    assert(given.take(given.len() as int) =~= given);
    modified
}

/// Removes the functions `values` from `tag`. The other functions stay in their order. Says
/// whether the tag has changed.
pub fn remove_from_function_tag(tag: &mut FunctionTag, values: &Vec<String>) -> (modified: bool)
    ensures
        final(tag).items() == reduced(old(tag).items(), texts_view(values@)),
        modified == (final(tag).items().len() != old(tag).items().len()),
        final(tag).items().len() <= old(tag).items().len(),
{
    let ghost given = texts_view(values@);
    let mut modified = false;
    let mut i: usize = 0;
    assert(given.take(0) =~= Seq::empty());
    while i < values.len()
        invariant
            i <= values@.len(),
            given == texts_view(values@),
            tag.items() == reduced(old(tag).items(), given.take(i as int)),
            modified == (tag.items().len() != old(tag).items().len()),
            tag.items().len() <= old(tag).items().len(),
        decreases values@.len() - i,
    {
        assert(given.take(i + 1).drop_last() =~= given.take(i as int));
        assert(given.take(i + 1).last() == values@[i as int]@);
        let ghost before = tag.items();
        if text_set_shift_remove(&mut tag.values, &values[i]) {
            proof {
                let at = before.index_of(values@[i as int]@);
                assert(before[at] == values@[i as int]@);
            }
            modified = true;
        }
        i = i + 1;
    }
    assert(given.take(given.len() as int) =~= given);
    modified
}

} // verus!
