//! A file-mediated command and event channel to a running Minecraft instance.
//!
//! Commands are laid out as a chain of command blocks in a structure document, which Minecraft
//! loads and executes. The output of the commands appears as events in the log file of
//! Minecraft.

pub mod command;
pub mod connect;
pub mod geometry3;
pub mod io;
pub mod json;
pub mod log;
pub mod placement;
pub mod structure;
pub mod text;
pub mod utils;

use crate::command::{
    enable_logging_command, reset_logging_command, summon_named_entity_command,
    summon_named_entity_command_text, SummonNamedEntityOutput,
};
use crate::io::IoErrorAtPath;
use crate::json::{create_json_text_component, json_text_component};
use crate::log::LogEvent;
use crate::placement::{
    are_command_blocks, generate_structure, ignored_commands, is_basic_structure, placed_commands,
    structure_holds,
};
use crate::structure::nbt::Structure;
use crate::structure::Block;
use crate::text::{
    chars_of, decimal, format_u64, lemma_parse_format, occurs_at, parse_u64, prefix_end,
    push_decimal, string_of, unsigned_value,
};
use crate::utils::{text_set_insert, text_set_items, text_set_new, text_set_to_vec};
use std::path::PathBuf;
use vstd::prelude::*;
use vstd::string::StringExecFns;

verus! {

/// A [`Command`] holds a Minecraft command to execute and optionally a custom name, under which
/// the command is executed and by which the events of its output can be filtered.
#[derive(Clone, Debug, PartialEq, Eq)]
pub struct Command {
    name: Option<String>,
    command: String,
}

/// What a [`Command`] holds.
pub struct CommandView {
    pub name: Option<Seq<char>>,
    pub command: Seq<char>,
}

impl View for Command {
    type V = CommandView;

    closed spec fn view(&self) -> CommandView {
        CommandView {
            name: match self.name {
                Some(name) => Some(name@),
                None => None,
            },
            command: self.command@,
        }
    }
}

impl Command {
    /// Creates a [`Command`] without custom name. These commands are typically executed under
    /// the name `@`.
    pub fn new(command: &str) -> (created: Command)
        ensures
            created@ == (CommandView { name: None, command: command@ }),
    {
        Command { name: None, command: String::from_str(command) }
    }

    /// Creates a [`Command`] with the given custom `name`.
    pub fn named(name: &str, command: &str) -> (created: Command)
        ensures
            created@ == (CommandView { name: Some(name@), command: command@ }),
    {
        Command { name: Some(String::from_str(name)), command: String::from_str(command) }
    }

    /// The optional custom name.
    pub fn get_name(&self) -> (name: Option<&str>)
        ensures
            match name {
                Some(name) => self@.name == Some(name@),
                None => self@.name is None,
            },
    {
        match &self.name {
            Some(name) => Some(name.as_str()),
            None => None,
        }
    }

    /// The Minecraft command.
    pub fn get_command(&self) -> (command: &str)
        ensures
            command@ == self@.command,
    {
        self.command.as_str()
    }

    /// The custom name as a JSON text component.
    pub fn get_name_as_json(&self) -> (name: Option<String>)
        ensures
            match name {
                Some(name) => self@.name is Some && name@ == json_text_component(
                    self@.name->Some_0,
                ),
                None => self@.name is None,
            },
    {
        match self.get_name() {
            Some(name) => Some(create_json_text_component(name)),
            None => None,
        }
    }

    /// Gives the Minecraft command and leaves the custom name behind.
    pub fn into_command(self) -> (command: String)
        ensures
            command@ == self@.command,
    {
        self.command
    }
}

impl crate::structure::placement::Command for Command {
    /// These commands are never conditional.
    open spec fn conditional(&self) -> bool {
        false
    }

    fn is_conditional(&self) -> (conditional: bool) {
        false
    }
}

/// A builder for the parameters of a connection to Minecraft.
pub struct MinecraftConnectionBuilder {
    pub identifier: String,
    pub world_dir: PathBuf,
    pub log_file: Option<PathBuf>,
    pub enable_logging_automatically: bool,
}

impl MinecraftConnectionBuilder {
    /// Starts with the identifier of the connection and the directory of the world. The log
    /// file is not set and logging is enabled automatically.
    ///
    /// The identifier is used with the `tag` command of Minecraft, so it may only contain the
    /// characters `0-9`, `A-Z`, `a-z`, `+`, `-`, `.` and `_`.
    pub fn new(identifier: String, world_dir: PathBuf) -> (builder: MinecraftConnectionBuilder)
        requires
            is_valid_identifier(identifier@),
        ensures
            builder.identifier == identifier,
            builder.world_dir == world_dir,
            builder.log_file is None,
            builder.enable_logging_automatically,
    {
        MinecraftConnectionBuilder {
            identifier,
            world_dir,
            log_file: None,
            enable_logging_automatically: true,
        }
    }

    /// Sets the path to the log file of Minecraft.
    ///
    /// Without it the log file is taken to be at `../../logs/latest.log` relative to the
    /// directory of the world, which is right for single player, but usually not for servers.
    pub fn log_file(self, log_file: PathBuf) -> (builder: MinecraftConnectionBuilder)
        ensures
            builder.log_file == Some(log_file),
            builder.identifier == self.identifier,
            builder.world_dir == self.world_dir,
            builder.enable_logging_automatically == self.enable_logging_automatically,
    {
        let mut builder = self;
        builder.log_file = Some(log_file);
        builder
    }

    /// Sets whether logging is enabled automatically for all executed commands, by an
    /// [`enable_logging_command`] before them and a [`reset_logging_command`] after them.
    pub fn enable_logging_automatically(self, enable_logging_automatically: bool) -> (builder:
        MinecraftConnectionBuilder)
        ensures
            builder.enable_logging_automatically == enable_logging_automatically,
            builder.identifier == self.identifier,
            builder.world_dir == self.world_dir,
            builder.log_file == self.log_file,
    {
        let mut builder = self;
        builder.enable_logging_automatically = enable_logging_automatically;
        builder
    }
}

/// Whether `c` may stand in the identifier of a connection.
pub open spec fn allowed_in_identifier(c: char) -> bool {
    ||| '0' <= c <= '9'
    ||| 'A' <= c <= 'Z'
    ||| 'a' <= c <= 'z'
    ||| c == '+'
    ||| c == '-'
    ||| c == '.'
    ||| c == '_'
}

/// Whether every character of `identifier` may stand in the identifier of a connection.
pub open spec fn is_valid_identifier(identifier: Seq<char>) -> bool {
    forall|i: int| 0 <= i < identifier.len() ==> allowed_in_identifier(#[trigger] identifier[i])
}

/// Whether `c` may stand in the identifier of a connection.
pub fn is_allowed_in_identifier(c: char) -> (allowed: bool)
    ensures
        allowed == allowed_in_identifier(c),
{
    return c >= '0' && c <= '9' || c >= 'A' && c <= 'Z' || c >= 'a' && c <= 'z' || c == '+' || c
        == '-' || c == '.' || c == '_';
}

/// The characters of `text` that may not stand in an identifier, each once, in the order in
/// which they come first.
pub open spec fn invalid_chars(text: Seq<char>) -> Seq<char>
    decreases text.len(),
{
    if text.len() == 0 {
        Seq::empty()
    } else {
        let before = invalid_chars(text.drop_last());
        if allowed_in_identifier(text.last()) || before.contains(text.last()) {
            before
        } else {
            before.push(text.last())
        }
    }
}

/// A text is a valid identifier if and only if it has no characters that may not stand in an
/// identifier.
pub proof fn lemma_invalid_chars(text: Seq<char>)
    ensures
        invalid_chars(text).len() == 0 <==> is_valid_identifier(text),
    decreases text.len(),
{
    if text.len() > 0 {
        let shorter = text.drop_last();
        let before = invalid_chars(shorter);
        lemma_invalid_chars(shorter);
        if is_valid_identifier(text) {
            assert forall|i: int| 0 <= i < shorter.len() implies allowed_in_identifier(
                #[trigger] shorter[i],
            ) by {
                assert(shorter[i] == text[i]);
            }
        }
        if invalid_chars(text).len() == 0 {
            assert(before.len() == 0);
            assert forall|i: int| 0 <= i < text.len() implies allowed_in_identifier(
                #[trigger] text[i],
            ) by {
                if i < shorter.len() {
                    assert(shorter[i] == text[i]);
                }
            }
        }
    }
}

/// Every character as a text of its own.
pub open spec fn singles(chars: Seq<char>) -> Seq<Seq<char>> {
    Seq::new(chars.len(), |i: int| seq![chars[i]])
}

/// Finds the characters of `identifier` that may not stand in the identifier of a connection,
/// each once, in the order in which they come first. The identifier is valid if there is none.
pub fn validate_identifier(identifier: &str) -> (invalid: String)
    ensures
        invalid@ == invalid_chars(identifier@),
        invalid@.len() == 0 <==> is_valid_identifier(identifier@),
{
    let mut found = text_set_new();
    assert(singles(invalid_chars(identifier@.take(0))) =~= Seq::empty());
    for c in iter: identifier.chars()
        invariant
            iter.seq() == identifier@,
            text_set_items(found) == singles(invalid_chars(identifier@.take(iter.index()))),
    {
        let ghost before = invalid_chars(identifier@.take(iter.index()));
        assert(identifier@.take(iter.index() + 1).drop_last() =~= identifier@.take(iter.index()));
        if !is_allowed_in_identifier(c) {
            let mut single = String::new();
            single.push(c);
            assert(single@ =~= seq![c]);
            proof {
                if before.contains(c) {
                    let i = choose|i: int| 0 <= i < before.len() && before[i] == c;
                    assert(singles(before)[i] == seq![c]);
                }
                if singles(before).contains(seq![c]) {
                    let i = choose|i: int|
                        0 <= i < singles(before).len() && singles(before)[i] == seq![c];
                    assert(before[i] == seq![before[i]][0]);
                    assert(before[i] == c);
                }
                assert(singles(before.push(c)) =~= singles(before).push(seq![c]));
            }
            text_set_insert(&mut found, single);
        }
    }
    assert(identifier@.take(identifier@.len() as int) =~= identifier@);
    let items = text_set_to_vec(&found);
    proof {
        lemma_invalid_chars(identifier@);
    }
    let ghost invalid = invalid_chars(identifier@);
    let mut joined = String::new();
    let mut i: usize = 0;
    while i < items.len()
        invariant
            i <= items@.len() == invalid.len(),
            forall|j: int| 0 <= j < items@.len() ==> (#[trigger] items@[j])@ == seq![invalid[j]],
            joined@ == invalid.take(i as int),
        decreases items@.len() - i,
    {
        assert(items@[i as int]@ == singles(invalid)[i as int]);
        joined.append(items[i].as_str());
        assert(joined@ =~= invalid.take(i + 1));
        i = i + 1;
    }
    assert(invalid.take(invalid.len() as int) =~= invalid);
    joined
}

/// The error of executing commands.
#[derive(Debug)]
pub struct ExecuteCommandsError {
    inner: ExecuteCommandsErrorInner,
}

/// What went wrong when executing commands.
#[derive(Debug)]
pub enum ExecuteCommandsErrorInner {
    /// A file operation failed.
    Io(IoErrorAtPath),
}

impl ExecuteCommandsError {
    /// What went wrong.
    pub closed spec fn inner(&self) -> ExecuteCommandsErrorInner {
        self.inner
    }

    /// Creates the error for what went wrong.
    pub fn new(inner: ExecuteCommandsErrorInner) -> (error: ExecuteCommandsError)
        ensures
            error.inner() == inner,
    {
        ExecuteCommandsError { inner }
    }

    /// The error of a file operation as an error of executing commands.
    pub fn from(value: IoErrorAtPath) -> (error: ExecuteCommandsError)
        ensures
            error.inner() == ExecuteCommandsErrorInner::Io(value),
    {
        ExecuteCommandsError::new(ExecuteCommandsErrorInner::Io(value))
    }

    /// Gives what went wrong.
    pub fn into_inner(self) -> (inner: ExecuteCommandsErrorInner)
        ensures
            inner == self.inner(),
    {
        self.inner
    }

    /// The message, the path and the cause of the error in one line.
    pub fn to_string(&self) -> (text: String)
        ensures
            match self.inner() {
                ExecuteCommandsErrorInner::Io(error) => crate::io::is_description(
                    text@,
                    error.message@,
                ),
            },
    {
        match &self.inner {
            ExecuteCommandsErrorInner::Io(error) => error.to_string(),
        }
    }
}

/// The name under which the command that reports a loaded structure is executed.
pub const LOADED_LISTENER_NAME: &'static str = "minect_loaded";

/// What stands before the id in the name of the entity that reports a loaded structure.
pub const STRUCTURE_LOADED_OUTPUT_PREFIX: &'static str = "minect_loaded_";

/// The id of the structure that `event` reports as loaded: the executor has to be
/// [`LOADED_LISTENER_NAME`] and the output that of summoning an entity whose name is
/// [`STRUCTURE_LOADED_OUTPUT_PREFIX`] and the id as an unsigned decimal number.
pub open spec fn loaded_id(executor: Seq<char>, output: Seq<char>) -> Option<u64> {
    if executor != LOADED_LISTENER_NAME@ {
        None
    } else {
        match SummonNamedEntityOutput::parsed(output) {
            None => None,
            Some(name) => if occurs_at(name, 0, STRUCTURE_LOADED_OUTPUT_PREFIX@) {
                unsigned_value(name.skip(STRUCTURE_LOADED_OUTPUT_PREFIX@.len() as int))
            } else {
                None
            },
        }
    }
}

/// Finds the id of the structure that `event` reports as loaded, if it reports one.
pub fn parse_loaded_output(event: &LogEvent) -> (id: Option<u64>)
    ensures
        id == loaded_id(event.executor@, event.output@),
{
    let listener_name = String::from_str(LOADED_LISTENER_NAME);
    if event.executor != listener_name {
        return None;
    }
    let output = match SummonNamedEntityOutput::from_str(event.output.as_str()) {
        Err(_) => { return None; },
        Ok(output) => output,
    };
    let name = chars_of(output.name.as_str());
    match prefix_end(&name, 0, STRUCTURE_LOADED_OUTPUT_PREFIX) {
        None => None,
        Some(start) => {
            let digits = chars_of(string_of(&name, start, name.len()).as_str());
            assert(digits@ =~= name@.skip(start as int));
            parse_u64(&digits)
        },
    }
}

/// The name of the file that holds the structure with the given id.
pub open spec fn structure_file_name_text(id: u64) -> Seq<char> {
    decimal(id as nat) + ".nbt"@
}

/// The name of the file that holds the structure with the given id.
pub fn structure_file_name(id: u64) -> (name: String)
    ensures
        name@ == structure_file_name_text(id),
{
    let mut name = format_u64(id);
    name.append(".nbt");
    name
}

/// The removal of the files of structures that Minecraft has loaded: first the file of the
/// structure that was reported as loaded, then the files of the structures before it, one by
/// one, as long as there is a file to remove.
#[derive(Clone, Copy, Debug, PartialEq, Eq, Structural)]
pub struct LoadedListener {
    /// The id of the structure that was reported as loaded.
    pub id: u64,
    /// The number of files whose removal was tried.
    pub tried: u64,
}

impl LoadedListener {
    /// Takes up the removal of files if `event` reports a structure as loaded. No removal was
    /// tried yet.
    pub fn on_event(event: &LogEvent) -> (listener: Option<LoadedListener>)
        ensures
            match loaded_id(event.executor@, event.output@) {
                Some(id) => listener == Some(LoadedListener { id, tried: 0 }),
                None => listener is None,
            },
    {
        match parse_loaded_output(event) {
            Some(id) => Some(LoadedListener { id, tried: 0 }),
            None => None,
        }
    }

    /// The id of the structure whose file is to be removed next: the ids go down from the id of
    /// the loaded structure and wrap around below zero.
    pub open spec fn target(&self) -> u64 {
        ((self.id - self.tried) % 0x1_0000_0000_0000_0000) as u64
    }

    /// The name of the file that is to be removed next.
    pub fn get_structure_file(&self) -> (name: String)
        ensures
            name@ == structure_file_name_text(self.target()),
    {
        structure_file_name(self.id.wrapping_sub(self.tried))
    }

    /// Moves on after the removal of the file that [`get_structure_file`] names was tried:
    /// `removed` says whether the file was removed. The removal of the file of the loaded
    /// structure may fail, the files before it are removed until one removal fails. `None`
    /// when no more files are to be removed.
    ///
    /// [`get_structure_file`]: LoadedListener::get_structure_file
    pub fn removal_tried(self, removed: bool) -> (next: Option<LoadedListener>)
        ensures
            next == (if (self.tried == 0 || removed) && self.tried < u64::MAX {
                Some(LoadedListener { id: self.id, tried: (self.tried + 1) as u64 })
            } else {
                None
            }),
    {
        if (self.tried == 0 || removed) && self.tried < u64::MAX {
            Some(LoadedListener { id: self.id, tried: self.tried + 1 })
        } else {
            None
        }
    }
}

/// The id of the next structure, given the content of the file that holds the id of the last
/// one: zero for an empty file, else the number in the file plus one, which wraps around to
/// zero behind the greatest id. `None` if the content is no unsigned decimal number.
pub open spec fn incremented_id(content: Seq<char>) -> Option<u64> {
    if content.len() == 0 {
        Some(0)
    } else {
        match unsigned_value(content) {
            Some(id) => Some(if id == u64::MAX {
                0
            } else {
                (id + 1) as u64
            }),
            None => None,
        }
    }
}

/// Finds the id of the next structure from the content of the file that holds the id of the
/// last one.
pub fn read_incremented_id(content: &str) -> (id: Option<u64>)
    ensures
        id == incremented_id(content@),
{
    let chars = chars_of(content);
    if chars.len() == 0 {
        Some(0)
    } else {
        match parse_u64(&chars) {
            Some(id) => Some(id.wrapping_add(1)),
            None => None,
        }
    }
}

/// The content of the file that holds the id of the last structure.
pub fn write_id(id: u64) -> (content: String)
    ensures
        content@ == decimal(id as nat),
{
    format_u64(id)
}

/// After a structure was published and its id written, the next id that is read is the
/// written id plus one, and zero behind the greatest id: no id is given twice in a row.
pub proof fn lemma_written_id_is_incremented(id: u64)
    ensures
        incremented_id(decimal(id as nat)) == Some(
            if id == u64::MAX {
                0u64
            } else {
                (id + 1) as u64
            },
        ),
{
    lemma_parse_format(id);
    crate::text::lemma_decimal(id as nat);
}

/// The id that the publish with the number `count` uses, counted from zero, where `content` is
/// the content of the file of the id before the first publish and every publish writes its id
/// to the file. `None` if the content is no unsigned decimal number.
pub open spec fn published_id(content: Seq<char>, count: nat) -> Option<u64>
    decreases count,
{
    if count == 0 {
        incremented_id(content)
    } else {
        match published_id(content, (count - 1) as nat) {
            Some(id) => incremented_id(decimal(id as nat)),
            None => None,
        }
    }
}

/// Publishes that follow one another use consecutive ids, which wrap around to zero behind the
/// greatest id: the publish with the number `count` uses the id of the first publish plus
/// `count`. After it the file holds that id, so after `n` publishes into an empty file the file
/// holds `n - 1`, and after `n` publishes into a file that held `v` it holds `v + n`.
pub proof fn lemma_published_ids_are_consecutive(content: Seq<char>, count: nat)
    requires
        incremented_id(content) is Some,
    ensures
        published_id(content, count) == Some(
            ((incremented_id(content)->Some_0 + count) % 0x1_0000_0000_0000_0000) as u64,
        ),
    decreases count,
{
    if count > 0 {
        lemma_published_ids_are_consecutive(content, (count - 1) as nat);
        let first = incremented_id(content)->Some_0 as int;
        let previous = published_id(content, (count - 1) as nat)->Some_0;
        lemma_written_id_is_incremented(previous);
        assert(previous == (first + count - 1) % 0x1_0000_0000_0000_0000);
        if previous == u64::MAX {
            assert((first + count) % 0x1_0000_0000_0000_0000 == 0);
        } else {
            assert((first + count) % 0x1_0000_0000_0000_0000 == previous + 1);
        }
    }
}

/// The commands that are executed for a structure: those that are added before the given
/// commands, the given commands, and those that are added after them.
pub open spec fn with_implicit_commands(
    id: u64,
    commands: Seq<CommandView>,
    enable_logging_automatically: bool,
) -> Seq<CommandView> {
    let enable = CommandView { name: None, command: "function minect:enable_logging"@ };
    let loaded = CommandView {
        name: Some(LOADED_LISTENER_NAME@),
        command: summon_named_entity_command_text(
            STRUCTURE_LOADED_OUTPUT_PREFIX@ + decimal(id as nat),
        ),
    };
    let reset = CommandView { name: None, command: "function minect:reset_logging"@ };
    if enable_logging_automatically {
        seq![enable, loaded] + commands + seq![reset]
    } else {
        seq![enable, loaded, reset] + commands
    }
}

/// What the commands hold, in their order.
pub open spec fn commands_view(commands: Seq<Command>) -> Seq<CommandView> {
    Seq::new(commands.len(), |i: int| commands[i]@)
}

/// Adds the commands that every structure needs to `commands`: at the start a command that
/// enables logging and a command that reports the structure with the given id as loaded, and
/// a command that resets logging, which comes at the end if logging is enabled automatically
/// and else before the given commands, so that these are not logged.
///
/// Also gives the number of commands of the whole list.
pub fn add_implicit_commands(
    id: u64,
    commands: Vec<Command>,
    enable_logging_automatically: bool,
) -> (result: (Vec<Command>, usize))
    ensures
        commands_view(result.0@) == with_implicit_commands(
            id,
            commands_view(commands@),
            enable_logging_automatically,
        ),
        result.1 == result.0@.len(),
        result.1 == commands@.len() + 3,
{
    let mut all: Vec<Command> = Vec::new();
    all.push(Command::new(enable_logging_command().as_str()));
    let mut entity_name = String::from_str(STRUCTURE_LOADED_OUTPUT_PREFIX);
    push_decimal(&mut entity_name, id);
    all.push(
        Command::named(
            LOADED_LISTENER_NAME,
            summon_named_entity_command(entity_name.as_str()).as_str(),
        ),
    );
    if !enable_logging_automatically {
        all.push(Command::new(reset_logging_command().as_str()));
    }
    let ghost first = commands_view(all@);
    let ghost given = commands_view(commands@);
    for command in iter: commands
        invariant
            iter.seq() == commands@,
            given == commands_view(commands@),
            commands_view(all@) == first + given.take(iter.index()),
    {
        let ghost before = commands_view(all@);
        all.push(command);
        assert(commands_view(all@) =~= before.push(command@));
        assert(given.take(iter.index() + 1) =~= given.take(iter.index()).push(command@));
    }
    assert(given.take(given.len() as int) =~= given);
    if enable_logging_automatically {
        let ghost before = commands_view(all@);
        all.push(Command::new(reset_logging_command().as_str()));
        assert(commands_view(all@) =~= before.push(all@.last()@));
    }
    assert(commands_view(all@) =~= with_implicit_commands(
        id,
        given,
        enable_logging_automatically,
    ));
    let commands_len = all.len();
    (all, commands_len)
}

/// The id of the structure after the structure with the given id: the ids wrap around to zero
/// behind the greatest id.
pub open spec fn next_id(id: u64) -> u64 {
    if id == u64::MAX {
        0
    } else {
        (id + 1) as u64
    }
}

/// Whether `structure` is the structure of the batch with the given id of the connection with
/// the given identifier, which executes the commands `all`: it holds the fixed group of blocks,
/// which names the structure with the next id, and behind it the chain for `all`.
pub open spec fn is_batch_structure(
    structure: Structure,
    identifier: Seq<char>,
    id: u64,
    all: Seq<CommandView>,
) -> bool {
    exists|basic: Seq<Block>, chain: Seq<Block>|
        #![trigger structure_holds(structure, basic + chain)]
        {
            &&& is_basic_structure(basic, identifier, next_id(id))
            &&& are_command_blocks(chain, all)
            &&& structure_holds(structure, basic + chain)
        }
}

/// Generates the structure that executes `commands` as the batch with the given id of the
/// connection with the given identifier: the commands that every structure needs are added,
/// and the structure names the structure with the next id, which Minecraft loads after it.
/// Also gives the number of commands at the end that the structure has no room for.
pub fn execute_commands(
    identifier: &str,
    id: u64,
    commands: Vec<Command>,
    enable_logging_automatically: bool,
) -> (result: (Structure, usize))
    ensures
        result.0.wf(),
        is_batch_structure(
            result.0,
            identifier@,
            id,
            with_implicit_commands(id, commands_view(commands@), enable_logging_automatically),
        ),
        result.1 == commands@.len() + 3 - placed_commands((commands@.len() + 3) as nat),
{
    let following = id.wrapping_add(1);
    assert(following == next_id(id));
    let ghost given = commands@;
    let (commands, commands_len) = add_implicit_commands(
        id,
        commands,
        enable_logging_automatically,
    );
    let ignored = ignored_commands(commands_len);
    let ghost all = commands_view(commands@);
    let ghost expected = with_implicit_commands(
        id,
        commands_view(given),
        enable_logging_automatically,
    );
    assert(all == expected);
    let structure = generate_structure(identifier, following, commands);
    proof {
        let (basic, chain) = choose|basic: Seq<Block>, chain: Seq<Block>|
            {
                &&& is_basic_structure(basic, identifier@, following)
                &&& are_command_blocks(chain, all)
                &&& #[trigger] structure_holds(structure, basic + chain)
            };
        assert(is_basic_structure(basic, identifier@, next_id(id)) && are_command_blocks(
            chain,
            expected,
        ) && structure_holds(structure, basic + chain));
        assert(is_batch_structure(structure, identifier@, id, expected));
    }
    (structure, ignored)
}

} // verus!
