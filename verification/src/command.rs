//! Functions that generate Minecraft commands whose output is written to the log file, and the
//! types that the output of some common commands can be parsed into.
//!
//! The output of a command is only logged if the command is executed by a player, a command
//! block or a command block minecart, and if the gamerule `logAdminCommands` (and for command
//! blocks and minecarts also `commandBlockOutput`) is `true`. An [`enable_logging_command`]
//! sets the gamerules for logging and a [`reset_logging_command`] restores them.

use crate::json::{create_json_text_component, escaped, json_text_component, push_escaped};
use crate::text::{
    chars_of, decimal, find_from, find_last, first_occurrence, last_occurrence, occurs_at,
    parse_i32, prefix_end, push_signed_decimal, signed_decimal, signed_value, string_of,
};
use vstd::prelude::*;
use vstd::string::StringExecFns;

verus! {

/// Generates a Minecraft command that ensures that the output of all commands is logged until a
/// [`reset_logging_command`] is executed.
///
/// The command sets the gamerules `logAdminCommands` and `commandBlockOutput` to `true` and
/// `sendCommandFeedback` to `false`, and remembers their former values. After several of these
/// commands the same number of [`reset_logging_command`]s is needed to reset logging.
pub fn enable_logging_command() -> (command: String)
    ensures
        command@ == "function minect:enable_logging"@,
{
    String::from_str("function minect:enable_logging")
}

/// Generates a Minecraft command that restores the logging gamerules to their values before the
/// last [`enable_logging_command`] was executed.
pub fn reset_logging_command() -> (command: String)
    ensures
        command@ == "function minect:reset_logging"@,
{
    String::from_str("function minect:reset_logging")
}

/// Generates two Minecraft commands that cause `command` to be executed from a command block:
/// a [`prepare_logged_block_command`] and a [`logged_block_command`]. This can be used to log
/// the output of a command when running in a `mcfunction`.
pub fn logged_block_commands(command: &str) -> (commands: [String; 2])
    ensures
        commands@[0]@ == "function minect:prepare_logged_block"@,
        commands@[1]@ == logged_block_command_text(command@),
{
    [prepare_logged_block_command(), logged_block_command(command)]
}

/// The same as [`logged_block_commands`], but also defines the name of the command block, by
/// which the events of its output can be filtered.
pub fn named_logged_block_commands(name: &str, command: &str) -> (commands: [String; 2])
    ensures
        commands@[0]@ == "function minect:prepare_logged_block"@,
        commands@[1]@ == json_named_logged_block_command_text(
            json_text_component(name@),
            command@,
        ),
{
    [prepare_logged_block_command(), named_logged_block_command(name, command)]
}

/// The same as [`named_logged_block_commands`], but the name of the command block is given as a
/// JSON text component.
pub fn json_named_logged_block_commands(name: &str, command: &str) -> (commands: [String; 2])
    ensures
        commands@[0]@ == "function minect:prepare_logged_block"@,
        commands@[1]@ == json_named_logged_block_command_text(name@, command@),
{
    [prepare_logged_block_command(), json_named_logged_block_command(name, command)]
}

/// Generates a Minecraft command that prepares the next [`logged_block_command`],
/// [`named_logged_block_command`] or [`json_named_logged_block_command`].
pub fn prepare_logged_block_command() -> (command: String)
    ensures
        command@ == "function minect:prepare_logged_block"@,
{
    String::from_str("function minect:prepare_logged_block")
}

/// The text of a [`logged_block_command`].
pub open spec fn logged_block_command_text(command: Seq<char>) -> Seq<char> {
    "execute at @e[type=area_effect_cloud,tag=minect_cursor] run"@
        + " data modify block ~ ~ ~ Command set value \""@ + escaped(command) + "\""@
}

/// The text of a [`json_named_logged_block_command`].
pub open spec fn json_named_logged_block_command_text(
    name: Seq<char>,
    command: Seq<char>,
) -> Seq<char> {
    "execute at @e[type=area_effect_cloud,tag=minect_cursor] run"@
        + " data modify block ~ ~ ~ {} merge value {CustomName:\""@ + escaped(name)
        + "\",Command:\""@ + escaped(command) + "\"}"@
}

/// See [`logged_block_commands`]. Must be preceded by a [`prepare_logged_block_command`].
pub fn logged_block_command(command: &str) -> (text: String)
    ensures
        text@ == logged_block_command_text(command@),
{
    let mut text = String::from_str("execute at @e[type=area_effect_cloud,tag=minect_cursor] run");
    text.append(" data modify block ~ ~ ~ Command set value \"");
    push_escaped(&mut text, command);
    text.append("\"");
    text
}

/// See [`named_logged_block_commands`]. Must be preceded by a [`prepare_logged_block_command`].
pub fn named_logged_block_command(name: &str, command: &str) -> (text: String)
    ensures
        text@ == json_named_logged_block_command_text(json_text_component(name@), command@),
{
    let name = create_json_text_component(name);
    json_named_logged_block_command(name.as_str(), command)
}

/// See [`json_named_logged_block_commands`]. Must be preceded by a
/// [`prepare_logged_block_command`].
pub fn json_named_logged_block_command(name: &str, command: &str) -> (text: String)
    ensures
        text@ == json_named_logged_block_command_text(name@, command@),
{
    let mut text = String::from_str("execute at @e[type=area_effect_cloud,tag=minect_cursor] run");
    text.append(" data modify block ~ ~ ~ {} merge value {CustomName:\"");
    push_escaped(&mut text, name);
    text.append("\",Command:\"");
    push_escaped(&mut text, command);
    text.append("\"}");
    text
}

/// The entry for the custom name of a command block minecart: nothing without a name.
pub open spec fn custom_name_entry(name: Option<Seq<char>>) -> Seq<char> {
    match name {
        Some(name) => "CustomName:\""@ + escaped(name) + "\","@,
        None => Seq::empty(),
    }
}

/// The text of a command that summons a command block minecart, which executes `command`.
pub open spec fn logged_cart_command_text(name: Option<Seq<char>>, command: Seq<char>) -> Seq<
    char,
> {
    "execute at @e[type=area_effect_cloud,tag=minect_connection,limit=1] run "@
        + "summon command_block_minecart ~ ~ ~ {"@ + custom_name_entry(name) + "Command:\""@
        + escaped(command)
        + "\",Tags:[minect,minect_impulse],LastExecution:1L,TrackOutput:false,}"@
}

/// Generates a Minecraft command that causes `command` to be executed from a command block
/// minecart. This can be used to log the output of a command when running in a `mcfunction`.
///
/// Command block minecarts always execute with a delay of 4 ticks, so it is generally better to
/// use [`logged_block_commands`].
pub fn logged_cart_command(command: &str) -> (text: String)
    ensures
        text@ == logged_cart_command_text(None, command@),
{
    build_logged_cart_command(None, command)
}

/// The same as [`logged_cart_command`], but also defines the name of the command block
/// minecart, by which the events of its output can be filtered.
pub fn named_logged_cart_command(name: &str, command: &str) -> (text: String)
    ensures
        text@ == logged_cart_command_text(Some(json_text_component(name@)), command@),
{
    let name = create_json_text_component(name);
    json_named_logged_cart_command(name.as_str(), command)
}

/// The same as [`named_logged_cart_command`], but the name of the command block minecart is
/// given as a JSON text component.
pub fn json_named_logged_cart_command(name: &str, command: &str) -> (text: String)
    ensures
        text@ == logged_cart_command_text(Some(name@), command@),
{
    build_logged_cart_command(Some(name), command)
}

/// Generates the command that summons a command block minecart with an optional custom name,
/// which executes `command`.
pub fn build_logged_cart_command(name: Option<&str>, command: &str) -> (text: String)
    ensures
        text@ == logged_cart_command_text(
            match name {
                Some(name) => Some(name@),
                None => None,
            },
            command@,
        ),
{
    let mut text = String::from_str(
        "execute at @e[type=area_effect_cloud,tag=minect_connection,limit=1] run ",
    );
    text.append("summon command_block_minecart ~ ~ ~ {");
    let ghost head = text@;
    if let Some(name) = name {
        text.append("CustomName:\"");
        push_escaped(&mut text, name);
        text.append("\",");
        assert(text@ =~= head + custom_name_entry(Some(name@)));
    } else {
        assert(text@ =~= head + custom_name_entry(None));
    }
    text.append("Command:\"");
    push_escaped(&mut text, command);
    text.append("\",Tags:[minect,minect_impulse],LastExecution:1L,TrackOutput:false,}");
    text
}

/// The text of a [`summon_named_entity_command`].
pub open spec fn summon_named_entity_command_text(name: Seq<char>) -> Seq<char> {
    "summon area_effect_cloud ~ ~ ~ {\"CustomName\":\""@ + escaped(json_text_component(name))
        + "\"}"@
}

/// Generates a Minecraft command that summons an area effect cloud with the given `name`, which
/// is taken as a plain string, not as a JSON text component.
///
/// The output of the command can be parsed into a [`SummonNamedEntityOutput`].
pub fn summon_named_entity_command(name: &str) -> (text: String)
    ensures
        text@ == summon_named_entity_command_text(name@),
{
    let custom_name = create_json_text_component(name);
    let mut text = String::from_str("summon area_effect_cloud ~ ~ ~ {\"CustomName\":\"");
    push_escaped(&mut text, custom_name.as_str());
    text.append("\"}");
    text
}

/// The output of a [`summon_named_entity_command`]. It has the form `Summoned new <name>`.
#[derive(Clone, Debug, Eq, PartialEq)]
pub struct SummonNamedEntityOutput {
    /// The name of the summoned entity.
    pub name: String,
}

impl SummonNamedEntityOutput {
    /// The name in the output of a command that summoned a named entity; `None` for any other
    /// output.
    pub open spec fn parsed(output: Seq<char>) -> Option<Seq<char>> {
        let prefix = "Summoned new "@;
        if occurs_at(output, 0, prefix) {
            Some(output.skip(prefix.len() as int))
        } else {
            None
        }
    }

    /// The output for an entity with the given name.
    pub open spec fn text(name: Seq<char>) -> Seq<char> {
        "Summoned new "@ + name
    }

    /// Parses the output of a [`summon_named_entity_command`].
    pub fn from_str(output: &str) -> (result: Result<SummonNamedEntityOutput, ()>)
        ensures
            result is Ok <==> Self::parsed(output@) is Some,
            result matches Ok(parsed) ==> Some(parsed.name@) == Self::parsed(output@),
    {
        let chars = chars_of(output);
        match prefix_end(&chars, 0, "Summoned new ") {
            None => Err(()),
            Some(start) => {
                let name = string_of(&chars, start, chars.len());
                Ok(SummonNamedEntityOutput { name })
            },
        }
    }

    /// The output as Minecraft writes it.
    pub fn to_string(&self) -> (text: String)
        ensures
            text@ == Self::text(self.name@),
    {
        let mut text = String::from_str("Summoned new ");
        text.append(self.name.as_str());
        text
    }

    /// Parsing the output for a name gives the name back.
    pub proof fn lemma_parse_text(name: Seq<char>)
        ensures
            Self::parsed(Self::text(name)) == Some(name),
    {
        let prefix = "Summoned new "@;
        let output = Self::text(name);
        assert(output.subrange(0, prefix.len() as int) =~= prefix);
        assert(output.skip(prefix.len() as int) =~= name);
    }
}

/// Generates a Minecraft command that adds the given `tag` to the given `entity`, which can be
/// any selector or name.
///
/// The output of the command can be parsed into an [`AddTagOutput`].
pub fn add_tag_command(entity: &str, tag: &str) -> (text: String)
    ensures
        text@ == "tag "@ + entity@ + " add "@ + tag@,
{
    let mut text = String::from_str("tag ");
    text.append(entity);
    text.append(" add ");
    text.append(tag);
    text
}

/// The output of an [`add_tag_command`]. It has the form `Added tag '<tag>' to <entity>`.
#[derive(Clone, Debug, Eq, PartialEq)]
pub struct AddTagOutput {
    /// The tag that was added.
    pub tag: String,
    /// The custom name or UUID of the entity the tag was added to.
    pub entity: String,
}

impl AddTagOutput {
    /// The tag and the entity in the output of a command that added a tag; `None` for any other
    /// output. The tag ends where `' to ` stands first.
    pub open spec fn parsed(output: Seq<char>) -> Option<(Seq<char>, Seq<char>)> {
        let prefix = "Added tag '"@;
        let separator = "' to "@;
        if occurs_at(output, 0, prefix) {
            match first_occurrence(output, prefix.len() as int, separator) {
                Some(at) => Some(
                    (
                        output.subrange(prefix.len() as int, at),
                        output.skip(at + separator.len()),
                    ),
                ),
                None => None,
            }
        } else {
            None
        }
    }

    /// The output for the given tag and entity.
    pub open spec fn text(tag: Seq<char>, entity: Seq<char>) -> Seq<char> {
        "Added tag '"@ + tag + "' to "@ + entity
    }

    /// Parses the output of an [`add_tag_command`].
    pub fn from_str(output: &str) -> (result: Result<AddTagOutput, ()>)
        ensures
            result is Ok <==> Self::parsed(output@) is Some,
            result matches Ok(parsed) ==> Some((parsed.tag@, parsed.entity@)) == Self::parsed(
                output@,
            ),
    {
        let chars = chars_of(output);
        let start = match prefix_end(&chars, 0, "Added tag '") {
            None => { return Err(()); },
            Some(start) => start,
        };
        let separator = chars_of("' to ");
        match find_from(&chars, start, &separator) {
            None => Err(()),
            Some(at) => {
                let len = chars.len();
                let tag = string_of(&chars, start, at);
                let entity = string_of(&chars, at + separator.len(), len);
                Ok(AddTagOutput { tag, entity })
            },
        }
    }

    /// The output as Minecraft writes it.
    pub fn to_string(&self) -> (text: String)
        ensures
            text@ == Self::text(self.tag@, self.entity@),
    {
        let mut text = String::from_str("Added tag '");
        text.append(self.tag.as_str());
        text.append("' to ");
        text.append(self.entity.as_str());
        text
    }
}

/// Generates a Minecraft command that queries the score of `entity` in `scoreboard`. `entity`
/// can be any selector or name.
///
/// The output of the command can be parsed into a [`QueryScoreboardOutput`].
pub fn query_scoreboard_command(entity: &str, scoreboard: &str) -> (text: String)
    ensures
        text@ == "scoreboard players add "@ + entity@ + " "@ + scoreboard@ + " 0"@,
{
    let mut text = String::from_str("scoreboard players add ");
    text.append(entity);
    text.append(" ");
    text.append(scoreboard);
    text.append(" 0");
    text
}

/// The output of a [`query_scoreboard_command`]. It has the form
/// `Added 0 to [<scoreboard>] for <entity> (now <score>)`.
#[derive(Clone, Debug, Eq, PartialEq)]
pub struct QueryScoreboardOutput {
    /// The scoreboard.
    pub scoreboard: String,
    /// The name of the player or UUID of the entity.
    pub entity: String,
    /// The score of the entity.
    pub score: i32,
}

impl QueryScoreboardOutput {
    /// The scoreboard, the entity and the score in the output of a command that queried a
    /// score; `None` for any other output. The scoreboard ends where `] for ` stands first, the
    /// entity where ` (now ` stands last, and the score is the signed decimal number between
    /// that and the closing bracket at the end.
    pub open spec fn parsed(output: Seq<char>) -> Option<(Seq<char>, Seq<char>, i32)> {
        let prefix = "Added 0 to ["@;
        let for_text = "] for "@;
        let now_text = " (now "@;
        if !occurs_at(output, 0, prefix) {
            None
        } else {
            match first_occurrence(output, prefix.len() as int, for_text) {
                None => None,
                Some(for_at) => {
                    let entity_start = for_at + for_text.len();
                    match last_occurrence(output, now_text) {
                        None => None,
                        Some(now_at) => {
                            let score_start = now_at + now_text.len();
                            if now_at < entity_start || score_start >= output.len()
                                || output.last() != ')' {
                                None
                            } else {
                                match signed_value(
                                    output.subrange(score_start, output.len() - 1),
                                ) {
                                    None => None,
                                    Some(score) => Some(
                                        (
                                            output.subrange(prefix.len() as int, for_at),
                                            output.subrange(entity_start, now_at),
                                            score,
                                        ),
                                    ),
                                }
                            }
                        },
                    }
                },
            }
        }
    }

    /// The output for the given scoreboard, entity and score.
    pub open spec fn text(scoreboard: Seq<char>, entity: Seq<char>, score: i32) -> Seq<char> {
        "Added 0 to ["@ + scoreboard + "] for "@ + entity + " (now "@ + signed_decimal(
            score as int,
        ) + ")"@
    }

    /// Parses the output of a [`query_scoreboard_command`].
    pub fn from_str(output: &str) -> (result: Result<QueryScoreboardOutput, ()>)
        ensures
            result is Ok <==> Self::parsed(output@) is Some,
            result matches Ok(parsed) ==> Some((parsed.scoreboard@, parsed.entity@, parsed.score))
                == Self::parsed(output@),
    {
        let chars = chars_of(output);
        let len = chars.len();
        let start = match prefix_end(&chars, 0, "Added 0 to [") {
            None => { return Err(()); },
            Some(start) => start,
        };
        let for_text = chars_of("] for ");
        let for_at = match find_from(&chars, start, &for_text) {
            None => { return Err(()); },
            Some(at) => at,
        };
        let entity_start = for_at + for_text.len();
        let now_text = chars_of(" (now ");
        let now_at = match find_last(&chars, &now_text) {
            None => { return Err(()); },
            Some(at) => at,
        };
        let score_start = now_at + now_text.len();
        if now_at < entity_start || score_start >= len || chars[len - 1] != ')' {
            return Err(());
        }
        match parse_i32(&chars, score_start, len - 1) {
            None => Err(()),
            Some(score) => {
                let scoreboard = string_of(&chars, start, for_at);
                let entity = string_of(&chars, entity_start, now_at);
                Ok(QueryScoreboardOutput { scoreboard, entity, score })
            },
        }
    }

    /// The output as Minecraft writes it.
    pub fn to_string(&self) -> (text: String)
        ensures
            text@ == Self::text(self.scoreboard@, self.entity@, self.score),
    {
        let mut text = String::from_str("Added 0 to [");
        text.append(self.scoreboard.as_str());
        text.append("] for ");
        text.append(self.entity.as_str());
        text.append(" (now ");
        push_signed_decimal(&mut text, self.score);
        text.append(")");
        text
    }
}

} // verus!
