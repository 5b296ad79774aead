use minect::command::{
    add_tag_command, build_logged_cart_command, enable_logging_command,
    json_named_logged_block_command, json_named_logged_block_commands,
    json_named_logged_cart_command, logged_block_command, logged_block_commands,
    logged_cart_command, named_logged_block_command, named_logged_block_commands,
    named_logged_cart_command, prepare_logged_block_command, query_scoreboard_command,
    reset_logging_command, summon_named_entity_command, AddTagOutput, QueryScoreboardOutput,
    SummonNamedEntityOutput,
};

#[test]
fn test_named_logged_block_command() {
    // given:
    let name = "Herobrine";
    let command = "say hi";

    // when:
    let actual = named_logged_block_command(name, command);

    // then:
    assert!(actual.chars().all(|c| c != '\n'));
}

#[test]
fn test_named_logged_cart_command() {
    // given:
    let name = "Herobrine";
    let command = "say hi";

    // when:
    let actual = named_logged_cart_command(name, command);

    // then:
    assert!(actual.chars().all(|c| c != '\n'));
}

#[test]
fn logging_commands_have_their_fixed_text() {
    assert_eq!(enable_logging_command(), "function minect:enable_logging");
    assert_eq!(reset_logging_command(), "function minect:reset_logging");
    assert_eq!(prepare_logged_block_command(), "function minect:prepare_logged_block");
}

#[test]
fn logged_block_command_escapes_the_command() {
    assert_eq!(
        logged_block_command("say hi"),
        "execute at @e[type=area_effect_cloud,tag=minect_cursor] run data modify block ~ ~ ~ Command set value \"say hi\""
    );
    assert_eq!(
        logged_block_command("say \"hi\" \\ there"),
        "execute at @e[type=area_effect_cloud,tag=minect_cursor] run data modify block ~ ~ ~ Command set value \"say \\\"hi\\\" \\\\ there\""
    );
}

#[test]
fn named_logged_block_command_has_the_name_as_json() {
    let expected = "execute at @e[type=area_effect_cloud,tag=minect_cursor] run data modify block ~ ~ ~ {} merge value {CustomName:\"{\\\"text\\\":\\\"Herobrine\\\"}\",Command:\"say hi\"}";
    assert_eq!(named_logged_block_command("Herobrine", "say hi"), expected);
    assert_eq!(
        json_named_logged_block_command("{\"text\":\"Herobrine\"}", "say hi"),
        expected
    );
}

#[test]
fn logged_block_commands_come_in_pairs() {
    assert_eq!(
        logged_block_commands("say hi"),
        [prepare_logged_block_command(), logged_block_command("say hi")]
    );
    assert_eq!(
        named_logged_block_commands("Herobrine", "say hi"),
        [
            prepare_logged_block_command(),
            named_logged_block_command("Herobrine", "say hi")
        ]
    );
    assert_eq!(
        json_named_logged_block_commands("\"x\"", "say hi"),
        [
            prepare_logged_block_command(),
            json_named_logged_block_command("\"x\"", "say hi")
        ]
    );
}

#[test]
fn logged_cart_commands_have_their_text() {
    assert_eq!(
        logged_cart_command("say hi"),
        "execute at @e[type=area_effect_cloud,tag=minect_connection,limit=1] run summon command_block_minecart ~ ~ ~ {Command:\"say hi\",Tags:[minect,minect_impulse],LastExecution:1L,TrackOutput:false,}"
    );
    let named = "execute at @e[type=area_effect_cloud,tag=minect_connection,limit=1] run summon command_block_minecart ~ ~ ~ {CustomName:\"{\\\"text\\\":\\\"Herobrine\\\"}\",Command:\"say hi\",Tags:[minect,minect_impulse],LastExecution:1L,TrackOutput:false,}";
    assert_eq!(named_logged_cart_command("Herobrine", "say hi"), named);
    assert_eq!(
        json_named_logged_cart_command("{\"text\":\"Herobrine\"}", "say hi"),
        named
    );
    assert_eq!(
        build_logged_cart_command(None, "say \"hi\""),
        "execute at @e[type=area_effect_cloud,tag=minect_connection,limit=1] run summon command_block_minecart ~ ~ ~ {Command:\"say \\\"hi\\\"\",Tags:[minect,minect_impulse],LastExecution:1L,TrackOutput:false,}"
    );
}

#[test]
fn summon_named_entity_command_and_its_output() {
    assert_eq!(
        summon_named_entity_command("test"),
        "summon area_effect_cloud ~ ~ ~ {\"CustomName\":\"{\\\"text\\\":\\\"test\\\"}\"}"
    );
    let output = SummonNamedEntityOutput::from_str("Summoned new my_name").unwrap();
    assert_eq!(output.name, "my_name");
    assert_eq!(output.to_string(), "Summoned new my_name");
    assert_eq!(
        SummonNamedEntityOutput::from_str("Summoned new ").unwrap().name,
        ""
    );
    assert_eq!(SummonNamedEntityOutput::from_str("Summoned new"), Err(()));
    assert_eq!(SummonNamedEntityOutput::from_str(" Summoned new x"), Err(()));
    assert_eq!(SummonNamedEntityOutput::from_str(""), Err(()));
}

#[test]
fn add_tag_command_and_its_output() {
    assert_eq!(add_tag_command("@s", "success"), "tag @s add success");
    let output = AddTagOutput::from_str("Added tag 'my_tag' to my_entity").unwrap();
    assert_eq!(output.tag, "my_tag");
    assert_eq!(output.entity, "my_entity");
    assert_eq!(output.to_string(), "Added tag 'my_tag' to my_entity");
    let output = AddTagOutput::from_str("Added tag 'a' to b' to c").unwrap();
    assert_eq!(output.tag, "a");
    assert_eq!(output.entity, "b' to c");
    assert_eq!(AddTagOutput::from_str("Added tag 'a to b"), Err(()));
    assert_eq!(AddTagOutput::from_str("Added tag a' to b"), Err(()));
    assert_eq!(AddTagOutput::from_str("Summoned new x"), Err(()));
}

#[test]
fn query_scoreboard_command_and_its_output() {
    assert_eq!(
        query_scoreboard_command("@p", "my_scoreboard"),
        "scoreboard players add @p my_scoreboard 0"
    );
    let output =
        QueryScoreboardOutput::from_str("Added 0 to [my_scoreboard] for my_entity (now 42)")
            .unwrap();
    assert_eq!(output.scoreboard, "my_scoreboard");
    assert_eq!(output.entity, "my_entity");
    assert_eq!(output.score, 42);
    assert_eq!(
        output.to_string(),
        "Added 0 to [my_scoreboard] for my_entity (now 42)"
    );
    let output = QueryScoreboardOutput::from_str("Added 0 to [s] for e (now 1) (now -7)").unwrap();
    assert_eq!(output.scoreboard, "s");
    assert_eq!(output.entity, "e (now 1)");
    assert_eq!(output.score, -7);
    assert_eq!(output.to_string(), "Added 0 to [s] for e (now 1) (now -7)");
    let output = QueryScoreboardOutput::from_str("Added 0 to [a] for b] for c (now +5)").unwrap();
    assert_eq!(output.scoreboard, "a");
    assert_eq!(output.entity, "b] for c");
    assert_eq!(output.score, 5);
    assert_eq!(
        QueryScoreboardOutput::from_str("Added 0 to [s] for e (now -2147483648)")
            .unwrap()
            .score,
        i32::MIN
    );
    assert_eq!(
        QueryScoreboardOutput::from_str("Added 0 to [s] for e (now 2147483647)")
            .unwrap()
            .score,
        i32::MAX
    );
    assert_eq!(QueryScoreboardOutput::from_str("Added 0 to [s] for e (now 2147483648)"), Err(()));
    assert_eq!(QueryScoreboardOutput::from_str("Added 0 to [s] for e (now 4x)"), Err(()));
    assert_eq!(QueryScoreboardOutput::from_str("Added 0 to [s] for e (now )"), Err(()));
    assert_eq!(QueryScoreboardOutput::from_str("Added 0 to [s] for e (now -)"), Err(()));
    assert_eq!(QueryScoreboardOutput::from_str("Added 0 to [s] for e (now 4"), Err(()));
    assert_eq!(QueryScoreboardOutput::from_str("Added 0 to [s] e (now 4)"), Err(()));
    assert_eq!(QueryScoreboardOutput::from_str("Added 0 to [s (now 4)] for e"), Err(()));
    assert_eq!(QueryScoreboardOutput::from_str("Added 1 to [s] for e (now 4)"), Err(()));
}
