use cnr::discord::{
    ClaimRow, CommandError, DiscordCommand, DiscordConfig, LogEntry, MessageRoute, claims_reply,
    goal_not_found, help_text, log_reply, manager_executor_error, manager_reply,
    parse_channel_id, parse_command, route_message, truncate_discord_message,
};
use cnr::text::IntErrorKind;

#[test]
fn parses_goal_with_spaces() {
    assert_eq!(
        parse_command("!cnr", "!cnr goal Fix the Discord adapter")
            .unwrap()
            .unwrap(),
        DiscordCommand::Goal {
            title: "Fix the Discord adapter".to_string()
        }
    );
}

#[test]
fn ignores_non_prefixed_messages() {
    assert_eq!(parse_command("!cnr", "hello").unwrap(), None);
}

#[test]
fn ignores_prefix_as_part_of_larger_word() {
    assert_eq!(parse_command("!cnr", "!cnrfoo").unwrap(), None);
}

#[test]
fn truncates_long_messages() {
    let body = "x".repeat(2_500);
    let truncated = truncate_discord_message(&body);
    assert!(truncated.len() <= 1_900);
    assert!(truncated.ends_with("[truncated]"));
}

#[test]
fn bare_prefix_and_help_ask_for_help() {
    assert_eq!(parse_command("!cnr", "!cnr").unwrap(), Some(DiscordCommand::Help));
    assert_eq!(parse_command("!cnr", "!cnr   ").unwrap(), Some(DiscordCommand::Help));
    assert_eq!(parse_command("!cnr", "!cnr help").unwrap(), Some(DiscordCommand::Help));
    assert_eq!(parse_command("!cnr", "!cnr\t help \n").unwrap(), Some(DiscordCommand::Help));
}

#[test]
fn help_with_arguments_is_an_unknown_command() {
    let err = parse_command("!cnr", "!cnr help me").unwrap_err();
    assert_eq!(
        err,
        CommandError::UnknownCommand { command: "help".to_string(), prefix: "!cnr".to_string() }
    );
    assert_eq!(err.message(), "unknown command: help. Try `!cnr help`.");
}

#[test]
fn goal_title_keeps_inner_spacing_and_is_trimmed() {
    assert_eq!(
        parse_command("!cnr", "!cnr  goal   two  spaces  ").unwrap(),
        Some(DiscordCommand::Goal { title: "two  spaces".to_string() })
    );
}

#[test]
fn goal_without_title_is_a_usage_error() {
    let err = parse_command("!cnr", "!cnr goal   ").unwrap_err();
    assert_eq!(err, CommandError::GoalUsage { prefix: "!cnr".to_string() });
    assert_eq!(err.message(), "usage: !cnr goal <title>");
    assert_eq!(err.report(), "usage: !cnr goal <title>");
}

#[test]
fn status_with_and_without_goal() {
    assert_eq!(
        parse_command("!cnr", "!cnr status").unwrap(),
        Some(DiscordCommand::Status { goal: None })
    );
    assert_eq!(
        parse_command("!cnr", "!cnr status abc extra").unwrap(),
        Some(DiscordCommand::Status { goal: Some("abc".to_string()) })
    );
}

#[test]
fn claims_needs_a_subject() {
    assert_eq!(
        parse_command("!cnr", "!cnr claims task:1").unwrap(),
        Some(DiscordCommand::Claims { subject: "task:1".to_string() })
    );
    let err = parse_command("!cnr", "!cnr claims").unwrap_err();
    assert_eq!(err, CommandError::ClaimsUsage { prefix: "!cnr".to_string() });
    assert_eq!(err.message(), "usage: !cnr claims <subject>");
}

#[test]
fn log_limit_defaults_and_parses() {
    assert_eq!(parse_command("!cnr", "!cnr log").unwrap(), Some(DiscordCommand::Log { limit: 10 }));
    assert_eq!(parse_command("!cnr", "!cnr log 3").unwrap(), Some(DiscordCommand::Log { limit: 3 }));
    assert_eq!(parse_command("!cnr", "!cnr log +7").unwrap(), Some(DiscordCommand::Log { limit: 7 }));
}

#[test]
fn log_limit_errors_follow_std() {
    for text in ["x1", "-1", "+", "1.5", "99999999999999999999999", "9999999999999999999999x"] {
        let expected = text.parse::<usize>().unwrap_err();
        let err = parse_command("!cnr", &format!("!cnr log {text}")).unwrap_err();
        assert_eq!(err.message(), "log limit must be a number");
        assert_eq!(err.report(), format!("log limit must be a number: {expected}"));
    }
    assert_eq!(
        parse_command("!cnr", "!cnr log abc").unwrap_err(),
        CommandError::LogLimit { kind: IntErrorKind::InvalidDigit }
    );
    assert_eq!(
        parse_command("!cnr", "!cnr log 99999999999999999999999").unwrap_err(),
        CommandError::LogLimit { kind: IntErrorKind::PosOverflow }
    );
}

#[test]
fn manager_goal_and_executor() {
    assert_eq!(
        parse_command("!cnr", "!cnr manager g1").unwrap(),
        Some(DiscordCommand::Manager { goal: "g1".to_string(), executor: "local".to_string() })
    );
    assert_eq!(
        parse_command("!cnr", "!cnr manager g1 modal").unwrap(),
        Some(DiscordCommand::Manager { goal: "g1".to_string(), executor: "modal".to_string() })
    );
    let err = parse_command("!cnr", "!cnr manager").unwrap_err();
    assert_eq!(err.message(), "usage: !cnr manager <goal> [local|modal]");
}

#[test]
fn replay_and_unknown_commands() {
    assert_eq!(parse_command("!cnr", "!cnr replay").unwrap(), Some(DiscordCommand::Replay));
    let err = parse_command("?c", "?c frobnicate now").unwrap_err();
    assert_eq!(err.message(), "unknown command: frobnicate. Try `?c help`.");
}

#[test]
fn unicode_whitespace_separates_words() {
    assert_eq!(
        parse_command("!cnr", "!cnr\u{3000}status\u{a0}g7").unwrap(),
        Some(DiscordCommand::Status { goal: Some("g7".to_string()) })
    );
}

#[test]
fn help_text_lists_every_command() {
    assert_eq!(
        help_text(),
        "CNR Discord commands:\n`!cnr goal <title>`\n`!cnr status [goal]`\n`!cnr claims <subject>`\n`!cnr log [limit]`\n`!cnr manager <goal> [local|modal]`\n`!cnr replay`"
    );
}

#[test]
fn short_messages_are_sent_unchanged() {
    let body = "y".repeat(1_900);
    assert_eq!(truncate_discord_message(&body), body);
    assert_eq!(truncate_discord_message("hi"), "hi");
}

#[test]
fn truncation_keeps_the_first_characters() {
    let body = "z".repeat(1_901);
    let t = truncate_discord_message(&body);
    assert_eq!(t.len(), 1_900);
    assert_eq!(t, format!("{}...\n[truncated]", "z".repeat(1_885)));
    // Multi-byte text is measured in bytes, cut in characters.
    let wide = "é".repeat(1_000);
    let t = truncate_discord_message(&wide);
    assert_eq!(t, format!("{}...\n[truncated]", "é".repeat(1_000)));
}

#[test]
fn routing_ignores_bots_and_other_channels() {
    assert_eq!(route_message(true, None, 1, "!cnr", "!cnr help"), MessageRoute::Ignore);
    assert_eq!(route_message(false, Some(2), 1, "!cnr", "!cnr help"), MessageRoute::Ignore);
    assert_eq!(route_message(false, Some(1), 1, "!cnr", "hello"), MessageRoute::Ignore);
    assert_eq!(
        route_message(false, Some(1), 1, "!cnr", "!cnr replay"),
        MessageRoute::Run { command: DiscordCommand::Replay }
    );
    assert_eq!(
        route_message(false, None, 9, "!cnr", "!cnr log q"),
        MessageRoute::Reply {
            body: "error: log limit must be a number: invalid digit found in string".to_string()
        }
    );
}

#[test]
fn config_defaults_the_prefix() {
    let c = DiscordConfig::new("t".to_string(), Some(5), std::path::PathBuf::from("/srv/cnr"), None);
    assert_eq!(c.prefix, "!cnr");
    assert_eq!(c.channel_id, Some(5));
    assert_eq!(c.root, std::path::PathBuf::from("/srv/cnr"));
    assert_eq!(c.token, "t");
    let c = DiscordConfig::new("t".to_string(), None, std::path::PathBuf::from("."), Some("?".to_string()));
    assert_eq!(c.prefix, "?");
}

#[test]
fn channel_id_setting() {
    assert_eq!(parse_channel_id(""), Ok(None));
    assert_eq!(parse_channel_id("  "), Ok(None));
    assert_eq!(parse_channel_id("123"), Ok(Some(123)));
    assert_eq!(parse_channel_id("18446744073709551615"), Ok(Some(u64::MAX)));
    assert_eq!(parse_channel_id("18446744073709551616"), Err(IntErrorKind::PosOverflow));
    assert_eq!(parse_channel_id(" 123"), Err(IntErrorKind::InvalidDigit));
}

#[test]
fn replies_for_claims_log_and_manager() {
    assert_eq!(claims_reply("task:1", &vec![]), "no claims for task:1");
    let rows = vec![
        ClaimRow { id: "c1".into(), predicate: "tests_run".into(), value_json: "true".into() },
        ClaimRow { id: "c2".into(), predicate: "blocked".into(), value_json: "{}".into() },
    ];
    assert_eq!(claims_reply("task:1", &rows), "c1\ttests_run\ttrue\nc2\tblocked\t{}");

    assert_eq!(log_reply(&vec![], 10), "no events yet");
    let entries: Vec<LogEntry> = (1..=4)
        .map(|i| LogEntry {
            seq: i,
            stream: format!("goal:{i}"),
            payload_type: "message".into(),
            id: format!("e{i}"),
        })
        .collect();
    assert_eq!(log_reply(&entries, 2), "3\tgoal:3\tmessage\te3\n4\tgoal:4\tmessage\te4");
    assert_eq!(log_reply(&entries, 0), "no events yet");
    assert_eq!(log_reply(&entries, 100).lines().count(), 4);

    assert_eq!(manager_reply(&vec![]), "actions=0");
    assert_eq!(manager_reply(&vec!["{}".to_string(), "[]".to_string()]), "actions=2\n{}\n[]");
    assert_eq!(goal_not_found("goal:x"), "goal not found: goal:x");
    assert_eq!(manager_executor_error("local"), None);
    assert_eq!(manager_executor_error("modal"), None);
    assert_eq!(manager_executor_error("remote").as_deref(), Some("executor must be local or modal"));
}
