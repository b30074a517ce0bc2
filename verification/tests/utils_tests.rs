use telegram_client_rs::utils::{
    choose_time_label, format_message_time, get_user_display_name, normalize_chat_id,
    sanitize_chat_name, try_autocomplete,
};

#[test]
fn test_sanitize_chat_name() {
    assert_eq!(sanitize_chat_name("Normal Name"), "Normal Name");
    assert_eq!(sanitize_chat_name("[Test]"), "\\[Test\\]");
    assert_eq!(sanitize_chat_name("  Spaces  "), "Spaces");
}

#[test]
fn test_get_user_display_name() {
    assert_eq!(
        get_user_display_name(Some("John"), Some("Doe"), None, 123),
        "John Doe"
    );
    assert_eq!(
        get_user_display_name(None, None, Some("johndoe"), 123),
        "@johndoe"
    );
    assert_eq!(get_user_display_name(None, None, None, 123), "User 123");
}

#[test]
fn test_normalize_chat_id() {
    // Channel IDs: -100XXXXXXXXXX -> XXXXXXXXXX
    assert_eq!(normalize_chat_id(-1001234567890), 1234567890);
    // Regular group IDs: -XXXXXXXXXX -> XXXXXXXXXX
    assert_eq!(normalize_chat_id(-1234567), 1234567);
    // Positive IDs unchanged
    assert_eq!(normalize_chat_id(1234567), 1234567);
}

#[test]
fn test_autocomplete() {
    let (result, _) = try_autocomplete("/rep");
    assert_eq!(result, Some("/reply ".to_string()));

    let (result, hint) = try_autocomplete("/f");
    // Multiple matches: /filter, /forward, /fwd, /f
    assert!(result.is_some() || hint.is_some());
}

#[test]
fn chat_names_are_escaped_before_they_are_trimmed() {
    assert_eq!(sanitize_chat_name(" [a] b] "), "\\[a\\] b\\]");
    assert_eq!(sanitize_chat_name(""), "");
    assert_eq!(sanitize_chat_name("\u{3000}x\n"), "x");
}

#[test]
fn display_name_falls_back_step_by_step() {
    assert_eq!(get_user_display_name(Some("John"), None, Some("jd"), 1), "John");
    assert_eq!(get_user_display_name(Some(""), None, Some("jd"), 1), "@jd");
    assert_eq!(get_user_display_name(Some(""), Some("Doe"), Some("jd"), 1), " Doe");
    assert_eq!(get_user_display_name(None, Some("Doe"), None, -7), "User -7");
    assert_eq!(
        get_user_display_name(None, None, None, i64::MIN),
        "User -9223372036854775808"
    );
}

#[test]
fn chat_ids_lose_the_marks_of_a_channel() {
    assert_eq!(normalize_chat_id(0), 0);
    assert_eq!(normalize_chat_id(-1000), 0);
    assert_eq!(normalize_chat_id(-100), 100);
    assert_eq!(normalize_chat_id(-1009), 9);
    assert_eq!(normalize_chat_id(-1010), 1010);
    assert_eq!(normalize_chat_id(-1000000000005), 5);
    assert_eq!(normalize_chat_id(-1001), 1);
    assert_eq!(normalize_chat_id(-999), 999);
    assert_eq!(normalize_chat_id(i64::MIN), i64::MIN);
    assert_eq!(normalize_chat_id(i64::MIN + 1), i64::MAX);
    assert_eq!(normalize_chat_id(-1000000000000000000), 0);
    assert_eq!(normalize_chat_id(-1009999999999999999), 9999999999999999);
}

#[test]
fn completion_of_commands() {
    assert_eq!(try_autocomplete("hello"), (None, None));
    assert_eq!(try_autocomplete(""), (None, None));
    assert_eq!(try_autocomplete("/zzz"), (None, None));
    assert_eq!(try_autocomplete("/rep"), (Some("/reply ".to_string()), None));
}

#[test]
fn completion_names_the_choices_where_nothing_more_is_shared() {
    assert_eq!(
        try_autocomplete("/f"),
        (None, Some("Options: /filter, /forward, /fwd, /f".to_string()))
    );
    assert_eq!(
        try_autocomplete("/me"),
        (None, Some("Options: /media, /members".to_string()))
    );
    assert_eq!(try_autocomplete("/new"), (None, Some("Options: /new, /newgroup".to_string())));
    assert_eq!(try_autocomplete("/rem"), (Some("/remove ".to_string()), None));
    assert_eq!(try_autocomplete("/"), (None, Some(
        "Options: /reply, /media, /m, /edit, /e, /delete, /del, /d, /alias, /unalias, /filter, /search, /s, /new, /newgroup, /add, /kick, /remove, /members, /forward, /fwd, /f".to_string())));
    assert_eq!(try_autocomplete("/de"), (Some("/del".to_string()), None));
    assert_eq!(try_autocomplete("/reply "), (Some("/reply ".to_string()), None));
}

#[test]
fn time_of_a_message_is_short_for_today_and_long_for_other_days() {
    let noon = 1_700_000_000 - (1_700_000_000 % 86_400) + 12 * 3600;
    assert_eq!(format_message_time(noon + 65, noon + 3600, 0), "12:01");
    assert_eq!(format_message_time(noon, noon, 3600), "13:00");
    assert_eq!(format_message_time(0, noon, 0), "1970-01-01 00:00");
    assert_eq!(format_message_time(noon + 13 * 3600, noon, 0).len(), 16);
    assert_eq!(format_message_time(noon + 13 * 3600, noon, -3600 * 2), "23:00");
    assert_eq!(format_message_time(i64::MAX, noon, 0), "12:00");
    assert_eq!(format_message_time(noon, noon, 86_400), "");
    let s = |t: &str| Some(t.to_string());
    assert_eq!(choose_time_label(s("d"), s("d"), s("c"), s("f")), "c");
    assert_eq!(choose_time_label(s("d"), s("e"), s("c"), s("f")), "f");
    assert_eq!(choose_time_label(None, None, s("c"), s("f")), "f");
    assert_eq!(choose_time_label(s("d"), s("d"), None, s("f")), "");
}
