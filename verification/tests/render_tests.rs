use std::path::PathBuf;
use telegram_client_rs::aliases::Aliases;
use telegram_client_rs::app::ChatInfo;
use telegram_client_rs::config::{default_true, Config, Settings};
use telegram_client_rs::format_cache::{CacheKey, DisplayOptions, FormatCache};
use telegram_client_rs::message::{DisplayLine, LineStyle, MessageData, Reaction};
use telegram_client_rs::render::{
    chat_list_label, effective_scroll, input_line_count, rewrap, user_color_index,
};
use telegram_client_rs::telegram::{
    add_reaction, dialog_display_name, download_file_name, gather_history, is_worth_showing,
    media_extension, media_kind_of_document, position_of_number,
};
use telegram_client_rs::widgets::ChatPane;

fn chat(name: &str, username: Option<&str>, unread: u32) -> ChatInfo {
    ChatInfo {
        id: 1,
        name: name.to_string(),
        username: username.map(|u| u.to_string()),
        unread,
        is_channel: false,
        is_group: false,
    }
}

#[test]
fn list_labels_carry_unread_counts_and_user_names() {
    assert_eq!(chat_list_label(&chat("Alice", Some("@al"), 3), 40), "Alice (3) @al");
    assert_eq!(chat_list_label(&chat("Alice", Some(""), 0), 40), "Alice");
    assert_eq!(chat_list_label(&chat("Alice", None, 0), 40), "Alice");
}

#[test]
fn list_labels_are_cut_to_the_width_of_the_list() {
    assert_eq!(chat_list_label(&chat("Alexander", None, 0), 11), "Alex…");
    assert_eq!(chat_list_label(&chat("Alexander", None, 0), 15), "Alexander");
    assert_eq!(chat_list_label(&chat("Alexander", None, 0), 14), "Alexand…");
    assert_eq!(chat_list_label(&chat("Alexander", None, 0), 3), "…");
    assert_eq!(chat_list_label(&chat("A", None, 0), 0), "A");
}

#[test]
fn colours_of_senders_are_stable_and_within_range() {
    assert_eq!(user_color_index(0), 0);
    assert_eq!(user_color_index(5), user_color_index(-5));
    for id in [1i64, -1, 42, 1234567890, i64::MAX, i64::MIN] {
        assert!(user_color_index(id) < 20);
        assert_eq!(user_color_index(id), user_color_index(id));
    }
    let mut hash: u64 = 42;
    hash = hash.wrapping_mul(2654435761);
    hash ^= hash >> 16;
    hash = hash.wrapping_mul(0x85ebca6b);
    hash ^= hash >> 13;
    hash = hash.wrapping_mul(0xc2b2ae35);
    hash ^= hash >> 16;
    assert_eq!(user_color_index(42), (hash % 20) as usize);
}

#[test]
fn the_view_sticks_to_the_newest_line_unless_it_was_moved() {
    assert_eq!(effective_scroll(0, 30, 10), 20);
    assert_eq!(effective_scroll(0, 10, 10), 0);
    assert_eq!(effective_scroll(0, 5, 10), 0);
    assert_eq!(effective_scroll(7, 30, 10), 7);
}

#[test]
fn the_input_takes_the_rows_that_its_lines_need() {
    let chars = |s: &str| s.chars().collect::<Vec<char>>();
    assert_eq!(input_line_count(&chars(""), 10), 1);
    assert_eq!(input_line_count(&chars("abc"), 10), 1);
    assert_eq!(input_line_count(&chars("abcdefghi"), 10), 1);
    assert_eq!(input_line_count(&chars("abcdefghij"), 10), 2);
    assert_eq!(input_line_count(&chars("abcdefghijk"), 10), 2);
    assert_eq!(input_line_count(&chars("a\nb"), 10), 2);
    assert_eq!(input_line_count(&chars("a\n"), 10), 2);
    assert_eq!(input_line_count(&chars("abcdefghijklmnopqrstuvwxyz\nab"), 10), 4);
    assert_eq!(input_line_count(&chars("abc"), 0), 1);
}

#[test]
fn long_lines_are_wrapped_again_for_painting() {
    let lines = vec![
        DisplayLine {
            text: "a very long header line".to_string(),
            style: LineStyle::Incoming,
            sender_id: Some(7),
        },
        DisplayLine { text: "short".to_string(), style: LineStyle::Default, sender_id: None },
        DisplayLine { text: String::new(), style: LineStyle::Default, sender_id: None },
    ];
    let painted = rewrap(&lines, 10);
    let texts: Vec<&str> = painted.iter().map(|l| l.text.as_str()).collect();
    assert_eq!(texts, vec!["a very", "long", "header", "line", "short", ""]);
    assert_eq!(painted[2].style, LineStyle::Incoming);
    assert_eq!(painted[2].sender_id, Some(7));
    assert_eq!(painted[4].sender_id, None);
    assert_eq!(rewrap(&lines, 0), lines);
}

#[test]
fn a_pane_shows_its_status_lines_behind_its_messages() {
    let aliases = Aliases::new();
    let options = DisplayOptions {
        compact: true,
        show_emojis: true,
        show_reactions: true,
        show_timestamps: false,
        show_line_numbers: false,
        now: 0,
        utc_offset: 0,
    };
    let mut pane = ChatPane::new();
    pane.add_message("status".to_string());
    let only: Vec<String> =
        pane.render_lines(20, options, &aliases).iter().map(|l| l.text.clone()).collect();
    assert_eq!(only, vec!["status"]);
    pane.push_message(telegram_client_rs::message::MessageData::echo(
        1,
        &"hi".chars().collect(),
        None,
        0,
    ));
    let both: Vec<String> =
        pane.render_lines(20, options, &aliases).iter().map(|l| l.text.clone()).collect();
    assert_eq!(both, vec!["You:", "hi", "", "status"]);
    pane.clear();
    assert!(pane.render_lines(20, options, &aliases).is_empty());
}

#[test]
fn the_cache_answers_only_for_what_it_was_filled_with() {
    let options = DisplayOptions {
        compact: false,
        show_emojis: true,
        show_reactions: true,
        show_timestamps: true,
        show_line_numbers: false,
        now: 0,
        utc_offset: 0,
    };
    let key = CacheKey { width: 10, options, unread_count: 0, message_count: 2 };
    let mut cache = FormatCache::new();
    assert!(cache.is_empty());
    assert_eq!(cache.lookup(key), None);
    let lines = vec![DisplayLine { text: "x".to_string(), style: LineStyle::Default, sender_id: None }];
    cache.store(key, lines.clone());
    assert_eq!(cache.lookup(key), Some(lines));
    assert_eq!(cache.lookup(CacheKey { width: 11, ..key }), None);
    assert_eq!(cache.lookup(CacheKey { message_count: 3, ..key }), None);
    let later = DisplayOptions { now: 86_400, ..options };
    assert_eq!(cache.lookup(CacheKey { options: later, ..key }), None);
    cache.clear();
    assert_eq!(cache.lookup(key), None);
}

#[test]
fn aliases_replace_and_forget() {
    let mut aliases = Aliases::new();
    assert_eq!(aliases.get(1), None);
    aliases.insert(1, "one".to_string());
    aliases.insert(2, "two".to_string());
    aliases.insert(1, "uno".to_string());
    assert_eq!(aliases.get(1), Some(&"uno".to_string()));
    assert_eq!(aliases.len(), 2);
    assert_eq!(aliases.remove(1), Some("uno".to_string()));
    assert_eq!(aliases.remove(1), None);
    assert_eq!(aliases.get(2), Some(&"two".to_string()));
}

#[test]
fn kinds_and_endings_of_media() {
    assert_eq!(media_kind_of_document(Some("video/mp4")), "video");
    assert_eq!(media_kind_of_document(Some("audio/ogg")), "audio");
    assert_eq!(media_kind_of_document(Some("application/pdf")), "document");
    assert_eq!(media_kind_of_document(Some("video")), "document");
    assert_eq!(media_kind_of_document(None), "document");
    assert_eq!(media_extension(true, "photo"), "jpg");
    assert_eq!(media_extension(false, "video"), "mp4");
    assert_eq!(media_extension(false, "audio"), "mp3");
    assert_eq!(media_extension(false, "document"), "dat");
    assert_eq!(download_file_name(-100, 7, "jpg"), "telegram_msg_-100_7.jpg");
}

#[test]
fn names_of_conversations_fall_back() {
    assert_eq!(dialog_display_name("Team", Some("@team"), 5), "Team");
    assert_eq!(dialog_display_name("  ", Some("@team"), 5), "@team");
    assert_eq!(dialog_display_name("", None, 5), "Chat 5");
    assert_eq!(dialog_display_name(" x ", None, 5), " x ");
}

#[test]
fn reactions_are_counted_by_emoji() {
    let mut reactions: Vec<Reaction> = Vec::new();
    add_reaction(&mut reactions, "👍", 2);
    add_reaction(&mut reactions, "❤", 1);
    add_reaction(&mut reactions, "👍", 3);
    assert_eq!(
        reactions,
        vec![
            Reaction { emoji: "👍".to_string(), count: 5 },
            Reaction { emoji: "❤".to_string(), count: 1 },
        ]
    );
    add_reaction(&mut reactions, "❤", u32::MAX);
    assert_eq!(reactions[1].count, u32::MAX);
}

#[test]
fn settings_of_a_first_run_and_the_files_of_an_installation() {
    let settings = Settings::default();
    assert!(settings.show_reactions && settings.show_notifications && settings.show_emojis);
    assert!(settings.show_timestamps && settings.show_user_colors && settings.show_borders);
    assert!(!settings.compact_mode && !settings.show_line_numbers);
    assert!(default_true());
    let config = Config {
        api_id: 1,
        api_hash: "h".to_string(),
        phone_number: None,
        settings,
        config_dir: PathBuf::from("/home/u/.config/telegram_client_rs"),
    };
    assert_eq!(
        config.session_path(),
        PathBuf::from("/home/u/.config/telegram_client_rs/telegram_session.session")
    );
    assert_eq!(
        config.layout_path(),
        PathBuf::from("/home/u/.config/telegram_client_rs/telegram_layout.json")
    );
    assert_eq!(
        config.aliases_path(),
        PathBuf::from("/home/u/.config/telegram_client_rs/telegram_aliases.json")
    );
    let copy = config.clone();
    assert_eq!(copy.config_dir, config.config_dir);
}

#[test]
fn the_files_of_an_installation_follow_its_directory() {
    let here = Config {
        api_id: 1,
        api_hash: "h".to_string(),
        phone_number: None,
        settings: Settings::default(),
        config_dir: PathBuf::from("."),
    };
    let there = Config { config_dir: PathBuf::from("/var/lib/chat"), ..here.clone() };
    assert_eq!(here.layout_path(), PathBuf::from(".").join("telegram_layout.json"));
    assert_eq!(there.layout_path(), PathBuf::from("/var/lib/chat").join("telegram_layout.json"));
    assert_ne!(here.session_path(), there.session_path());
    assert_ne!(there.session_path(), there.config_dir);
    assert_ne!(there.session_path(), there.aliases_path());
    assert_ne!(there.layout_path(), there.aliases_path());
}

fn fetched(id: i32, text: &str, media: Option<&str>) -> MessageData {
    MessageData::received(
        id,
        7,
        "Ann".to_string(),
        text.to_string(),
        None,
        media.map(|m| m.to_string()),
        Vec::new(),
        1,
        1_700_000_000,
    )
}

#[test]
fn the_history_is_the_fetched_messages_with_content_oldest_first() {
    let newest_first = vec![
        fetched(5, "five", None),
        fetched(4, "", None),
        fetched(3, "", Some("photo")),
        fetched(2, "two", None),
        fetched(1, "one", None),
    ];
    let ids = |history: &Vec<MessageData>| history.iter().map(|m| m.msg_id).collect::<Vec<i32>>();
    assert!(is_worth_showing(&newest_first[0]));
    assert!(!is_worth_showing(&newest_first[1]));
    assert!(is_worth_showing(&newest_first[2]));
    let copy: Vec<MessageData> = newest_first.iter().cloned().collect();
    assert_eq!(ids(&gather_history(copy, 10)), vec![1, 2, 3, 5]);
    let copy: Vec<MessageData> = newest_first.iter().cloned().collect();
    assert_eq!(ids(&gather_history(copy, 3)), vec![3, 5]);
    assert!(gather_history(newest_first, 0).is_empty());
    assert!(gather_history(Vec::new(), 5).is_empty());
}

#[test]
fn a_message_number_counts_from_the_oldest_of_the_fetched() {
    assert_eq!(position_of_number(5, 1), Some(4));
    assert_eq!(position_of_number(5, 5), Some(0));
    assert_eq!(position_of_number(5, 6), None);
    assert_eq!(position_of_number(5, 0), None);
    assert_eq!(position_of_number(5, -3), None);
    assert_eq!(position_of_number(0, 1), None);
}
