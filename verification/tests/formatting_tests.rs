use telegram_client_rs::aliases::Aliases;
use telegram_client_rs::formatting::{format_messages_for_display, FormatConfig};
use telegram_client_rs::message::{DisplayLine, FilterType, LineStyle, MessageData, Reaction};

fn message(msg_id: i32, sender_id: i64, sender_name: &str, text: &str) -> MessageData {
    MessageData {
        msg_id,
        sender_id,
        sender_name: sender_name.to_string(),
        text: text.to_string(),
        is_outgoing: false,
        timestamp: 0,
        media_type: None,
        media_label: None,
        reactions: Vec::new(),
        reply_to_msg_id: None,
        reply_sender: None,
        reply_text: None,
    }
}

fn config<'a>(aliases: &'a Aliases, width: usize) -> FormatConfig<'a> {
    FormatConfig {
        width,
        compact: true,
        show_emojis: true,
        show_reactions: true,
        show_timestamps: false,
        show_line_numbers: false,
        now: 0,
        utc_offset: 0,
        filter_type: None,
        filter_value: None,
        unread_count: 0,
        aliases,
    }
}

fn texts(lines: &Vec<DisplayLine>) -> Vec<String> {
    lines.iter().map(|l| l.text.clone()).collect()
}

#[test]
fn single_incoming_record_with_reaction() {
    let aliases = Aliases::new();
    let mut alice = message(1, 7, "Alice", "hello world");
    alice.reactions.push(Reaction { emoji: "👍".to_string(), count: 2 });
    let lines = format_messages_for_display(&vec![alice], &config(&aliases, 80));
    assert_eq!(lines.len(), 2);
    assert!(lines[0].text.contains("Alice"));
    assert!(lines[0].text.contains("👍2"));
    assert_eq!(lines[0].text, "Alice: [👍2]");
    assert_eq!(lines[0].style, LineStyle::Incoming);
    assert_eq!(lines[1].text, "hello world");
    assert_eq!(lines[1].style, LineStyle::Incoming);
}

#[test]
fn zero_width_and_no_messages_give_no_lines() {
    let aliases = Aliases::new();
    let alice = message(1, 7, "Alice", "hello world");
    assert!(format_messages_for_display(&vec![alice], &config(&aliases, 0)).is_empty());
    assert!(format_messages_for_display(&Vec::new(), &config(&aliases, 80)).is_empty());
}

#[test]
fn body_wraps_at_width_and_cuts_long_words() {
    let aliases = Aliases::new();
    let alice = message(1, 7, "Alice", "aa bb cc abcdefghij k");
    let lines = format_messages_for_display(&vec![alice], &config(&aliases, 5));
    assert_eq!(
        texts(&lines),
        vec!["Alice:", "aa bb", "cc", "abcde", "fghij", "k"]
    );
}

#[test]
fn header_carries_number_time_and_alias() {
    let mut aliases = Aliases::new();
    aliases.insert(7, "Al".to_string());
    let mut alice = message(1, 7, "Alice", "hi");
    alice.timestamp = 3600 * 13 + 60 * 5 + 59;
    let mut cfg = config(&aliases, 80);
    cfg.show_timestamps = true;
    cfg.show_line_numbers = true;
    cfg.compact = false;
    let lines = format_messages_for_display(&vec![alice.clone()], &cfg);
    assert_eq!(texts(&lines), vec!["#1 Al: 13:05", "hi"]);
    cfg.utc_offset = 3600;
    let lines = format_messages_for_display(&vec![alice.clone()], &cfg);
    assert_eq!(texts(&lines), vec!["#1 Al: 14:05", "hi"]);
    cfg.now = 3 * 86_400;
    let lines = format_messages_for_display(&vec![alice], &cfg);
    assert_eq!(texts(&lines), vec!["#1 Al: 1970-01-01 14:05", "hi"]);
}

#[test]
fn negative_timestamp_counts_back_from_midnight() {
    let aliases = Aliases::new();
    let mut alice = message(1, 7, "Alice", "hi");
    alice.timestamp = -60;
    let mut cfg = config(&aliases, 80);
    cfg.show_timestamps = true;
    cfg.now = -1;
    let lines = format_messages_for_display(&vec![alice.clone()], &cfg);
    assert_eq!(lines[0].text, "Alice: 23:59");
    cfg.now = 0;
    let lines = format_messages_for_display(&vec![alice], &cfg);
    assert_eq!(lines[0].text, "Alice: 1969-12-31 23:59");
}

#[test]
fn reply_gets_reference_line_and_style() {
    let aliases = Aliases::new();
    let mut mine = message(1, 1, "You", "first line\nsecond line");
    mine.is_outgoing = true;
    let mut answer = message(2, 7, "Alice", "ok");
    answer.reply_to_msg_id = Some(1);
    let lines = format_messages_for_display(&vec![mine, answer], &config(&aliases, 80));
    assert_eq!(
        texts(&lines),
        vec!["You:", "first line second line", "  ↳ Reply to You: first line", "Alice:", "ok"]
    );
    assert_eq!(lines[0].style, LineStyle::Outgoing);
    assert_eq!(lines[2].style, LineStyle::ReplyReference);
    assert_eq!(lines[2].sender_id, None);
    assert_eq!(lines[0].sender_id, Some(1));
    assert_eq!(lines[4].sender_id, Some(7));
    assert_eq!(lines[3].style, LineStyle::ReplyToMe);
    assert_eq!(lines[4].style, LineStyle::ReplyToMe);
}

#[test]
fn reply_reference_is_cut_at_sixty_characters() {
    let aliases = Aliases::new();
    let long = "x".repeat(61);
    let first = message(1, 7, "Alice", &long);
    let mut answer = message(2, 8, "Bob", "ok");
    answer.reply_to_msg_id = Some(1);
    let lines = format_messages_for_display(&vec![first, answer], &config(&aliases, 200));
    assert_eq!(lines[2].text, format!("  ↳ Reply to Alice: {}...", "x".repeat(60)));
}

#[test]
fn reply_to_unknown_message_uses_what_the_reply_carries() {
    let aliases = Aliases::new();
    let mut answer = message(2, 8, "Bob", "ok");
    answer.reply_to_msg_id = Some(99);
    let lines = format_messages_for_display(&vec![answer.clone()], &config(&aliases, 80));
    assert_eq!(lines[0].text, "  ↳ Reply to #99: ");
    answer.reply_sender = Some("Carol".to_string());
    answer.reply_text = Some("see you".to_string());
    let lines = format_messages_for_display(&vec![answer], &config(&aliases, 80));
    assert_eq!(lines[0].text, "  ↳ Reply to Carol: see you");
}

#[test]
fn filters_drop_what_does_not_match() {
    let aliases = Aliases::new();
    let mut photo = message(1, 7, "Alice", "look");
    photo.media_type = Some("photo".to_string());
    let link = message(2, 8, "Bob", "see https://example.org now");
    let plain = message(3, 9, "Carol", "nothing");
    let all = vec![photo, link, plain];

    let mut cfg = config(&aliases, 80);
    cfg.filter_type = Some(FilterType::Media);
    cfg.filter_value = Some("photo");
    assert_eq!(texts(&format_messages_for_display(&all, &cfg)), vec!["Alice:", "[photo] look"]);

    cfg.filter_type = Some(FilterType::Link);
    cfg.filter_value = Some("link");
    assert_eq!(
        texts(&format_messages_for_display(&all, &cfg)),
        vec!["Bob:", "see https://example.org now"]
    );

    cfg.filter_type = Some(FilterType::Sender);
    cfg.filter_value = Some("CAR");
    assert_eq!(texts(&format_messages_for_display(&all, &cfg)), vec!["Carol:", "nothing"]);

    cfg.filter_value = None;
    assert!(format_messages_for_display(&all, &cfg).is_empty());

    cfg.filter_type = Some(FilterType::Media);
    cfg.filter_value = Some("hologram");
    assert!(format_messages_for_display(&all, &cfg).is_empty());
}

#[test]
fn clearing_a_filter_restores_the_unfiltered_lines() {
    let aliases = Aliases::new();
    let all = vec![message(1, 7, "Alice", "one"), message(2, 8, "Bob", "two")];
    let mut cfg = config(&aliases, 80);
    let before = format_messages_for_display(&all, &cfg);
    cfg.filter_type = Some(FilterType::Sender);
    cfg.filter_value = Some("bob");
    let narrowed = format_messages_for_display(&all, &cfg);
    assert_eq!(texts(&narrowed), vec!["Bob:", "two"]);
    cfg.filter_type = None;
    cfg.filter_value = None;
    assert_eq!(format_messages_for_display(&all, &cfg), before);
}

#[test]
fn formatting_twice_gives_the_same_lines() {
    let aliases = Aliases::new();
    let all = vec![message(1, 7, "Alice", "one two three"), message(2, 8, "Bob", "two")];
    let cfg = config(&aliases, 7);
    assert_eq!(
        format_messages_for_display(&all, &cfg),
        format_messages_for_display(&all, &cfg)
    );
}

#[test]
fn unread_mark_stands_before_the_first_unread_message_shown() {
    let aliases = Aliases::new();
    let all = vec![
        message(1, 7, "Alice", "one"),
        message(2, 8, "Bob", "two"),
        message(3, 7, "Alice", "three"),
    ];
    let mut cfg = config(&aliases, 80);
    cfg.unread_count = 2;
    assert_eq!(
        texts(&format_messages_for_display(&all, &cfg)),
        vec!["Alice:", "one", "--- new messages ---", "Bob:", "two", "Alice:", "three"]
    );
    cfg.filter_type = Some(FilterType::Sender);
    cfg.filter_value = Some("alice");
    assert_eq!(
        texts(&format_messages_for_display(&all, &cfg)),
        vec!["Alice:", "one", "--- new messages ---", "Alice:", "three"]
    );
}

#[test]
fn hidden_emoji_leave_the_text_without_them() {
    let aliases = Aliases::new();
    let alice = message(1, 7, "Alice 🌟", "good 👍 day");
    let mut cfg = config(&aliases, 80);
    cfg.show_emojis = false;
    assert_eq!(
        texts(&format_messages_for_display(&vec![alice], &cfg)),
        vec!["Alice :", "good day"]
    );
}

#[test]
fn an_empty_line_parts_the_messages_unless_the_display_is_compact() {
    let aliases = Aliases::new();
    let all = vec![message(1, 7, "Alice", "one"), message(2, 8, "Bob", "two")];
    let mut cfg = config(&aliases, 80);
    cfg.compact = false;
    assert_eq!(
        texts(&format_messages_for_display(&all, &cfg)),
        vec!["Alice:", "one", "", "Bob:", "two"]
    );
    cfg.compact = true;
    assert_eq!(
        texts(&format_messages_for_display(&all, &cfg)),
        vec!["Alice:", "one", "Bob:", "two"]
    );
    cfg.compact = false;
    let mut alice = message(1, 7, "Alice", "hello world");
    alice.reactions.push(Reaction { emoji: "👍".to_string(), count: 2 });
    cfg.show_timestamps = true;
    let lines = format_messages_for_display(&vec![alice], &cfg);
    assert_eq!(texts(&lines), vec!["Alice: 00:00 [👍2]", "hello world"]);
}

#[test]
fn media_are_named_in_front_of_the_text() {
    let aliases = Aliases::new();
    let mut photo = message(1, 7, "Alice", "");
    photo.media_type = Some("photo".to_string());
    let mut named = message(2, 7, "Alice", "look");
    named.media_type = Some("document".to_string());
    named.media_label = Some("report.pdf".to_string());
    assert_eq!(
        texts(&format_messages_for_display(&vec![photo, named], &config(&aliases, 80))),
        vec!["Alice:", "[photo]", "Alice:", "[report.pdf] look"]
    );
}

#[test]
fn sender_filter_looks_at_the_alias_too() {
    let mut aliases = Aliases::new();
    aliases.insert(7, "Boss".to_string());
    let all = vec![message(1, 7, "Alice", "one"), message(2, 8, "Bob", "two")];
    let mut cfg = config(&aliases, 80);
    cfg.filter_type = Some(FilterType::Sender);
    cfg.filter_value = Some("bos");
    assert_eq!(texts(&format_messages_for_display(&all, &cfg)), vec!["Boss:", "one"]);
    cfg.filter_value = Some("ALI");
    assert_eq!(texts(&format_messages_for_display(&all, &cfg)), vec!["Boss:", "one"]);
}
