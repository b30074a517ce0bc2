use telegram_client_rs::aliases::Aliases;
use telegram_client_rs::app::{App, ChatInfo};
use telegram_client_rs::events::{EnterAction, UpdateAction};
use telegram_client_rs::focus::FocusTarget;
use telegram_client_rs::geometry::Rect;
use telegram_client_rs::message::{FilterType, LineStyle, MessageData};
use telegram_client_rs::pane_tree::{PaneNode, SplitDirection};
use telegram_client_rs::persistence::{AppSettings, AppState, LayoutData, PaneState};

fn chat(id: i64, name: &str, unread: u32, is_group: bool) -> ChatInfo {
    ChatInfo {
        id,
        name: name.to_string(),
        username: Some(format!("@{}", name.to_lowercase())),
        unread,
        is_channel: false,
        is_group,
    }
}

fn fresh() -> App {
    App::new(
        100,
        vec![chat(1, "Alice", 2, false), chat(2, "Team", 0, true)],
        AppState {
            settings: AppSettings::default(),
            aliases: Aliases::new(),
            layout: LayoutData::default(),
        },
    )
}

fn message(msg_id: i32, sender_id: i64, sender_name: &str, text: &str) -> MessageData {
    MessageData::received(
        msg_id,
        sender_id,
        sender_name.to_string(),
        text.to_string(),
        None,
        None,
        Vec::new(),
        100,
        0,
    )
}

fn type_text(app: &mut App, text: &str) {
    for c in text.chars() {
        app.handle_char(c);
    }
}

fn typed(app: &App) -> String {
    app.panes[app.focus.focused_pane_idx].input_buffer.iter().collect()
}

fn status(app: &App) -> String {
    app.status_message.clone().unwrap_or_default()
}

#[test]
fn a_first_run_starts_with_one_pane_and_the_keys_on_the_list() {
    let app = fresh();
    assert_eq!(app.panes.len(), 1);
    assert_eq!(app.pane_tree, PaneNode::new_single(0));
    assert_eq!(app.focus.focus_target(), FocusTarget::ExternalList);
    assert!(app.show_reactions && app.show_timestamps && !app.compact_mode);
    assert!(app.status_message.is_none());
}

#[test]
fn splitting_adds_a_pane_and_moves_the_focus_to_it() {
    let mut app = fresh();
    app.split_vertical();
    assert_eq!(app.panes.len(), 2);
    assert_eq!(app.pane_tree.leaf_indices(), vec![0, 1]);
    assert_eq!(app.focus.focus_target(), FocusTarget::Leaf(1));
    app.split_horizontal();
    assert_eq!(app.panes.len(), 3);
    assert_eq!(app.pane_tree.leaf_indices(), vec![0, 1, 2]);
    assert_eq!(
        app.pane_tree,
        PaneNode::Split {
            direction: SplitDirection::Vertical,
            children: vec![
                PaneNode::Single(0),
                PaneNode::Split {
                    direction: SplitDirection::Horizontal,
                    children: vec![PaneNode::Single(1), PaneNode::Single(2)],
                },
            ],
        }
    );
    assert!(app.pane_tree.is_valid(app.panes.len()));
}

#[test]
fn closing_removes_the_leaf_and_refuses_the_last_pane() {
    let mut app = fresh();
    app.close_pane();
    assert_eq!(status(&app), "Cannot close the last pane");
    assert_eq!(app.pane_tree.count_leaves(), 1);
    app.split_vertical();
    app.split_vertical();
    app.close_pane();
    assert_eq!(status(&app), "Closed pane 2 (3 -> 2 panes)");
    assert_eq!(app.pane_tree.leaf_indices(), vec![0, 1]);
    assert_eq!(app.focus.focused_pane_idx, 0);
    assert_eq!(app.panes.len(), 3);
    app.focus.focused_pane_idx = 2;
    app.close_pane();
    assert_eq!(status(&app), "Failed to close pane");
    assert_eq!(app.pane_tree.leaf_indices(), vec![0, 1]);
}

#[test]
fn toggling_the_split_direction_tells_what_happened() {
    let mut app = fresh();
    app.toggle_split_direction();
    assert_eq!(status(&app), "No split to toggle - pane is not in a split");
    app.split_vertical();
    app.toggle_split_direction();
    assert_eq!(status(&app), "Split direction toggled");
    assert_eq!(
        app.pane_tree,
        PaneNode::Split {
            direction: SplitDirection::Horizontal,
            children: vec![PaneNode::Single(0), PaneNode::Single(1)],
        }
    );
}

#[test]
fn cycling_the_focus_goes_round_and_tells_where_it_is() {
    let mut app = fresh();
    app.split_vertical();
    app.focus.focus_on_chat_list = true;
    app.cycle_focus();
    assert_eq!(app.focus.focus_target(), FocusTarget::Leaf(0));
    assert_eq!(status(&app), "Focus: Pane #1");
    app.cycle_focus();
    assert_eq!(app.focus.focus_target(), FocusTarget::Leaf(1));
    assert_eq!(status(&app), "Focus: Pane #2");
    app.cycle_focus();
    assert_eq!(app.focus.focus_target(), FocusTarget::ExternalList);
    assert_eq!(status(&app), "Focus: Chat List");
    app.cycle_focus_reverse();
    assert_eq!(app.focus.focus_target(), FocusTarget::Leaf(1));
    app.focus_next_pane();
    assert_eq!(app.focus.focus_target(), FocusTarget::Leaf(0));
    app.focus_prev_pane();
    assert_eq!(app.focus.focus_target(), FocusTarget::Leaf(1));
    assert_eq!(status(&app), "Focus: Pane #2");
}

#[test]
fn switches_flip_and_empty_what_the_panes_remember() {
    let mut app = fresh();
    app.open_chat_in_pane(0, 1, "Alice", vec![message(1, 7, "Alice", "hi")]);
    let lines = app.pane_lines(0, 40);
    assert!(!app.panes[0].format_cache.is_empty());
    app.toggle_timestamps();
    assert!(!app.show_timestamps);
    assert_eq!(status(&app), "Timestamps: OFF");
    assert!(app.panes[0].format_cache.is_empty());
    let plain = app.pane_lines(0, 40);
    assert_ne!(lines, plain);
    assert_eq!(plain[0].text, "Alice:");
    app.toggle_timestamps();
    assert_eq!(status(&app), "Timestamps: ON");
    assert_eq!(app.pane_lines(0, 40), lines);
    app.toggle_reactions();
    assert_eq!(status(&app), "Reactions: OFF");
    app.toggle_notifications();
    assert_eq!(status(&app), "Desktop notifications: OFF");
    app.toggle_compact();
    assert_eq!(status(&app), "Compact mode: ON");
    app.toggle_emojis();
    assert_eq!(status(&app), "Emojis: OFF");
    app.toggle_line_numbers();
    assert_eq!(status(&app), "Line numbers: ON");
    app.toggle_chat_list();
    assert_eq!(status(&app), "Chat list: OFF");
    app.toggle_user_colors();
    assert_eq!(status(&app), "User colors: OFF");
    app.toggle_borders();
    assert_eq!(status(&app), "Borders: OFF");
    assert_eq!(app.status_seconds, 3);
    assert!(app.status_pending);
    app.status_armed();
    assert!(!app.status_pending);
    app.clear_status();
    assert!(app.status_message.is_none());
}

#[test]
fn cached_lines_are_the_lines_that_formatting_gives() {
    let mut app = fresh();
    app.open_chat_in_pane(0, 1, "Alice", vec![message(1, 7, "Alice", "one two three")]);
    let first = app.pane_lines(0, 9);
    let second = app.pane_lines(0, 9);
    assert_eq!(first, second);
    let narrow = app.pane_lines(0, 5);
    assert_ne!(first, narrow);
    app.panes[0].format_cache.clear();
    assert_eq!(app.pane_lines(0, 9), first);
}

#[test]
fn a_click_gives_the_keys_to_the_pane_under_the_pointer() {
    let mut app = fresh();
    app.split_vertical();
    app.focus.focus_on_chat_list = true;
    app.arrange(Rect::new(20, 0, 80, 24));
    app.handle_mouse_click(25, 3);
    assert_eq!(app.focus.focus_target(), FocusTarget::Leaf(0));
    assert_eq!(status(&app), "Active: Pane #1");
    app.handle_mouse_click(60, 3);
    assert_eq!(app.focus.focus_target(), FocusTarget::Leaf(1));
    app.clear_status();
    app.handle_mouse_click(5, 3);
    assert_eq!(app.focus.focus_target(), FocusTarget::Leaf(1));
    assert!(app.status_message.is_none());
}

#[test]
fn a_click_in_the_list_names_the_conversation_of_that_row() {
    let app = fresh();
    let area = Rect::new(0, 0, 20, 10);
    assert_eq!(app.handle_chat_list_click(0, area), None);
    assert_eq!(app.handle_chat_list_click(1, area), Some(0));
    assert_eq!(app.handle_chat_list_click(2, area), Some(1));
    assert_eq!(app.handle_chat_list_click(3, area), None);
    assert_eq!(app.handle_chat_list_click(9, area), None);
    let mut bare = fresh();
    bare.toggle_borders();
    assert_eq!(bare.handle_chat_list_click(0, area), Some(0));
}

#[test]
fn typing_edits_the_input_at_the_cursor() {
    let mut app = fresh();
    app.focus.focus_on_chat_list = false;
    type_text(&mut app, "helo");
    app.handle_input_left();
    app.handle_char('l');
    assert_eq!(typed(&app), "hello");
    assert_eq!(app.panes[0].input_cursor, 4);
    app.handle_home();
    app.handle_delete();
    assert_eq!(typed(&app), "ello");
    app.handle_backspace();
    assert_eq!(typed(&app), "ello");
    app.handle_end();
    app.handle_backspace();
    assert_eq!(typed(&app), "ell");
    app.handle_input_right();
    assert_eq!(app.panes[0].input_cursor, 3);
    app.handle_delete();
    assert_eq!(typed(&app), "ell");
    assert_eq!(app.panes[0].input_with_cursor(), "ell\u{2588}");
    app.handle_input_left();
    assert_eq!(app.panes[0].input_with_cursor(), "el\u{2588}l");
}

#[test]
fn sending_text_shows_it_at_once_and_asks_for_it_to_be_sent() {
    let mut app = fresh();
    app.open_chat_in_pane(0, 1, "Alice", vec![message(1, 7, "Alice", "hi")]);
    app.focus.focus_on_chat_list = false;
    let _ = app.pane_lines(0, 40);
    type_text(&mut app, "hello there");
    let action = app.handle_enter(1234);
    assert_eq!(
        action,
        EnterAction::SendMessage { chat_id: 1, text: "hello there".to_string() }
    );
    assert_eq!(typed(&app), "");
    assert!(app.panes[0].format_cache.is_empty());
    let echo = app.panes[0].msg_data.last().unwrap();
    assert_eq!(echo.msg_id, 0);
    assert_eq!(echo.sender_name, "You");
    assert_eq!(echo.sender_id, 100);
    assert!(echo.is_outgoing);
    assert_eq!(echo.timestamp, 1234);
    assert_eq!(echo.text, "hello there");
    let lines = app.pane_lines(0, 40);
    assert_eq!(lines.last().unwrap().text, "hello there");
    assert_eq!(lines.last().unwrap().style, LineStyle::Outgoing);
    let texts: Vec<&str> = lines.iter().map(|l| l.text.as_str()).collect();
    assert_eq!(texts, vec!["Alice: 00:00", "hi", "", "You: 00:20", "hello there"]);
}

#[test]
fn an_answer_that_was_begun_is_sent_as_an_answer() {
    let mut app = fresh();
    app.open_chat_in_pane(0, 1, "Alice", vec![message(41, 7, "Alice", "hi")]);
    app.focus.focus_on_chat_list = false;
    app.panes[0].reply_to_message = Some(41);
    app.panes[0].show_reply_preview("Reply to #1: hi".to_string());
    type_text(&mut app, "ok");
    assert_eq!(
        app.handle_enter(5),
        EnterAction::SendReply { chat_id: 1, reply_to: 41, text: "ok".to_string() }
    );
    assert_eq!(app.panes[0].reply_to_message, None);
    assert_eq!(app.panes[0].reply_preview, None);
    assert_eq!(app.panes[0].msg_data.last().unwrap().reply_to_msg_id, Some(41));
}

#[test]
fn enter_hands_commands_on_and_leaves_other_cases_alone() {
    let mut app = fresh();
    assert_eq!(app.handle_enter(0), EnterAction::OpenChat { chat_index: 0, chat_id: 1 });
    app.handle_down();
    assert_eq!(app.handle_enter(0), EnterAction::OpenChat { chat_index: 1, chat_id: 2 });
    app.focus.focus_on_chat_list = false;
    assert_eq!(app.handle_enter(0), EnterAction::Nothing);
    type_text(&mut app, "no chat yet");
    assert_eq!(app.handle_enter(0), EnterAction::Nothing);
    assert_eq!(typed(&app), "no chat yet");
    app.panes[0].clear_input();
    type_text(&mut app, "/filter photo");
    assert_eq!(
        app.handle_enter(0),
        EnterAction::RunCommand { pane_idx: 0, text: "/filter photo".to_string() }
    );
    assert_eq!(typed(&app), "");
    type_text(&mut app, "/nonsense");
    assert_eq!(app.handle_enter(0), EnterAction::Nothing);
    assert_eq!(typed(&app), "/nonsense");
    app.focus.focus_on_chat_list = true;
    assert_eq!(app.handle_enter(0), EnterAction::Nothing);
}

#[test]
fn earlier_inputs_come_back_with_up_and_down() {
    let mut app = fresh();
    app.open_chat_in_pane(0, 1, "Alice", Vec::new());
    app.focus.focus_on_chat_list = false;
    for text in ["one", "two", "two", "three"] {
        type_text(&mut app, text);
        app.handle_enter(0);
    }
    assert_eq!(app.input_history.len(), 3);
    type_text(&mut app, "draft");
    app.handle_up();
    assert_eq!(typed(&app), "three");
    app.handle_up();
    assert_eq!(typed(&app), "two");
    app.handle_up();
    app.handle_up();
    assert_eq!(typed(&app), "one");
    app.handle_down();
    assert_eq!(typed(&app), "two");
    app.handle_down();
    app.handle_down();
    assert_eq!(typed(&app), "draft");
    assert_eq!(app.history_idx, None);
    app.handle_down();
    assert_eq!(typed(&app), "draft");
}

#[test]
fn no_more_than_a_hundred_inputs_are_kept() {
    let mut app = fresh();
    app.open_chat_in_pane(0, 1, "Alice", Vec::new());
    app.focus.focus_on_chat_list = false;
    for i in 0..105 {
        type_text(&mut app, &format!("m{}", i));
        app.handle_enter(0);
    }
    assert_eq!(app.input_history.len(), 100);
    let first: String = app.input_history[0].iter().collect();
    let last: String = app.input_history[99].iter().collect();
    assert_eq!(first, "m5");
    assert_eq!(last, "m104");
}

#[test]
fn up_and_down_move_the_choice_in_the_list() {
    let mut app = fresh();
    app.handle_up();
    assert_eq!(app.selected_chat_idx, 0);
    app.handle_down();
    assert_eq!(app.selected_chat_idx, 1);
    app.handle_down();
    assert_eq!(app.selected_chat_idx, 1);
    app.handle_up();
    assert_eq!(app.selected_chat_idx, 0);
}

#[test]
fn the_tabulator_completes_commands_or_moves_the_focus() {
    let mut app = fresh();
    app.handle_tab();
    assert_eq!(app.focus.focus_target(), FocusTarget::Leaf(0));
    type_text(&mut app, "/rep");
    app.handle_tab();
    assert_eq!(typed(&app), "/reply ");
    assert_eq!(app.panes[0].input_cursor, 7);
    app.panes[0].clear_input();
    type_text(&mut app, "/f");
    app.handle_tab();
    assert_eq!(typed(&app), "/f");
    assert_eq!(status(&app), "Options: /filter, /forward, /fwd, /f");
    app.panes[0].clear_input();
    type_text(&mut app, "hello");
    app.handle_tab();
    assert_eq!(app.focus.focus_target(), FocusTarget::ExternalList);
}

#[test]
fn paging_moves_the_view_of_the_pane_that_has_the_keys() {
    let mut app = fresh();
    app.handle_page_down();
    assert_eq!(app.panes[0].scroll_offset, 0);
    app.focus.focus_on_chat_list = false;
    app.handle_page_down();
    app.handle_page_down();
    assert_eq!(app.panes[0].scroll_offset, 10);
    app.handle_page_up();
    assert_eq!(app.panes[0].scroll_offset, 5);
    app.handle_page_up();
    app.handle_page_up();
    assert_eq!(app.panes[0].scroll_offset, 0);
}

#[test]
fn opening_a_conversation_fills_the_pane_and_marks_it_read() {
    let mut app = fresh();
    app.panes[0].add_message("old status".to_string());
    app.open_chat_in_pane(0, 1, "Alice", vec![message(1, 7, "Alice", "hi")]);
    assert_eq!(app.panes[0].chat_id, Some(1));
    assert_eq!(app.panes[0].chat_name, "Alice");
    assert_eq!(app.panes[0].username, Some("@alice".to_string()));
    assert!(app.panes[0].messages.is_empty());
    assert_eq!(app.chats[0].unread, 0);
    assert_eq!(app.panes[0].header_text(), "Alice @alice");
    assert_eq!(app.pane_header(0), "[TARGET] Alice @alice");
    app.open_chat_in_pane(5, 2, "Team", Vec::new());
    assert_eq!(app.panes.len(), 1);
}

#[test]
fn opening_from_the_list_remembers_the_unread_count() {
    let mut app = fresh();
    app.open_listed_chat(0, vec![message(1, 7, "Alice", "a"), message(2, 7, "Alice", "b")], true);
    assert_eq!(app.panes[0].unread_count_at_load, 2);
    assert_eq!(app.chats[0].unread, 0);
    assert_eq!(app.focus.focus_target(), FocusTarget::Leaf(0));
    let texts: Vec<String> = app.pane_lines(0, 40).iter().map(|l| l.text.clone()).collect();
    assert_eq!(texts[0], "--- new messages ---");
}

#[test]
fn a_new_message_reloads_the_panes_that_show_its_conversation() {
    let mut app = fresh();
    app.split_vertical();
    app.open_chat_in_pane(0, 1234567890, "Channel", Vec::new());
    app.open_chat_in_pane(1, 1, "Alice", Vec::new());
    let action = app.on_new_message(-1001234567890, "news", false);
    assert_eq!(action, UpdateAction::Reload { chat_id: 1234567890, panes: vec![0] });
    assert_eq!(app.on_new_message(1, "mine", true), UpdateAction::Nothing);
    app.apply_reloaded(&vec![0], &vec![message(9, 7, "Bot", "news")]);
    assert_eq!(app.panes[0].msg_data.len(), 1);
    assert!(app.panes[1].msg_data.is_empty());
}

#[test]
fn a_new_message_elsewhere_counts_as_unread_and_is_announced() {
    let mut app = fresh();
    let long = "x".repeat(60);
    let action = app.on_new_message(2, &long, false);
    assert_eq!(
        action,
        UpdateAction::NotifyDesktop {
            title: "Team".to_string(),
            preview: format!("{}...", "x".repeat(50)),
        }
    );
    assert_eq!(app.chats[1].unread, 1);
    assert_eq!(status(&app), format!("Team: {}...", "x".repeat(50)));
    app.toggle_notifications();
    assert_eq!(app.on_new_message(2, "short", false), UpdateAction::Nothing);
    assert_eq!(app.chats[1].unread, 2);
    assert_eq!(status(&app), "Team: short");
    app.chats[1].unread = u32::MAX;
    app.on_new_message(2, "more", false);
    assert_eq!(app.chats[1].unread, u32::MAX);
    app.clear_status();
    assert_eq!(app.on_new_message(77, "unknown", false), UpdateAction::Nothing);
    assert!(app.status_message.is_none());
}

#[test]
fn typing_is_shown_until_its_time_is_over() {
    let mut app = fresh();
    app.open_chat_in_pane(0, 1, "Alice", Vec::new());
    app.on_user_typing(1, "Alice", 1000);
    assert_eq!(app.panes[0].header_text(), "Alice @alice (Alice is typing...)");
    assert_eq!(app.panes[0].typing_until, 1005);
    app.expire_typing(1004);
    assert!(app.panes[0].typing_user.is_some());
    app.expire_typing(1005);
    assert!(app.panes[0].typing_user.is_none());
    app.on_user_typing(2, "Bob", 1000);
    assert!(app.panes[0].typing_user.is_none());
    app.on_user_typing(1, "Alice", u64::MAX - 2);
    assert_eq!(app.panes[0].typing_until, u64::MAX);
}

#[test]
fn setting_a_filter_and_clearing_it_restores_the_lines() {
    let mut app = fresh();
    app.open_chat_in_pane(
        0,
        1,
        "Alice",
        vec![message(1, 7, "Alice", "one"), message(2, 8, "Bob", "two")],
    );
    let before = app.pane_lines(0, 40);
    app.set_filter(0, Some(FilterType::Sender), Some("bob".to_string()));
    let narrowed = app.pane_lines(0, 40);
    assert_eq!(narrowed.len(), 2);
    app.set_filter(0, None, None);
    assert_eq!(app.pane_lines(0, 40), before);
}

#[test]
fn what_is_kept_comes_back() {
    let mut app = fresh();
    app.split_vertical();
    app.open_chat_in_pane(1, 2, "Team", Vec::new());
    app.set_filter(1, Some(FilterType::Media), Some("photo".to_string()));
    app.toggle_compact();
    let layout = app.save_state();
    assert_eq!(layout.focused_pane, Some(1));
    assert_eq!(layout.panes.len(), 2);
    assert_eq!(
        layout.panes[1],
        PaneState {
            chat_id: Some(2),
            chat_name: "Team".to_string(),
            scroll_offset: 0,
            filter_type: Some("media".to_string()),
            filter_value: Some("photo".to_string()),
        }
    );
    let settings = app.settings_snapshot();
    assert!(settings.compact_mode);
    let again = App::new(
        100,
        Vec::new(),
        AppState { settings, aliases: Aliases::new(), layout },
    );
    assert_eq!(again.pane_tree, app.pane_tree);
    assert_eq!(again.focus.focus_target(), FocusTarget::Leaf(1));
    assert_eq!(again.panes[1].chat_id, Some(2));
    assert_eq!(again.panes[1].filter_type, Some(FilterType::Media));
    assert_eq!(again.panes[1].filter_value, Some("photo".to_string()));
    assert!(again.compact_mode);
}

#[test]
fn a_kept_tree_that_cannot_stand_gives_way_to_a_row_of_panes() {
    let pane = |name: &str, kind: Option<&str>| PaneState {
        chat_id: None,
        chat_name: name.to_string(),
        scroll_offset: 3,
        filter_type: kind.map(|k| k.to_string()),
        filter_value: Some("v".to_string()),
    };
    let broken = PaneNode::Split {
        direction: SplitDirection::Vertical,
        children: vec![PaneNode::Single(0), PaneNode::Single(0)],
    };
    let app = App::new(
        1,
        Vec::new(),
        AppState {
            settings: AppSettings::default(),
            aliases: Aliases::new(),
            layout: LayoutData {
                panes: vec![pane("a", Some("sender")), pane("b", Some("bogus")), pane("c", None)],
                focused_pane: Some(7),
                pane_tree: Some(broken),
            },
        },
    );
    assert_eq!(app.panes.len(), 3);
    assert_eq!(app.pane_tree.leaf_indices(), vec![0, 1, 2]);
    assert!(app.pane_tree.is_valid(3));
    assert_eq!(app.focus.focus_target(), FocusTarget::ExternalList);
    assert_eq!(app.panes[0].filter_type, Some(FilterType::Sender));
    assert_eq!(app.panes[0].filter_value, Some("v".to_string()));
    assert_eq!(app.panes[1].filter_type, None);
    assert_eq!(app.panes[1].filter_value, None);
    assert_eq!(app.panes[2].filter_value, Some("v".to_string()));
    assert_eq!(app.panes[2].scroll_offset, 3);
}

#[test]
fn a_kept_tree_gets_a_pane_for_every_leaf() {
    let tree = PaneNode::Split {
        direction: SplitDirection::Horizontal,
        children: vec![PaneNode::Single(4), PaneNode::Single(1)],
    };
    let app = App::new(
        1,
        Vec::new(),
        AppState {
            settings: AppSettings::default(),
            aliases: Aliases::new(),
            layout: LayoutData { panes: Vec::new(), focused_pane: Some(4), pane_tree: Some(tree) },
        },
    );
    assert_eq!(app.panes.len(), 5);
    assert_eq!(app.pane_tree.leaf_indices(), vec![4, 1]);
    assert_eq!(app.focus.focus_target(), FocusTarget::Leaf(4));
}

#[test]
fn a_split_aimed_at_a_pane_outside_the_layout_changes_nothing() {
    let tree = PaneNode::Split {
        direction: SplitDirection::Vertical,
        children: vec![PaneNode::Single(0), PaneNode::Single(2)],
    };
    let mut app = App::new(
        100,
        vec![chat(1, "Alice", 2, false)],
        AppState {
            settings: AppSettings::default(),
            aliases: Aliases::new(),
            layout: LayoutData { panes: Vec::new(), focused_pane: Some(1), pane_tree: Some(tree) },
        },
    );
    assert_eq!(app.panes.len(), 3);
    assert_eq!(app.focus.focus_target(), FocusTarget::Leaf(1));
    assert!(!app.pane_tree.contains_leaf(1));
    app.split_horizontal();
    assert_eq!(app.panes.len(), 3);
    assert_eq!(app.pane_tree.leaf_indices(), vec![0, 2]);
    assert_eq!(app.focus.focus_target(), FocusTarget::Leaf(1));
    assert_eq!(status(&app), "Cannot split - pane is not in the layout");
    app.clear_status();
    app.split_vertical();
    assert_eq!(app.panes.len(), 3);
    assert_eq!(app.pane_tree.leaf_indices(), vec![0, 2]);
    assert_eq!(status(&app), "Cannot split - pane is not in the layout");
    app.focus.focus_leaf(2);
    app.split_vertical();
    assert_eq!(app.panes.len(), 4);
    assert_eq!(app.pane_tree.leaf_indices(), vec![0, 2, 3]);
    assert_eq!(app.focus.focus_target(), FocusTarget::Leaf(3));
    assert!(app.pane_tree.is_valid(app.panes.len()));
}

#[test]
fn the_clock_moves_on_when_the_day_is_another() {
    let mut app = fresh();
    assert_eq!((app.now, app.utc_offset), (0, 0));
    app.set_clock(3_600, 0);
    assert_eq!(app.now, 0);
    app.set_clock(86_400 + 5, 0);
    assert_eq!(app.now, 86_400 + 5);
    app.set_clock(86_400 + 900, 0);
    assert_eq!(app.now, 86_400 + 5);
    app.set_clock(86_400 + 900, 7_200);
    assert_eq!((app.now, app.utc_offset), (86_400 + 900, 7_200));
    app.set_clock(86_400 + 22 * 3_600, 7_200);
    assert_eq!(app.now, 86_400 + 22 * 3_600);
    app.open_chat_in_pane(0, 1, "Alice", vec![message(1, 7, "Ann", "hi")]);
    let lines: Vec<String> = app.pane_lines(0, 40).iter().map(|l| l.text.clone()).collect();
    assert_eq!(lines, vec!["Ann: 1970-01-01 02:00", "hi"]);
    app.set_clock(100, 0);
    let lines: Vec<String> = app.pane_lines(0, 40).iter().map(|l| l.text.clone()).collect();
    assert_eq!(lines, vec!["Ann: 00:00", "hi"]);
}

#[test]
fn an_answer_that_was_begun_can_be_given_up() {
    let mut app = fresh();
    assert!(!app.pane_needs_messages(0));
    assert!(!app.pane_needs_messages(9));
    app.open_chat_in_pane(0, 1, "Alice", Vec::new());
    assert!(app.pane_needs_messages(0));
    app.open_chat_in_pane(0, 1, "Alice", vec![message(5, 7, "Alice", "one")]);
    assert!(!app.pane_needs_messages(0));
    app.panes[0].show_reply_preview("Reply to #1: one".to_string());
    app.cancel_reply();
    assert!(app.panes[0].reply_preview.is_some());
    app.panes[0].reply_to_message = Some(5);
    app.cancel_reply();
    assert_eq!(app.panes[0].reply_to_message, None);
    assert_eq!(app.panes[0].reply_preview, None);
    assert_eq!(app.panes[0].msg_data.len(), 1);
}
