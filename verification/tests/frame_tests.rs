use telegram_client_rs::aliases::Aliases;
use telegram_client_rs::app::{App, ChatInfo};
use telegram_client_rs::frame::{
    choose_pane_parts, choose_parts, columns_of_list, main_part, rows_of_frame, FrameParts, Span,
};
use telegram_client_rs::geometry::Rect;
use telegram_client_rs::message::MessageData;
use telegram_client_rs::persistence::{AppSettings, AppState, LayoutData};

fn rect(x: u16, y: u16, width: u16, height: u16) -> Rect {
    Rect { x, y, width, height }
}

fn group_app() -> App {
    let chats = vec![
        ChatInfo {
            id: 1,
            name: "Alice".to_string(),
            username: None,
            unread: 0,
            is_channel: false,
            is_group: false,
        },
        ChatInfo {
            id: 2,
            name: "Team".to_string(),
            username: None,
            unread: 0,
            is_channel: false,
            is_group: true,
        },
    ];
    App::new(
        100,
        chats,
        AppState {
            settings: AppSettings::default(),
            aliases: Aliases::new(),
            layout: LayoutData::default(),
        },
    )
}

fn from(sender_id: i64, text: &str) -> MessageData {
    MessageData::received(1, sender_id, "x".to_string(), text.to_string(), None, None, Vec::new(), 100, 0)
}

#[test]
fn the_frame_is_cut_into_list_panes_and_status_bar() {
    let mut app = group_app();
    let frame = rect(0, 0, 100, 40);
    let parts = app.arrange_frame(frame);
    assert_eq!(
        parts,
        FrameParts { chat_list: Some(rect(0, 0, 20, 40)), panes: rect(20, 0, 80, 40), status: None }
    );
    assert_eq!(app.chat_list_area, Some(rect(0, 0, 20, 40)));
    assert_eq!(app.pane_areas.get(0), Some(rect(20, 0, 80, 40)));
    app.notify("note");
    let parts = app.arrange_frame(frame);
    assert_eq!(
        parts,
        FrameParts {
            chat_list: Some(rect(0, 0, 20, 39)),
            panes: rect(20, 0, 80, 39),
            status: Some(rect(0, 39, 100, 1)),
        }
    );
    app.clear_status();
    app.toggle_chat_list();
    app.clear_status();
    let parts = app.arrange_frame(frame);
    assert_eq!(parts, FrameParts { chat_list: None, panes: frame, status: None });
    assert_eq!(app.chat_list_area, None);
    assert_eq!(app.pane_areas.get(0), Some(frame));
    app.split_vertical();
    let parts = app.arrange_frame(frame);
    assert_eq!(parts.panes, frame);
    assert_eq!(app.pane_areas.get(0), Some(rect(0, 0, 50, 40)));
    assert_eq!(app.pane_areas.get(1), Some(rect(50, 0, 50, 40)));
}

#[test]
fn the_parts_are_told_from_whatever_rows_and_columns_there_are() {
    let frame = rect(0, 0, 10, 10);
    let rows = vec![rect(0, 0, 10, 9), rect(0, 9, 10, 1)];
    let columns = vec![rect(0, 0, 2, 9), rect(2, 0, 8, 9)];
    assert_eq!(main_part(frame, &rows), rows[0]);
    assert_eq!(main_part(frame, &Vec::new()), frame);
    assert_eq!(
        choose_parts(rows[0], &rows, &columns, true, true),
        FrameParts { chat_list: Some(columns[0]), panes: columns[1], status: Some(rows[1]) }
    );
    assert_eq!(
        choose_parts(rows[0], &rows, &columns, false, false),
        FrameParts { chat_list: None, panes: rows[0], status: None }
    );
    assert_eq!(
        choose_parts(frame, &Vec::new(), &vec![columns[0]], true, true),
        FrameParts { chat_list: None, panes: frame, status: None }
    );
    assert_eq!(rows_of_frame(false), vec![Span::Min(0)]);
    assert_eq!(rows_of_frame(true), vec![Span::Min(0), Span::Length(1)]);
    assert_eq!(columns_of_list(), vec![Span::Percentage(20), Span::Percentage(80)]);
    let parts = choose_pane_parts(frame, &rows, false);
    assert_eq!(parts.header, rows[0]);
    assert_eq!(parts.messages, rows[1]);
    assert_eq!(parts.reply, None);
    assert_eq!(parts.input, rect(0, 0, 0, 0));
    let parts = choose_pane_parts(frame, &rows, true);
    assert_eq!(parts.reply, Some(rect(0, 0, 0, 0)));
}

#[test]
fn a_pane_is_cut_into_heading_messages_and_input() {
    let mut app = group_app();
    let area = rect(20, 0, 80, 40);
    assert_eq!(
        app.pane_spans(0, 80),
        vec![Span::Length(3), Span::Min(0), Span::Length(4)]
    );
    let parts = app.pane_parts(0, area);
    assert_eq!(parts.header, rect(20, 0, 80, 3));
    assert_eq!(parts.messages, rect(20, 3, 80, 33));
    assert_eq!(parts.reply, None);
    assert_eq!(parts.input, rect(20, 36, 80, 4));
    for c in "0123456789".chars() {
        app.handle_char(c);
    }
    assert_eq!(app.pane_spans(0, 7), vec![Span::Length(3), Span::Min(0), Span::Length(6)]);
    app.panes[0].show_reply_preview("Reply to #1: hi".to_string());
    assert_eq!(
        app.pane_spans(0, 80),
        vec![Span::Length(3), Span::Min(0), Span::Length(1), Span::Length(4)]
    );
    let parts = app.pane_parts(0, area);
    assert_eq!(parts.messages, rect(20, 3, 80, 32));
    assert_eq!(parts.reply, Some(rect(20, 35, 80, 1)));
    assert_eq!(parts.input, rect(20, 36, 80, 4));
    app.toggle_borders();
    assert_eq!(
        app.pane_spans(0, 80),
        vec![Span::Length(1), Span::Min(0), Span::Length(1), Span::Length(2)]
    );
    app.split_vertical();
    assert_eq!(app.pane_spans(0, 80), vec![Span::Length(1), Span::Min(0), Span::Length(1), Span::Length(2)]);
    assert_eq!(app.pane_spans(1, 0), vec![Span::Length(1), Span::Min(0), Span::Length(2)]);
}

#[test]
fn senders_in_groups_get_colours_once() {
    let mut app = group_app();
    app.split_vertical();
    app.open_chat_in_pane(0, 1, "Alice", vec![from(7, "private")]);
    app.open_chat_in_pane(1, 2, "Team", vec![from(8, "one"), from(-9, "two"), from(8, "three")]);
    assert_eq!(app.user_color(8), None);
    app.user_colors.insert(-9, 3);
    app.assign_user_colors();
    assert_eq!(app.user_color(7), None);
    assert_eq!(app.user_color(8), Some(telegram_client_rs::render::user_color_index(8)));
    assert_eq!(app.user_color(-9), Some(3));
    assert_eq!(app.user_colors.len(), 2);
    app.assign_user_colors();
    assert_eq!(app.user_colors.len(), 2);
}
