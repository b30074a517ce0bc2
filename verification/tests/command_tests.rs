use telegram_client_rs::aliases::Aliases;
use telegram_client_rs::app::{App, ChatInfo};
use telegram_client_rs::command_handler::{CommandHandler, CommandRequest};
use telegram_client_rs::message::{FilterType, MessageData};
use telegram_client_rs::persistence::{AppSettings, AppState, LayoutData};

fn app_with_chat() -> App {
    let mut app = App::new(
        100,
        vec![ChatInfo {
            id: 1,
            name: "Alice".to_string(),
            username: None,
            unread: 0,
            is_channel: false,
            is_group: false,
        }],
        AppState {
            settings: AppSettings::default(),
            aliases: Aliases::new(),
            layout: LayoutData::default(),
        },
    );
    let first = MessageData::received(
        41,
        7,
        "Alice".to_string(),
        "first line\nsecond".to_string(),
        None,
        None,
        Vec::new(),
        100,
        0,
    );
    app.open_chat_in_pane(0, 1, "Alice", vec![first]);
    app
}

fn status(app: &App) -> String {
    app.status_message.clone().unwrap_or_default()
}

fn last_line(app: &App) -> String {
    app.panes[0].messages.last().cloned().unwrap_or_default()
}

#[test]
fn text_that_is_no_known_command_is_not_handled() {
    let mut app = app_with_chat();
    assert_eq!(CommandHandler::handle(&mut app, "hello", 0), (false, CommandRequest::Nothing));
    assert_eq!(CommandHandler::handle(&mut app, "/bogus 1", 0), (false, CommandRequest::Nothing));
    assert!(app.status_message.is_none());
}

#[test]
fn reply_with_text_asks_for_the_answer_to_be_sent() {
    let mut app = app_with_chat();
    assert_eq!(
        CommandHandler::handle(&mut app, "/reply #3 hello  there", 0),
        (
            true,
            CommandRequest::Reply {
                pane_idx: 0,
                chat_id: 1,
                msg_num: 3,
                text: "hello there".to_string(),
            }
        )
    );
    CommandHandler::reply_done(&mut app, 0, 3, None);
    assert_eq!(last_line(&app), "✓ Replied to #3");
    CommandHandler::reply_done(&mut app, 0, 3, Some("offline"));
    assert_eq!(last_line(&app), "✗ Reply failed: offline");
}

#[test]
fn reply_with_a_number_alone_begins_an_answer() {
    let mut app = app_with_chat();
    assert_eq!(CommandHandler::handle(&mut app, "/r 1", 0), (true, CommandRequest::Nothing));
    assert_eq!(app.panes[0].reply_to_message, Some(41));
    assert_eq!(app.panes[0].reply_preview, Some("Reply to #1: first line".to_string()));
    assert_eq!(status(&app), "Replying to message #1. Type your reply.");
    CommandHandler::handle(&mut app, "/reply 2", 0);
    assert_eq!(last_line(&app), "✗ Message #2 not found");
    CommandHandler::handle(&mut app, "/reply 0", 0);
    assert_eq!(last_line(&app), "✗ Message #0 not found");
    CommandHandler::handle(&mut app, "/reply -2147483648", 0);
    assert_eq!(last_line(&app), "✗ Message #-2147483648 not found");
}

#[test]
fn reply_without_a_number_tells_how_it_is_used() {
    let mut app = app_with_chat();
    assert_eq!(CommandHandler::handle(&mut app, "/reply", 0), (true, CommandRequest::Nothing));
    assert_eq!(status(&app), "Usage: /reply N [text]");
    app.clear_status();
    CommandHandler::handle(&mut app, "/reply x", 0);
    assert_eq!(status(&app), "Usage: /reply N [text]");
}

#[test]
fn media_edit_and_delete_ask_for_the_work() {
    let mut app = app_with_chat();
    assert_eq!(
        CommandHandler::handle(&mut app, "/m 1", 0),
        (true, CommandRequest::Media { pane_idx: 0, chat_id: 1, msg_num: 1 })
    );
    assert_eq!(status(&app), "Downloading media from #1...");
    assert_eq!(
        CommandHandler::handle(&mut app, "/edit 1 new text", 0),
        (
            true,
            CommandRequest::Edit {
                pane_idx: 0,
                chat_id: 1,
                msg_num: 1,
                text: "new text".to_string(),
            }
        )
    );
    assert_eq!(
        CommandHandler::handle(&mut app, "/del 1", 0),
        (true, CommandRequest::Delete { pane_idx: 0, chat_id: 1, msg_num: 1 })
    );
    CommandHandler::handle(&mut app, "/media", 0);
    assert_eq!(status(&app), "Usage: /media N or /m N");
    CommandHandler::handle(&mut app, "/media x", 0);
    assert_eq!(status(&app), "Usage: /media N");
    CommandHandler::handle(&mut app, "/edit 1", 0);
    assert_eq!(status(&app), "Usage: /edit N new_text");
    CommandHandler::handle(&mut app, "/delete", 0);
    assert_eq!(status(&app), "Usage: /delete N");
    assert_eq!(CommandHandler::handle(&mut app, "/m 1", 5), (true, CommandRequest::Nothing));
}

#[test]
fn outcomes_of_media_edit_and_delete_are_told() {
    let mut app = app_with_chat();
    CommandHandler::media_fetched(&mut app, 0, "/tmp/a.jpg", "a.jpg");
    assert_eq!(last_line(&app), "✓ Downloaded to /tmp/a.jpg");
    assert_eq!(status(&app), "Opened: a.jpg");
    CommandHandler::media_failed(&mut app, 0, "no media");
    assert_eq!(last_line(&app), "✗ Download failed: no media");
    assert_eq!(status(&app), "Download failed: no media");
    CommandHandler::edit_done(&mut app, 0, 4, None);
    assert_eq!(last_line(&app), "✓ Edited message #4");
    assert_eq!(status(&app), "Message edited");
    CommandHandler::edit_done(&mut app, 0, 4, Some("denied"));
    assert_eq!(last_line(&app), "✗ Edit failed: denied");
    assert_eq!(status(&app), "Edit failed: denied");
    CommandHandler::delete_done(&mut app, 0, 4, None);
    assert_eq!(last_line(&app), "✓ Deleted message #4");
    assert_eq!(status(&app), "Message deleted");
    CommandHandler::delete_done(&mut app, 0, 4, Some("denied"));
    assert_eq!(last_line(&app), "✗ Delete failed: denied");
    assert_eq!(status(&app), "Delete failed: denied");
}

#[test]
fn aliases_are_set_and_taken_away() {
    let mut app = app_with_chat();
    assert_eq!(
        CommandHandler::handle(&mut app, "/alias 1 Big  Al", 0),
        (
            true,
            CommandRequest::Alias {
                pane_idx: 0,
                chat_id: 1,
                msg_num: 1,
                alias: "Big Al".to_string(),
            }
        )
    );
    let _ = app.pane_lines(0, 40);
    assert!(CommandHandler::alias_found(&mut app, 0, Some(7), "Big Al"));
    assert_eq!(app.aliases.get(7), Some(&"Big Al".to_string()));
    assert!(app.panes[0].format_cache.is_empty());
    assert_eq!(last_line(&app), "✓ Alias set: Big Al");
    assert_eq!(status(&app), "Alias set: Big Al");
    assert_eq!(app.pane_lines(0, 40)[0].text, "Big Al: 00:00");
    assert!(!CommandHandler::alias_found(&mut app, 0, None, "x"));
    assert_eq!(last_line(&app), "✗ Could not find message sender");
    assert_eq!(
        CommandHandler::handle(&mut app, "/unalias 1", 0),
        (true, CommandRequest::Unalias { pane_idx: 0, chat_id: 1, msg_num: 1 })
    );
    assert!(CommandHandler::unalias_found(&mut app, 0, Some(7)));
    assert_eq!(app.aliases.get(7), None);
    assert_eq!(last_line(&app), "✓ Alias removed");
    assert!(!CommandHandler::unalias_found(&mut app, 0, Some(7)));
    assert_eq!(last_line(&app), "✗ No alias found");
    assert_eq!(status(&app), "No alias set for this user");
    assert!(!CommandHandler::unalias_found(&mut app, 0, None));
    CommandHandler::handle(&mut app, "/alias 1", 0);
    assert_eq!(status(&app), "Usage: /alias N name");
    CommandHandler::handle(&mut app, "/unalias", 0);
    assert_eq!(status(&app), "Usage: /unalias N");
}

#[test]
fn filter_sets_shows_and_clears_the_filter() {
    let mut app = app_with_chat();
    CommandHandler::handle(&mut app, "/filter", 0);
    assert_eq!(
        status(&app),
        "Usage: /filter off | photo | video | audio | doc | link | <name>"
    );
    CommandHandler::handle(&mut app, "/filter PHOTOS", 0);
    assert_eq!(app.panes[0].filter_type, Some(FilterType::Media));
    assert_eq!(app.panes[0].filter_value, Some("photo".to_string()));
    assert_eq!(status(&app), "Filtering: photo only");
    CommandHandler::handle(&mut app, "/filter", 0);
    assert_eq!(status(&app), "Current filter: media=photo");
    CommandHandler::handle(&mut app, "/filter url", 0);
    assert_eq!(app.panes[0].filter_type, Some(FilterType::Link));
    assert_eq!(app.panes[0].filter_value, Some("link".to_string()));
    assert_eq!(status(&app), "Filtering: link only");
    CommandHandler::handle(&mut app, "/filter files", 0);
    assert_eq!(app.panes[0].filter_value, Some("document".to_string()));
    CommandHandler::handle(&mut app, "/filter Big Al", 0);
    assert_eq!(app.panes[0].filter_type, Some(FilterType::Sender));
    assert_eq!(app.panes[0].filter_value, Some("Big Al".to_string()));
    assert_eq!(status(&app), "Filtering: messages from 'Big Al'");
    CommandHandler::handle(&mut app, "/filter Off", 0);
    assert_eq!(app.panes[0].filter_type, None);
    assert_eq!(app.panes[0].filter_value, None);
    assert_eq!(status(&app), "Filter disabled");
}

#[test]
fn search_asks_and_shows_what_was_found() {
    let mut app = app_with_chat();
    assert_eq!(
        CommandHandler::handle(&mut app, "/s big  fish", 0),
        (
            true,
            CommandRequest::Search { pane_idx: 0, chat_id: 1, query: "big fish".to_string() }
        )
    );
    assert_eq!(status(&app), "Searching for 'big fish'...");
    let hit = MessageData::received(
        9, 7, "Alice".to_string(), "a big fish".to_string(), None, None, Vec::new(), 100, 0,
    );
    CommandHandler::search_done(&mut app, 0, "big fish", vec![hit.clone()]);
    assert_eq!(app.panes[0].chat_name, "Alice | Search: 'big fish' (1 results)");
    assert_eq!(app.panes[0].msg_data.len(), 1);
    assert_eq!(status(&app), "Found 1 results");
    CommandHandler::search_done(&mut app, 0, "cat", vec![hit.clone(), hit]);
    assert_eq!(app.panes[0].chat_name, "Alice | Search: 'cat' (2 results)");
    CommandHandler::search_done(&mut app, 0, "dog", Vec::new());
    assert_eq!(status(&app), "No results found");
    assert_eq!(app.panes[0].msg_data.len(), 2);
    CommandHandler::search_failed(&mut app, "timeout");
    assert_eq!(status(&app), "Search failed: timeout");
    CommandHandler::handle(&mut app, "/search", 0);
    assert_eq!(status(&app), "Usage: /search <query> or /s <query>");
    app.split_vertical();
    assert_eq!(CommandHandler::handle(&mut app, "/s x", 1), (true, CommandRequest::Nothing));
    assert_eq!(status(&app), "Select a chat first");
}

#[test]
fn commands_of_the_groups_tell_what_they_would_do() {
    let mut app = app_with_chat();
    CommandHandler::handle(&mut app, "/new @bob", 0);
    assert_eq!(last_line(&app), "Starting chat with @bob...");
    assert_eq!(status(&app), "Looking up @bob...");
    CommandHandler::handle(&mut app, "/new", 0);
    assert_eq!(status(&app), "Usage: /new @username");
    CommandHandler::handle(&mut app, "/newgroup Book  Club", 0);
    assert_eq!(last_line(&app), "Creating group: Book Club...");
    assert_eq!(status(&app), "Creating group 'Book Club'...");
    CommandHandler::handle(&mut app, "/newgroup", 0);
    assert_eq!(status(&app), "Usage: /newgroup <name>");
    CommandHandler::handle(&mut app, "/add @bob", 0);
    assert_eq!(last_line(&app), "Adding @bob to group...");
    assert_eq!(status(&app), "Adding @bob...");
    CommandHandler::handle(&mut app, "/add", 0);
    assert_eq!(status(&app), "Usage: /add @username");
    CommandHandler::handle(&mut app, "/kick @bob", 0);
    assert_eq!(last_line(&app), "Removing @bob from group...");
    assert_eq!(status(&app), "Removing @bob...");
    CommandHandler::handle(&mut app, "/remove", 0);
    assert_eq!(status(&app), "Usage: /kick @username or /remove @username");
    CommandHandler::handle(&mut app, "/members", 0);
    assert_eq!(last_line(&app), "Fetching group members...");
    assert_eq!(status(&app), "Loading members...");
    CommandHandler::handle(&mut app, "/fwd 1 @bob", 0);
    assert_eq!(last_line(&app), "Forwarding message #1 to @bob...");
    assert_eq!(status(&app), "Forwarding #1 to @bob...");
    CommandHandler::handle(&mut app, "/forward 1", 0);
    assert_eq!(status(&app), "Usage: /forward N @username or /fwd N @username");
    CommandHandler::handle(&mut app, "/f x @bob", 0);
    assert_eq!(status(&app), "Usage: /forward N @username");
    app.split_vertical();
    CommandHandler::handle(&mut app, "/members", 1);
    assert_eq!(status(&app), "Open a group chat first");
    CommandHandler::handle(&mut app, "/add @bob", 1);
    assert_eq!(status(&app), "Open a group chat first");
}
