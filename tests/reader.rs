use posters::reader::{key_action, Key, KeyAction};
use posters::reader::{move_target, App, AppFocus, Email, EventType};

fn email(id: &str, subject: &str, selected: bool) -> Email {
    Email {
        folder: "INBOX".into(),
        internal_id: id.into(),
        date: 1_700_000_000,
        from_name: Some("Alice".into()),
        from_addr: "alice@localhost".into(),
        subject: subject.into(),
        body: None,
        selected,
    }
}

fn app_with(n: usize) -> App {
    let mut a = App::new();
    for i in 0..n {
        a.emails.push(email(&format!("id{i}"), &format!("S{i}"), false));
    }
    a
}

#[test]
fn new_app_is_on_inbox() {
    let a = App::new();
    assert_eq!("INBOX", a.current_folder);
    assert_eq!(AppFocus::EmailList, a.focus);
    assert!(a.emails.is_empty());
    assert!(a.open_email.is_none());
}

#[test]
fn list_navigation() {
    let mut a = app_with(25);
    a.next_email();
    assert_eq!(1, a.selected_email);
    a.prev_email();
    a.prev_email();
    assert_eq!(0, a.selected_email);
    a.next_email_page();
    assert_eq!(10, a.selected_email);
    a.next_email_page();
    a.next_email_page();
    assert_eq!(24, a.selected_email);
    a.next_email();
    assert_eq!(24, a.selected_email);
    a.prev_email_page();
    assert_eq!(14, a.selected_email);
    a.prev_email_page();
    a.prev_email_page();
    assert_eq!(0, a.selected_email);
    a.last_email();
    assert_eq!(24, a.selected_email);
    a.first_email();
    assert_eq!(0, a.selected_email);
    let mut empty = App::new();
    empty.next_email();
    empty.last_email();
    assert_eq!(0, empty.selected_email);
}

#[test]
fn marking_and_removing() {
    let mut a = app_with(4);
    a.selected_email = 1;
    a.toggle_selected();
    a.selected_email = 3;
    a.toggle_selected();
    assert_eq!(2, a.select_count());
    assert!(a.has_selection());
    let sel: Vec<String> = a.selected().iter().map(|e| e.internal_id.clone()).collect();
    assert_eq!(vec!["id1".to_string(), "id3".to_string()], sel);
    assert_eq!(vec!["id1".to_string(), "id3".to_string()], a.selected_ids());
    a.show_email(email("id0", "S0", false));
    a.remove_selected();
    let left: Vec<String> = a.emails.iter().map(|e| e.internal_id.clone()).collect();
    assert_eq!(vec!["id0".to_string(), "id2".to_string()], left);
    assert!(a.open_email.is_none());
    assert_eq!(AppFocus::EmailList, a.focus);
    assert!(!a.has_selection());
}

#[test]
fn removing_the_current_email() {
    let mut a = app_with(3);
    a.selected_email = 1;
    let cur = a.selected_email();
    assert_eq!("id1", cur.internal_id);
    a.remove_current_email();
    let left: Vec<String> = a.emails.iter().map(|e| e.internal_id.clone()).collect();
    assert_eq!(vec!["id0".to_string(), "id2".to_string()], left);
}

#[test]
fn focus_moves_only_with_an_open_email() {
    let mut a = app_with(2);
    a.focus_next();
    assert_eq!(AppFocus::EmailList, a.focus);
    a.show_email(email("id0", "S0", false));
    assert_eq!(AppFocus::EmailBody, a.focus);
    a.focus_next();
    assert_eq!(AppFocus::EmailList, a.focus);
    a.focus_next();
    assert_eq!(AppFocus::EmailBody, a.focus);
    a.close_email();
    assert_eq!(AppFocus::EmailList, a.focus);
    assert!(a.open_email.is_none());
}

fn with_body(lines: usize) -> App {
    let mut a = app_with(1);
    let mut e = email("id0", "S0", false);
    e.body = Some("<p>html</p>".to_string());
    a.max_width = 80;
    a.email_page_size = 3;
    a.show_email(e);
    let text: Vec<String> = (0..lines).map(|i| format!("line {i}")).collect();
    a.set_body_text(Some(text.join("\r\n")));
    a
}

#[test]
fn body_text_is_kept_and_counted() {
    let mut a = with_body(2);
    assert_eq!(Some("line 0\r\nline 1".to_string()), a.email_body());
    assert_eq!(Some(2), a.email_line_count());
    a.set_body_text(Some("a\n\nb\n".to_string()));
    assert_eq!(Some(3), a.email_line_count());
    a.set_body_text(Some(String::new()));
    assert_eq!(Some(0), a.email_line_count());
    a.show_email(email("id1", "S1", false));
    assert!(a.email_body().is_none());
    assert!(App::new().email_body().is_none());
    assert!(App::new().email_line_count().is_none());
    let mut b = with_body(2);
    b.close_email();
    assert!(b.email_body().is_none());
}

#[test]
fn server_results_update_the_state() {
    let mut a = app_with(3);
    a.apply_event(EventType::StartLoading, 1);
    a.emails_loaded(vec![email("x", "X", true), email("y", "Y", false)], 2);
    assert!(!a.loading);
    assert_eq!(Some(2), a.last_update);
    assert_eq!(2, a.emails.len());
    a.email_opened(email("y", "Y", false), Some("body".to_string()), 3);
    assert_eq!(AppFocus::EmailBody, a.focus);
    assert_eq!(Some(1), a.email_line_count());
    a.selected_email = 1;
    a.current_moved(4);
    assert_eq!(1, a.emails.len());
    assert!(a.open_email.is_none() && a.body_text.is_none());
    a.selected_moved(5);
    assert!(a.emails.is_empty());
    assert_eq!(Some(5), a.last_update);
}

#[test]
fn body_scrolling() {
    let mut a = with_body(6);
    let count = a.email_line_count().unwrap();
    a.next_line();
    assert_eq!(1, a.email_offset);
    a.prev_line();
    a.prev_line();
    assert_eq!(0, a.email_offset);
    a.next_body_page();
    assert_eq!(3.min(count), a.email_offset);
    a.next_body_page();
    a.next_body_page();
    a.next_body_page();
    a.next_body_page();
    assert_eq!(count, a.email_offset);
    a.prev_body_page();
    assert_eq!(count - 3, a.email_offset);
    a.last_line();
    assert_eq!(count - 3, a.email_offset);
    a.first_line();
    assert_eq!(0, a.email_offset);
}

#[test]
fn viewport_shows_a_page_and_one_line() {
    let mut a = with_body(6);
    let text = a.email_body().unwrap();
    let lines: Vec<&str> = text.lines().collect();
    assert_eq!(6, lines.len());
    let end = 4.min(lines.len());
    assert_eq!(lines[0..end].join("\n"), a.email_viewport().unwrap());
    a.email_offset = 1;
    let end = 5.min(lines.len());
    assert_eq!(lines[1..end].join("\n"), a.email_viewport().unwrap());
    a.email_offset = lines.len() + 5;
    assert_eq!("", a.email_viewport().unwrap());
}

#[test]
fn keys_follow_the_focus() {
    let mut a = with_body(6);
    a.emails = app_with(5).emails;
    a.down();
    assert_eq!(1, a.email_offset);
    assert_eq!(0, a.selected_email);
    a.close_email();
    a.down();
    assert_eq!(1, a.selected_email);
    a.end();
    assert_eq!(4, a.selected_email);
    a.home();
    assert_eq!(0, a.selected_email);
    a.page_down();
    assert_eq!(4, a.selected_email);
    a.page_up();
    assert_eq!(0, a.selected_email);
    a.up();
    assert_eq!(0, a.selected_email);
}

#[test]
fn events_change_state_and_stamp_it() {
    let mut a = app_with(3);
    a.apply_event(EventType::StartLoading, 7);
    assert!(a.loading);
    assert_eq!(Some(7), a.last_update);
    a.apply_event(EventType::Down, 8);
    assert_eq!(1, a.selected_email);
    a.apply_event(EventType::Select, 9);
    assert!(a.emails[1].selected);
    a.apply_event(EventType::SetMaxWidth(100), 10);
    a.apply_event(EventType::SetEmailPageSize(20), 11);
    assert_eq!(100, a.max_width);
    assert_eq!(20, a.email_page_size);
    a.apply_event(EventType::LoadEmails, 12);
    assert_eq!(Some(12), a.last_update);
    a.apply_event(EventType::FinishLoading, 13);
    assert!(!a.loading);
    let mut b = app_with(1);
    b.update(99);
    assert_eq!(Some(99), b.last_update);
}

#[test]
fn move_targets() {
    assert_eq!(Some("Junk Email".to_string()), move_target(EventType::MoveToSpam));
    assert_eq!(Some("Junk Email".to_string()), move_target(EventType::MoveSelectedToSpam));
    assert_eq!(Some("Archive".to_string()), move_target(EventType::Archive));
    assert_eq!(Some("Archive".to_string()), move_target(EventType::ArchiveSelected));
    assert_eq!(None, move_target(EventType::Up));
}

#[test]
fn email_toggle() {
    let mut e = email("x", "y", false);
    e.toggle_select();
    assert!(e.selected);
    assert_eq!(e, e.duplicate());
}

#[test]
fn keys_map_to_events() {
    assert_eq!(KeyAction::Quit, key_action(Key::Char('q'), AppFocus::EmailList));
    assert_eq!(KeyAction::DumpEmails, key_action(Key::Char('d'), AppFocus::EmailList));
    assert_eq!(
        KeyAction::Send(vec![EventType::StartLoading, EventType::Archive, EventType::FinishLoading]),
        key_action(Key::Char('e'), AppFocus::EmailList)
    );
    assert_eq!(KeyAction::Send(vec![EventType::Up]), key_action(Key::Char('k'), AppFocus::EmailBody));
    assert_eq!(KeyAction::Send(vec![EventType::CloseEmail]), key_action(Key::Esc, AppFocus::EmailList));
    assert_eq!(KeyAction::Send(vec![EventType::FocusNext]), key_action(Key::Esc, AppFocus::EmailBody));
    assert_eq!(KeyAction::Send(vec![]), key_action(Key::Char('z'), AppFocus::EmailList));
}
