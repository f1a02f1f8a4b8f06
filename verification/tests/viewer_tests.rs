use github_secrets_manager::tui::{
    AppState, ConfirmationDialog, KeyPress, NavDirection, StatusMessage, ViewerState,
};

#[test]
fn confirmation_dialog_new_keeps_its_texts() {
    let dialog = ConfirmationDialog::new(
        "Are you sure you want to quit?".to_string(),
        "Yes".to_string(),
        "No".to_string(),
    );
    assert_eq!(dialog.message, "Are you sure you want to quit?");
    assert_eq!(dialog.yes_text, "Yes");
    assert_eq!(dialog.no_text, "No");
}

#[test]
fn viewer_starts_on_the_list_screen() {
    let viewer = ViewerState::new(3);
    assert_eq!(viewer.app_state, AppState::ListView);
    assert_eq!(viewer.selected_index, 0);
    assert!(viewer.status_message.is_none());
    assert!(viewer.confirmation_dialog.is_none());
}

#[test]
fn move_selection_stops_at_both_ends() {
    let mut viewer = ViewerState::new(3);
    viewer.move_selection(NavDirection::Up);
    assert_eq!(viewer.selected_index, 0);
    viewer.move_selection(NavDirection::Down);
    viewer.move_selection(NavDirection::Down);
    assert_eq!(viewer.selected_index, 2);
    viewer.move_selection(NavDirection::Down);
    assert_eq!(viewer.selected_index, 2);
    viewer.move_selection(NavDirection::Up);
    assert_eq!(viewer.selected_index, 1);
}

#[test]
fn move_selection_on_an_empty_list_stays_put() {
    let mut viewer = ViewerState::new(0);
    viewer.move_selection(NavDirection::Down);
    assert_eq!(viewer.selected_index, 0);
    viewer.move_selection(NavDirection::Up);
    assert_eq!(viewer.selected_index, 0);
}

#[test]
fn quit_asks_for_confirmation_and_n_cancels() {
    let mut viewer = ViewerState::new(1);
    let quit = viewer.handle_key(KeyPress::Char('q'), 0);
    assert!(!quit);
    assert!(viewer.confirmation_dialog.is_some());

    let quit = viewer.handle_key(KeyPress::Char('n'), 0);
    assert!(!quit);
    assert!(viewer.confirmation_dialog.is_none());

    viewer.handle_key(KeyPress::Char('q'), 0);
    let quit = viewer.handle_key(KeyPress::Char('Y'), 0);
    assert!(quit);
    assert!(viewer.confirmation_dialog.is_none());
}

#[test]
fn enter_toggles_the_view_and_leaves_a_notice() {
    let mut viewer = ViewerState::new(1);
    let quit = viewer.handle_key(KeyPress::Enter, 1_000);
    assert!(!quit);
    assert_eq!(viewer.app_state, AppState::DetailsView);
    let message = viewer.status_message.as_ref().unwrap();
    assert_eq!(message.content, "View toggled");
    assert_eq!(message.expiry_at_ms, Some(4_000));

    let quit = viewer.handle_key(KeyPress::Enter, 2_000);
    assert!(!quit);
    assert_eq!(viewer.app_state, AppState::ListView);
}

#[test]
fn arrows_do_not_move_on_the_details_screen() {
    let mut viewer = ViewerState::new(3);
    viewer.handle_key(KeyPress::Enter, 0);
    assert_eq!(viewer.app_state, AppState::DetailsView);
    viewer.handle_key(KeyPress::Down, 0);
    assert_eq!(viewer.selected_index, 0);
}

#[test]
fn expired_status_messages_are_cleared() {
    let mut viewer = ViewerState::new(1);
    viewer.set_status_message("saved".to_string(), 1_000, Some(3_000));
    viewer.clear_expired_status_message(4_000);
    assert!(viewer.status_message.is_some());
    viewer.clear_expired_status_message(4_001);
    assert!(viewer.status_message.is_none());
}

#[test]
fn status_message_without_duration_never_expires() {
    let message = StatusMessage::new("stay".to_string(), 5, None);
    assert!(!message.is_expired(u64::MAX));
    assert_eq!(message.expiry_at_ms, None);
}

#[test]
fn status_message_expiry_saturates() {
    let message = StatusMessage::new("late".to_string(), u64::MAX - 1_000, Some(3_000));
    assert_eq!(message.expiry_at_ms, Some(u64::MAX));
    assert!(!message.is_expired(u64::MAX));
}

#[test]
fn clear_status_message_drops_the_notice() {
    let mut viewer = ViewerState::new(1);
    viewer.set_status_message("saved".to_string(), 0, None);
    assert!(viewer.status_message.is_some());
    viewer.clear_status_message();
    assert!(viewer.status_message.is_none());
}
