//! The interactive viewer's state: a read-only browser over the annotated
//! secret list with a quit-confirmation prompt.
//!
//! Rendering and reading the terminal are the embedding program's
//! business. The library holds the state — selection, list or detail
//! view, status message, confirmation dialog — and `handle_key` decides,
//! for each key, the next state and whether the session ends; the
//! embedding loop only draws the state and feeds keys in.

use vstd::prelude::*;
use vstd::string::StringExecFns;

verus! {

/// Which screen the viewer shows.
#[derive(Clone, Copy, PartialEq, Eq, Structural, Debug)]
pub enum AppState {
    ListView,
    DetailsView,
}

/// Which way a selection moves.
#[derive(Clone, Copy, PartialEq, Eq, Structural, Debug)]
pub enum NavDirection {
    Up,
    Down,
}

/// A key press, reduced to what the viewer reacts to.
#[derive(Clone, Copy, PartialEq, Eq, Structural, Debug)]
pub enum KeyPress {
    Up,
    Down,
    Enter,
    Char(char),
    Other,
}

/// When a message set at `now_ms` for `duration_ms` expires; the clock is
/// in milliseconds and the expiry saturates.
pub open spec fn spec_expiry(now_ms: u64, duration_ms: u64) -> u64 {
    if now_ms + duration_ms > u64::MAX {
        u64::MAX
    } else {
        (now_ms + duration_ms) as u64
    }
}

/// A transient message shown under the list, with an optional expiry.
pub struct StatusMessage {
    pub content: String,
    pub expiry_at_ms: Option<u64>,
}

/// Spec-level image of a `StatusMessage`.
pub ghost struct StatusMessageView {
    pub content: Seq<char>,
    pub expiry_at_ms: Option<u64>,
}

impl View for StatusMessage {
    type V = StatusMessageView;

    open spec fn view(&self) -> StatusMessageView {
        StatusMessageView { content: self.content@, expiry_at_ms: self.expiry_at_ms }
    }
}

impl StatusMessage {
    /// A message set at `now_ms`, expiring after `duration_ms` if a
    /// duration is given, never otherwise.
    pub fn new(content: String, now_ms: u64, duration_ms: Option<u64>) -> (m: Self)
        ensures
            m@.content == content@,
            m@.expiry_at_ms == match duration_ms {
                Some(duration) => Some(spec_expiry(now_ms, duration)),
                None => None::<u64>,
            },
    {
        let expiry_at_ms = match duration_ms {
            Some(duration) => Some(
                if now_ms > u64::MAX - duration {
                    u64::MAX
                } else {
                    now_ms + duration
                },
            ),
            None => None,
        };
        StatusMessage { content, expiry_at_ms }
    }

    /// Whether the message has expired at `now_ms`; a message without an
    /// expiry never expires.
    pub fn is_expired(&self, now_ms: u64) -> (expired: bool)
        ensures
            expired == match self@.expiry_at_ms {
                Some(expiry) => now_ms > expiry,
                None => false,
            },
    {
        match self.expiry_at_ms {
            Some(expiry) => now_ms > expiry,
            None => false,
        }
    }
}

/// The quit-confirmation prompt: a message and the labels of its two
/// answers.
pub struct ConfirmationDialog {
    pub message: String,
    pub yes_text: String,
    pub no_text: String,
}

/// Spec-level image of a `ConfirmationDialog`.
pub ghost struct ConfirmationDialogView {
    pub message: Seq<char>,
    pub yes_text: Seq<char>,
    pub no_text: Seq<char>,
}

impl View for ConfirmationDialog {
    type V = ConfirmationDialogView;

    open spec fn view(&self) -> ConfirmationDialogView {
        ConfirmationDialogView {
            message: self.message@,
            yes_text: self.yes_text@,
            no_text: self.no_text@,
        }
    }
}

impl ConfirmationDialog {
    pub fn new(message: String, yes_text: String, no_text: String) -> (d: Self)
        ensures
            d@.message == message@,
            d@.yes_text == yes_text@,
            d@.no_text == no_text@,
    {
        ConfirmationDialog { message, yes_text, no_text }
    }
}

/// The viewer's whole state between two key presses.
pub struct ViewerState {
    pub secrets_len: usize,
    pub selected_index: usize,
    pub app_state: AppState,
    pub status_message: Option<StatusMessage>,
    pub confirmation_dialog: Option<ConfirmationDialog>,
}

/// Spec-level image of a `ViewerState`.
pub ghost struct ViewerStateView {
    pub secrets_len: usize,
    pub selected_index: usize,
    pub app_state: AppState,
    pub status_message: Option<StatusMessageView>,
    pub confirmation_dialog: Option<ConfirmationDialogView>,
}

impl View for ViewerState {
    type V = ViewerStateView;

    open spec fn view(&self) -> ViewerStateView {
        ViewerStateView {
            secrets_len: self.secrets_len,
            selected_index: self.selected_index,
            app_state: self.app_state,
            status_message: match &self.status_message {
                Some(m) => Some(m@),
                None => None,
            },
            confirmation_dialog: match &self.confirmation_dialog {
                Some(d) => Some(d@),
                None => None,
            },
        }
    }
}

/// Where a selection moves: up stops at the first entry, down at the
/// last.
pub open spec fn spec_move(s: ViewerStateView, direction: NavDirection) -> ViewerStateView {
    match direction {
        NavDirection::Up => ViewerStateView {
            selected_index: if s.selected_index > 0 {
                (s.selected_index - 1) as usize
            } else {
                0
            },
            ..s
        },
        NavDirection::Down => ViewerStateView {
            selected_index: if s.selected_index + 1 < s.secrets_len {
                (s.selected_index + 1) as usize
            } else {
                s.selected_index
            },
            ..s
        },
    }
}

/// The toggled screen, with the transient notice that comes with it.
pub open spec fn spec_toggle(s: ViewerStateView, now_ms: u64) -> ViewerStateView {
    ViewerStateView {
        app_state: match s.app_state {
            AppState::ListView => AppState::DetailsView,
            AppState::DetailsView => AppState::ListView,
        },
        status_message: Some(
            StatusMessageView {
                content: "View toggled"@,
                expiry_at_ms: Some(spec_expiry(now_ms, 3000)),
            },
        ),
        ..s
    }
}

/// The quit-confirmation prompt the viewer shows.
pub open spec fn spec_quit_dialog() -> ConfirmationDialogView {
    ConfirmationDialogView {
        message: "Are you sure you want to quit?"@,
        yes_text: "Yes"@,
        no_text: "No"@,
    }
}

/// What one key press does: on the list screen the arrows move the
/// selection, enter opens the details and `q` asks to quit; on the
/// details screen enter goes back and `q` asks to quit; while the prompt
/// is up, `y` ends the session and `n` dismisses it.
pub open spec fn spec_handle_key(s: ViewerStateView, key: KeyPress, now_ms: u64) -> (
    ViewerStateView,
    bool,
) {
    let s1 = match s.app_state {
        AppState::ListView => match key {
            KeyPress::Char(c) => if c == 'q' {
                ViewerStateView { confirmation_dialog: Some(spec_quit_dialog()), ..s }
            } else {
                s
            },
            KeyPress::Up => spec_move(s, NavDirection::Up),
            KeyPress::Down => spec_move(s, NavDirection::Down),
            KeyPress::Enter => spec_toggle(s, now_ms),
            KeyPress::Other => s,
        },
        AppState::DetailsView => match key {
            KeyPress::Enter => spec_toggle(s, now_ms),
            KeyPress::Char(c) => if c == 'q' {
                ViewerStateView { confirmation_dialog: Some(spec_quit_dialog()), ..s }
            } else {
                s
            },
            _ => s,
        },
    };
    if s1.confirmation_dialog is Some {
        match key {
            KeyPress::Char(c) => if c == 'y' || c == 'Y' {
                (ViewerStateView { confirmation_dialog: None, ..s1 }, true)
            } else if c == 'n' || c == 'N' {
                (ViewerStateView { confirmation_dialog: None, ..s1 }, false)
            } else {
                (s1, false)
            },
            _ => (s1, false),
        }
    } else {
        (s1, false)
    }
}

/// An expired status message is dropped; anything else stays.
pub open spec fn spec_clear_expired(s: ViewerStateView, now_ms: u64) -> ViewerStateView {
    match s.status_message {
        Some(m) => match m.expiry_at_ms {
            Some(expiry) => if now_ms > expiry {
                ViewerStateView { status_message: None, ..s }
            } else {
                s
            },
            None => s,
        },
        None => s,
    }
}

impl ViewerState {
    /// The state a session starts in: the list screen, first entry
    /// selected, nothing transient shown.
    pub fn new(secrets_len: usize) -> (s: Self)
        ensures
            s@.secrets_len == secrets_len,
            s@.selected_index == 0,
            s@.app_state == AppState::ListView,
            s@.status_message is None,
            s@.confirmation_dialog is None,
    {
        ViewerState {
            secrets_len,
            selected_index: 0,
            app_state: AppState::ListView,
            status_message: None,
            confirmation_dialog: None,
        }
    }

    /// Moves the selection one entry, stopping at either end of the list.
    pub fn move_selection(&mut self, direction: NavDirection)
        ensures
            final(self)@ == spec_move(old(self)@, direction),
    {
        match direction {
            NavDirection::Up => {
                self.selected_index = if self.selected_index > 0 {
                    self.selected_index - 1
                } else {
                    0
                };
            },
            NavDirection::Down => {
                if self.selected_index < usize::MAX && self.selected_index + 1 < self.secrets_len {
                    self.selected_index = self.selected_index + 1;
                }
            },
        }
    }

    /// Switches between the list and the details screen, with a transient
    /// notice.
    pub fn toggle_view(&mut self, now_ms: u64)
        ensures
            final(self)@ == spec_toggle(old(self)@, now_ms),
    {
        self.app_state = match self.app_state {
            AppState::ListView => AppState::DetailsView,
            AppState::DetailsView => AppState::ListView,
        };
        self.set_status_message(String::from_str("View toggled"), now_ms, Some(3000));
    }

    /// Shows a transient message, replacing any previous one.
    pub fn set_status_message(&mut self, content: String, now_ms: u64, duration_ms: Option<u64>)
        ensures
            final(self)@ == (ViewerStateView {
                status_message: Some(
                    StatusMessageView {
                        content: content@,
                        expiry_at_ms: match duration_ms {
                            Some(duration) => Some(spec_expiry(now_ms, duration)),
                            None => None::<u64>,
                        },
                    },
                ),
                ..old(self)@
            }),
    {
        self.status_message = Some(StatusMessage::new(content, now_ms, duration_ms));
    }

    /// Drops the status message.
    pub fn clear_status_message(&mut self)
        ensures
            final(self)@ == (ViewerStateView { status_message: None, ..old(self)@ }),
    {
        self.status_message = None;
    }

    /// Drops the status message once it has expired.
    pub fn clear_expired_status_message(&mut self, now_ms: u64)
        ensures
            final(self)@ == spec_clear_expired(old(self)@, now_ms),
    {
        let expired = match &self.status_message {
            Some(message) => message.is_expired(now_ms),
            None => false,
        };
        if expired {
            self.status_message = None;
        }
    }

    /// Shows a confirmation prompt, replacing any previous one.
    pub fn show_confirmation_dialog(&mut self, message: String, yes_text: String, no_text: String)
        ensures
            final(self)@ == (ViewerStateView {
                confirmation_dialog: Some(
                    ConfirmationDialogView {
                        message: message@,
                        yes_text: yes_text@,
                        no_text: no_text@,
                    },
                ),
                ..old(self)@
            }),
    {
        self.confirmation_dialog = Some(ConfirmationDialog::new(message, yes_text, no_text));
    }

    /// Dismisses the confirmation prompt.
    pub fn hide_confirmation_dialog(&mut self)
        ensures
            final(self)@ == (ViewerStateView { confirmation_dialog: None, ..old(self)@ }),
    {
        self.confirmation_dialog = None;
    }

    /// Reacts to one key press and says whether the session ends; see
    /// `spec_handle_key` for what each key does on each screen.
    pub fn handle_key(&mut self, key: KeyPress, now_ms: u64) -> (quit: bool)
        ensures
            final(self)@ == spec_handle_key(old(self)@, key, now_ms).0,
            quit == spec_handle_key(old(self)@, key, now_ms).1,
    {
        match self.app_state {
            AppState::ListView => {
                match key {
                    KeyPress::Char(c) => {
                        if c == 'q' {
                            self.show_confirmation_dialog(
                                String::from_str("Are you sure you want to quit?"),
                                String::from_str("Yes"),
                                String::from_str("No"),
                            );
                        }
                    },
                    KeyPress::Up => self.move_selection(NavDirection::Up),
                    KeyPress::Down => self.move_selection(NavDirection::Down),
                    KeyPress::Enter => self.toggle_view(now_ms),
                    KeyPress::Other => {},
                }
            },
            AppState::DetailsView => {
                match key {
                    KeyPress::Enter => self.toggle_view(now_ms),
                    KeyPress::Char(c) => {
                        if c == 'q' {
                            self.show_confirmation_dialog(
                                String::from_str("Are you sure you want to quit?"),
                                String::from_str("Yes"),
                                String::from_str("No"),
                            );
                        }
                    },
                    _ => {},
                }
            },
        }
        if self.confirmation_dialog.is_some() {
            match key {
                KeyPress::Char(c) => {
                    if c == 'y' || c == 'Y' {
                        self.hide_confirmation_dialog();
                        return true;
                    } else if c == 'n' || c == 'N' {
                        self.hide_confirmation_dialog();
                    }
                },
                _ => {},
            }
        }
        false
    }
}

} // verus!
