//! The decisions of an interactive session: how each key press moves the
//! screen state and what the front end must carry out.
use vstd::prelude::*;
use crate::domain::{Decision, DecisionStatistics};
use crate::tui::{browse_action, confirm_action, handle_confirm_input, handle_key_event, KeyAction, KeyPress, ViewState};

verus! {

/// What the front end must do after a key press.
#[derive(Debug, Clone, Copy, PartialEq, Eq, Structural)]
pub enum Command {
    /// Nothing beyond showing the new screen.
    Stay,
    /// End the session.
    Exit,
    /// Record this decision for the current file, then call `after_decision`.
    Decide(Decision),
    /// Show the next file.
    Next,
    /// Show the previous file.
    Previous,
    /// Undo the last decision.
    Undo,
    /// Remember that the welcome screen was shown.
    WelcomeSeen,
}

/// Every file has a decision.
pub open spec fn all_processed(stats: DecisionStatistics) -> bool {
    stats.kept + stats.trashed >= stats.total_files
}

/// Whether every file has a decision.
pub fn is_all_files_processed(stats: &DecisionStatistics) -> (r: bool)
    ensures
        r == all_processed(*stats),
{
    (stats.kept as u128) + (stats.trashed as u128) >= stats.total_files as u128
}

/// The screen and command that follow a key press on screen `view`, given
/// the decision counts so far and whether trashing needs no confirmation
/// (dry run).
pub open spec fn key_step(view: ViewState, key: KeyPress, stats: DecisionStatistics, dry_run: bool) -> (ViewState, Command) {
    match view {
        ViewState::Help => {
            let a = browse_action(key);
            if a == KeyAction::Help || a == KeyAction::Quit || a == KeyAction::NoAction {
                (ViewState::Browsing, Command::Stay)
            } else {
                (ViewState::Help, Command::Stay)
            }
        },
        ViewState::Summary => (ViewState::Summary, Command::Exit),
        ViewState::ConfirmTrash => match confirm_action(key) {
            KeyAction::ConfirmTrash => (ViewState::ConfirmTrash, Command::Decide(Decision::Trash)),
            KeyAction::CancelTrash => (ViewState::Browsing, Command::Stay),
            _ => (ViewState::ConfirmTrash, Command::Stay),
        },
        ViewState::Welcome => (ViewState::Browsing, Command::WelcomeSeen),
        ViewState::Browsing => match browse_action(key) {
            KeyAction::Quit => if stats.kept > 0 || stats.trashed > 0 {
                (ViewState::Summary, Command::Stay)
            } else {
                (ViewState::Browsing, Command::Exit)
            },
            KeyAction::Keep => (ViewState::Browsing, Command::Decide(Decision::Keep)),
            KeyAction::Trash => if dry_run {
                (ViewState::Browsing, Command::Decide(Decision::Trash))
            } else {
                (ViewState::ConfirmTrash, Command::Stay)
            },
            KeyAction::Next => (ViewState::Browsing, Command::Next),
            KeyAction::Previous => (ViewState::Browsing, Command::Previous),
            KeyAction::Undo => (ViewState::Browsing, Command::Undo),
            KeyAction::Help => (ViewState::Help, Command::Stay),
            _ => (ViewState::Browsing, Command::Stay),
        },
    }
}

/// The screen and command that follow a key press.
pub fn on_key(view: ViewState, key: KeyPress, stats: &DecisionStatistics, dry_run: bool) -> (r: (ViewState, Command))
    ensures
        r == key_step(view, key, *stats, dry_run),
{
    match view {
        ViewState::Help => {
            let a = handle_key_event(key);
            match a {
                KeyAction::Help | KeyAction::Quit | KeyAction::NoAction => (ViewState::Browsing, Command::Stay),
                _ => (ViewState::Help, Command::Stay),
            }
        },
        ViewState::Summary => (ViewState::Summary, Command::Exit),
        ViewState::ConfirmTrash => match handle_confirm_input(key) {
            KeyAction::ConfirmTrash => (ViewState::ConfirmTrash, Command::Decide(Decision::Trash)),
            KeyAction::CancelTrash => (ViewState::Browsing, Command::Stay),
            _ => (ViewState::ConfirmTrash, Command::Stay),
        },
        ViewState::Welcome => (ViewState::Browsing, Command::WelcomeSeen),
        ViewState::Browsing => match handle_key_event(key) {
            KeyAction::Quit => {
                if stats.kept > 0 || stats.trashed > 0 {
                    (ViewState::Summary, Command::Stay)
                } else {
                    (ViewState::Browsing, Command::Exit)
                }
            },
            KeyAction::Keep => (ViewState::Browsing, Command::Decide(Decision::Keep)),
            KeyAction::Trash => {
                if dry_run {
                    (ViewState::Browsing, Command::Decide(Decision::Trash))
                } else {
                    (ViewState::ConfirmTrash, Command::Stay)
                }
            },
            KeyAction::Next => (ViewState::Browsing, Command::Next),
            KeyAction::Previous => (ViewState::Browsing, Command::Previous),
            KeyAction::Undo => (ViewState::Browsing, Command::Undo),
            KeyAction::Help => (ViewState::Help, Command::Stay),
            _ => (ViewState::Browsing, Command::Stay),
        },
    }
}

/// The screen after a decision was attempted: the summary once it was
/// recorded and every file has one, else browsing.
pub fn after_decision(recorded: bool, stats: &DecisionStatistics) -> (r: ViewState)
    ensures
        r == if recorded && all_processed(*stats) {
            ViewState::Summary
        } else {
            ViewState::Browsing
        },
{
    if recorded && is_all_files_processed(stats) {
        ViewState::Summary
    } else {
        ViewState::Browsing
    }
}

} // verus!
