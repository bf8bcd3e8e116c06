use fswp::domain::{Decision, DecisionStatistics};
use fswp::session::{after_decision, is_all_files_processed, on_key, Command};
use fswp::tui::{KeyCode, KeyPress, ViewState, NO_MODIFIERS};

fn key(c: char) -> KeyPress {
    KeyPress { code: KeyCode::Char(c), modifiers: NO_MODIFIERS }
}

fn stats(total: usize, kept: usize, trashed: usize) -> DecisionStatistics {
    DecisionStatistics { total_files: total, kept, trashed }
}

#[test]
fn quit_without_decisions_exits() {
    assert_eq!(on_key(ViewState::Browsing, key('q'), &stats(3, 0, 0), false), (ViewState::Browsing, Command::Exit));
}

#[test]
fn quit_after_decisions_shows_summary_then_exits() {
    assert_eq!(on_key(ViewState::Browsing, key('q'), &stats(3, 1, 0), false), (ViewState::Summary, Command::Stay));
    assert_eq!(on_key(ViewState::Summary, key('x'), &stats(3, 1, 0), false), (ViewState::Summary, Command::Exit));
}

#[test]
fn trash_asks_for_confirmation_unless_dry_run() {
    let s = stats(2, 0, 0);
    assert_eq!(on_key(ViewState::Browsing, key('t'), &s, false), (ViewState::ConfirmTrash, Command::Stay));
    assert_eq!(on_key(ViewState::Browsing, key('t'), &s, true), (ViewState::Browsing, Command::Decide(Decision::Trash)));
    assert_eq!(on_key(ViewState::ConfirmTrash, key('y'), &s, false), (ViewState::ConfirmTrash, Command::Decide(Decision::Trash)));
    assert_eq!(on_key(ViewState::ConfirmTrash, key('n'), &s, false), (ViewState::Browsing, Command::Stay));
    assert_eq!(on_key(ViewState::ConfirmTrash, key('x'), &s, false), (ViewState::ConfirmTrash, Command::Stay));
}

#[test]
fn help_closes_on_help_quit_or_unbound_keys() {
    let s = stats(1, 0, 0);
    assert_eq!(on_key(ViewState::Browsing, key('?'), &s, false), (ViewState::Help, Command::Stay));
    assert_eq!(on_key(ViewState::Help, key('x'), &s, false), (ViewState::Browsing, Command::Stay));
    assert_eq!(on_key(ViewState::Help, key('k'), &s, false), (ViewState::Help, Command::Stay));
}

#[test]
fn welcome_goes_to_browsing_and_is_remembered() {
    assert_eq!(on_key(ViewState::Welcome, key('k'), &stats(1, 0, 0), false), (ViewState::Browsing, Command::WelcomeSeen));
}

#[test]
fn navigation_keep_and_undo_commands() {
    let s = stats(4, 0, 0);
    assert_eq!(on_key(ViewState::Browsing, key('k'), &s, false).1, Command::Decide(Decision::Keep));
    assert_eq!(on_key(ViewState::Browsing, key('j'), &s, false).1, Command::Next);
    assert_eq!(on_key(ViewState::Browsing, key('i'), &s, false).1, Command::Previous);
    assert_eq!(on_key(ViewState::Browsing, key('u'), &s, false).1, Command::Undo);
}

#[test]
fn summary_follows_the_last_decision() {
    assert!(is_all_files_processed(&stats(2, 1, 1)));
    assert!(!is_all_files_processed(&stats(3, 1, 1)));
    assert_eq!(after_decision(true, &stats(2, 1, 1)), ViewState::Summary);
    assert_eq!(after_decision(true, &stats(3, 1, 1)), ViewState::Browsing);
    assert_eq!(after_decision(false, &stats(2, 1, 1)), ViewState::Browsing);
}
