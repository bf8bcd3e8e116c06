use fswp::preview_content::PreviewContent;
use fswp::preview_worker::{
    reply_to_state, LoadStart, PollingCore, PreviewState, PreviewWorkerCore, ReplyOutcome, ReplyPoll,
    SwitchAction, CACHE_SIZE,
};

fn text(s: &str) -> PreviewContent {
    PreviewContent::Text(vec![s.to_string()])
}

fn lines_of(s: &PreviewState) -> Option<Vec<String>> {
    match s {
        PreviewState::Ready(PreviewContent::Text(l)) => Some(l.clone()),
        _ => None,
    }
}

#[test]
fn worker_starts_empty_with_the_standard_size() {
    let w = PreviewWorkerCore::new();
    assert_eq!(w.cache_size(), 0);
    assert_eq!(CACHE_SIZE, 10);
    assert!(w.in_flight().is_none());
}

#[test]
fn ready_reply_is_cached_and_served_without_generation() {
    let mut w = PreviewWorkerCore::new();
    let p = "/f.txt".to_string();
    assert!(matches!(w.start_load(&p), LoadStart::Generate));
    assert_eq!(w.in_flight(), Some(p.clone()));
    let reply = w.finish_load(&p, Ok(text("hello"))).unwrap();
    assert_eq!(lines_of(&reply), Some(vec!["hello".to_string()]));
    assert!(w.is_cached(&p));
    assert!(w.in_flight().is_none());
    match w.start_load(&p) {
        LoadStart::Cached(PreviewContent::Text(l)) => assert_eq!(l, vec!["hello".to_string()]),
        _ => panic!("expected a cache hit"),
    }
}

#[test]
fn cancelled_load_sends_nothing_and_caches_nothing() {
    let mut w = PreviewWorkerCore::new();
    let a = "/a.txt".to_string();
    assert!(matches!(w.start_load(&a), LoadStart::Generate));
    w.cancel(&a);
    assert!(w.finish_load(&a, Ok(text("late"))).is_none());
    assert!(!w.is_cached(&a));
    assert_eq!(w.cache_size(), 0);
}

#[test]
fn superseded_load_is_dropped() {
    let mut w = PreviewWorkerCore::new();
    let a = "/a.txt".to_string();
    let b = "/b.txt".to_string();
    assert!(matches!(w.start_load(&a), LoadStart::Generate));
    assert!(matches!(w.start_load(&b), LoadStart::Generate));
    assert!(w.finish_load(&a, Ok(text("a"))).is_none());
    assert!(w.finish_load(&b, Err("bad file".to_string())).is_some());
    assert!(!w.is_cached(&a));
    assert!(!w.is_cached(&b));
}

#[test]
fn cancel_of_another_path_keeps_the_load() {
    let mut w = PreviewWorkerCore::new();
    let a = "/a.txt".to_string();
    assert!(matches!(w.start_load(&a), LoadStart::Generate));
    w.cancel(&"/other".to_string());
    match w.finish_load(&a, Err("unreadable".to_string())) {
        Some(PreviewState::Error(m)) => assert_eq!(m, "unreadable"),
        _ => panic!("expected an error reply"),
    }
}

#[test]
fn clear_cache_empties_it() {
    let mut w = PreviewWorkerCore::with_capacity(2);
    let a = "/a".to_string();
    w.start_load(&a);
    w.finish_load(&a, Ok(text("x")));
    assert_eq!(w.cache_size(), 1);
    assert!(w.get_cached(&a).is_some());
    w.clear_cache();
    assert_eq!(w.cache_size(), 0);
    assert!(w.get_cached(&a).is_none());
}

#[test]
fn reply_outcomes_become_states() {
    assert!(matches!(reply_to_state(ReplyOutcome::Arrived(PreviewState::Loading)), PreviewState::Loading));
    match reply_to_state(ReplyOutcome::TimedOut) {
        PreviewState::Error(m) => assert_eq!(m, "Preview timed out"),
        _ => panic!(),
    }
    match reply_to_state(ReplyOutcome::Closed) {
        PreviewState::Error(m) => assert_eq!(m, "Response channel closed"),
        _ => panic!(),
    }
    match reply_to_state(ReplyOutcome::LoaderGone) {
        PreviewState::Error(m) => assert_eq!(m, "Preview loader shut down"),
        _ => panic!(),
    }
}

#[test]
fn polling_dispatches_then_shows_the_reply() {
    let mut w = PreviewWorkerCore::new();
    let mut poll = PollingCore::new();
    let a = "/a".to_string();
    assert_eq!(poll.select_file(&a, &mut w), SwitchAction::Switched { cancel_previous: false, dispatch: true });
    assert!(matches!(poll.current_state(), PreviewState::Loading));
    assert_eq!(poll.select_file(&a, &mut w), SwitchAction::Unchanged);
    poll.observe_reply(ReplyPoll::Pending, &mut w);
    assert!(poll.is_awaiting());
    poll.observe_reply(ReplyPoll::Arrived(PreviewState::Ready(text("A"))), &mut w);
    assert_eq!(lines_of(poll.current_state()), Some(vec!["A".to_string()]));
    assert!(!poll.is_awaiting());
}

#[test]
fn polling_uses_the_cache_on_switch_and_while_waiting() {
    let mut w = PreviewWorkerCore::new();
    let mut poll = PollingCore::new();
    let a = "/a".to_string();
    let b = "/b".to_string();
    w.start_load(&a);
    w.finish_load(&a, Ok(text("cached A")));
    assert_eq!(poll.select_file(&a, &mut w), SwitchAction::Switched { cancel_previous: false, dispatch: false });
    assert_eq!(lines_of(poll.current_state()), Some(vec!["cached A".to_string()]));
    assert_eq!(poll.select_file(&b, &mut w), SwitchAction::Switched { cancel_previous: true, dispatch: true });
    w.start_load(&b);
    w.finish_load(&b, Ok(text("B")));
    poll.observe_reply(ReplyPoll::Pending, &mut w);
    assert_eq!(lines_of(poll.current_state()), Some(vec!["B".to_string()]));
}

#[test]
fn polling_closed_channel_without_cache_is_an_error() {
    let mut w = PreviewWorkerCore::new();
    let mut poll = PollingCore::new();
    let a = "/a".to_string();
    poll.select_file(&a, &mut w);
    poll.observe_reply(ReplyPoll::Closed, &mut w);
    match poll.current_state() {
        PreviewState::Error(m) => assert_eq!(m, "Preview channel closed"),
        _ => panic!("expected an error"),
    }
    assert!(poll.reset());
    assert!(!poll.reset());
    assert!(matches!(poll.current_state(), PreviewState::Loading));
}
