use quickpreview::event::{KeyAction, KeyCode, KeyEvent};
use quickpreview::navigation::{handle_event, open_preview, run, NavAction, TerminationReason};
use quickpreview::previewer::{PreviewError, ScriptedPreviewer};
use quickpreview::session::PreviewSession;

fn files(names: &[&str]) -> Vec<String> {
    names.iter().map(|s| s.to_string()).collect()
}

fn press(code: KeyCode) -> KeyEvent {
    KeyEvent { code, action: KeyAction::Press }
}

fn release(code: KeyCode) -> KeyEvent {
    KeyEvent { code, action: KeyAction::Release }
}

fn shown_paths(p: &ScriptedPreviewer) -> Vec<String> {
    p.calls().iter().map(|c| c.0.clone()).collect()
}

#[test]
fn scenario_right_right_left_escape() {
    let mut s = PreviewSession::new(files(&["a", "b", "c"]), false).unwrap();
    let events = vec![
        press(KeyCode::ArrowRight),
        press(KeyCode::ArrowRight),
        press(KeyCode::ArrowLeft),
        press(KeyCode::Escape),
    ];
    let mut p = ScriptedPreviewer::new(Vec::new());
    let report = run(&mut s, &events, &mut p);
    assert_eq!(shown_paths(&p), vec!["a", "b", "c", "b"]);
    assert_eq!(report.reason, TerminationReason::UserQuit);
    assert_eq!(report.consumed, 4);
    assert!(report.failed_shows.is_empty());
    assert_eq!(s.current_index(), 1);
}

#[test]
fn initial_show_happens_before_any_event() {
    let mut s = PreviewSession::new(files(&["a", "b"]), true).unwrap();
    let events: Vec<KeyEvent> = Vec::new();
    let mut p = ScriptedPreviewer::new(Vec::new());
    let report = run(&mut s, &events, &mut p);
    assert_eq!(shown_paths(&p), vec!["a"]);
    assert_eq!(p.calls()[0].1, true);
    assert_eq!(report.reason, TerminationReason::SourceClosed);
    assert_eq!(report.consumed, 0);
}

#[test]
fn ignored_events_cause_no_show() {
    let mut s = PreviewSession::new(files(&["a", "b"]), false).unwrap();
    let events = vec![
        release(KeyCode::ArrowRight),
        press(KeyCode::Other),
        release(KeyCode::Escape),
    ];
    let mut p = ScriptedPreviewer::new(Vec::new());
    let report = run(&mut s, &events, &mut p);
    assert_eq!(shown_paths(&p), vec!["a"]);
    assert_eq!(report.reason, TerminationReason::SourceClosed);
    assert_eq!(report.consumed, 3);
    assert_eq!(s.current_index(), 0);
}

#[test]
fn quit_key_stops_without_consuming_further_events() {
    let mut s = PreviewSession::new(files(&["a", "b", "c"]), false).unwrap();
    let events = vec![
        press(KeyCode::KeyQ),
        press(KeyCode::ArrowRight),
        press(KeyCode::ArrowRight),
    ];
    let mut p = ScriptedPreviewer::new(Vec::new());
    let report = run(&mut s, &events, &mut p);
    assert_eq!(report.reason, TerminationReason::UserQuit);
    assert_eq!(report.consumed, 1);
    assert_eq!(shown_paths(&p), vec!["a"]);
    assert_eq!(s.current_index(), 0);
}

#[test]
fn down_and_up_keys_navigate_too() {
    let mut s = PreviewSession::new(files(&["a", "b", "c"]), false).unwrap();
    let events = vec![press(KeyCode::ArrowDown), press(KeyCode::ArrowUp)];
    let mut p = ScriptedPreviewer::new(Vec::new());
    let report = run(&mut s, &events, &mut p);
    assert_eq!(shown_paths(&p), vec!["a", "b", "a"]);
    assert_eq!(report.reason, TerminationReason::SourceClosed);
}

#[test]
fn failed_show_is_reported_and_loop_continues() {
    let mut s = PreviewSession::new(files(&["a", "b", "c"]), false).unwrap();
    // The second call (call number 1) fails; the loop must keep going.
    let script = vec![None, Some(PreviewError::ShowFailed)];
    let mut p = ScriptedPreviewer::new(script);
    let events = vec![
        press(KeyCode::ArrowRight),
        press(KeyCode::ArrowRight),
        press(KeyCode::Escape),
    ];
    let report = run(&mut s, &events, &mut p);
    assert_eq!(report.failed_shows, vec![1]);
    assert_eq!(report.reason, TerminationReason::UserQuit);
    assert_eq!(shown_paths(&p), vec!["a", "b", "c"]);
    assert_eq!(s.current_index(), 2);
}

#[test]
fn failed_initial_show_is_reported() {
    let mut s = PreviewSession::new(files(&["a"]), false).unwrap();
    let script = vec![Some(PreviewError::ShowFailed)];
    let mut p = ScriptedPreviewer::new(script);
    let events: Vec<KeyEvent> = Vec::new();
    let report = run(&mut s, &events, &mut p);
    assert_eq!(report.failed_shows, vec![0]);
    assert_eq!(report.reason, TerminationReason::SourceClosed);
}

#[test]
fn unavailable_previewer_on_entry_is_fatal() {
    let mut s = PreviewSession::new(files(&["a", "b"]), false).unwrap();
    let script = vec![Some(PreviewError::Unavailable)];
    let mut p = ScriptedPreviewer::new(script);
    let events = vec![press(KeyCode::ArrowRight)];
    let report = run(&mut s, &events, &mut p);
    assert_eq!(report.reason, TerminationReason::FatalPreviewError);
    assert_eq!(report.consumed, 0);
    assert_eq!(shown_paths(&p), vec!["a"]);
    assert!(report.failed_shows.is_empty());
}

#[test]
fn unavailable_previewer_mid_run_stops_the_loop() {
    let mut s = PreviewSession::new(files(&["a", "b", "c"]), false).unwrap();
    let script = vec![None, None, Some(PreviewError::Unavailable)];
    let mut p = ScriptedPreviewer::new(script);
    let events = vec![
        press(KeyCode::ArrowRight),
        press(KeyCode::ArrowRight),
        press(KeyCode::ArrowRight),
    ];
    let report = run(&mut s, &events, &mut p);
    assert_eq!(report.reason, TerminationReason::FatalPreviewError);
    assert_eq!(report.consumed, 2);
    assert_eq!(shown_paths(&p), vec!["a", "b", "c"]);
    assert_eq!(s.current_index(), 2);
}

#[test]
fn handle_event_moves_cursor_and_asks_for_show() {
    let mut s = PreviewSession::new(files(&["a", "b", "c"]), false).unwrap();
    assert_eq!(handle_event(&mut s, press(KeyCode::ArrowRight)), NavAction::ShowCurrent);
    assert_eq!(s.current(), "b");
    assert_eq!(handle_event(&mut s, press(KeyCode::ArrowUp)), NavAction::ShowCurrent);
    assert_eq!(s.current(), "a");
    assert_eq!(handle_event(&mut s, release(KeyCode::ArrowRight)), NavAction::Ignore);
    assert_eq!(s.current(), "a");
    assert_eq!(handle_event(&mut s, press(KeyCode::Escape)), NavAction::Quit);
    assert_eq!(s.current(), "a");
}

#[test]
fn open_preview_shows_only_the_first_file() {
    let names = files(&["x", "y", "z"]);
    let mut p = ScriptedPreviewer::new(Vec::new());
    let r = open_preview(&names, true, &mut p);
    assert_eq!(r, Ok(()));
    assert_eq!(shown_paths(&p), vec!["x"]);
    assert_eq!(p.calls()[0].1, true);
}

#[test]
fn open_preview_hands_back_the_show_outcome() {
    let names = files(&["x", "y"]);
    let script = vec![Some(PreviewError::ShowFailed)];
    let mut p = ScriptedPreviewer::new(script);
    let r = open_preview(&names, false, &mut p);
    assert_eq!(r, Err(PreviewError::ShowFailed));
    assert_eq!(shown_paths(&p), vec!["x"]);
    assert_eq!(p.calls()[0].1, false);

    let script = vec![Some(PreviewError::Unavailable)];
    let mut q = ScriptedPreviewer::new(script);
    assert_eq!(open_preview(&names, false, &mut q), Err(PreviewError::Unavailable));
    assert_eq!(shown_paths(&q), vec!["x"]);
}
