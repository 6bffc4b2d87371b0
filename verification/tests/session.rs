use quickpreview::session::{PreviewSession, SessionError};

fn files(names: &[&str]) -> Vec<String> {
    names.iter().map(|s| s.to_string()).collect()
}

#[test]
fn empty_file_list_is_invalid_argument() {
    let r = PreviewSession::new(Vec::new(), false);
    assert_eq!(r.err(), Some(SessionError::InvalidArgument));
}

#[test]
fn new_session_starts_at_first_file() {
    let s = PreviewSession::new(files(&["a", "b", "c"]), true).unwrap();
    assert_eq!(s.current_index(), 0);
    assert_eq!(s.current(), "a");
    assert_eq!(s.len(), 3);
    assert!(s.fullscreen());
}

#[test]
fn advance_steps_forward_and_wraps() {
    let mut s = PreviewSession::new(files(&["a", "b", "c"]), false).unwrap();
    s.advance();
    assert_eq!(s.current(), "b");
    s.advance();
    assert_eq!(s.current(), "c");
    s.advance();
    assert_eq!(s.current(), "a");
}

#[test]
fn retreat_steps_backward_and_wraps() {
    let mut s = PreviewSession::new(files(&["a", "b", "c"]), false).unwrap();
    s.retreat();
    assert_eq!(s.current(), "c");
    s.retreat();
    assert_eq!(s.current(), "b");
}

#[test]
fn advance_then_retreat_round_trips() {
    for start in 0..4usize {
        let mut s = PreviewSession::new(files(&["a", "b", "c", "d"]), false).unwrap();
        for _ in 0..start {
            s.advance();
        }
        let before = s.current_index();
        s.advance();
        s.retreat();
        assert_eq!(s.current_index(), before);
        s.retreat();
        s.advance();
        assert_eq!(s.current_index(), before);
    }
}

#[test]
fn single_file_navigation_is_a_noop() {
    let mut s = PreviewSession::new(files(&["only"]), false).unwrap();
    s.advance();
    assert_eq!(s.current_index(), 0);
    s.retreat();
    assert_eq!(s.current_index(), 0);
    assert_eq!(s.current(), "only");
}

#[test]
fn k_advances_land_on_initial_plus_k_modulo_len() {
    let n = 5usize;
    let names = files(&["p", "q", "r", "s", "t"]);
    for k in 0..12usize {
        let mut s = PreviewSession::new(names.clone(), false).unwrap();
        for _ in 0..k {
            s.advance();
        }
        assert_eq!(s.current_index(), k % n);
    }
}

#[test]
fn index_stays_in_bounds_under_mixed_navigation() {
    let mut s = PreviewSession::new(files(&["a", "b"]), false).unwrap();
    let steps = [true, false, false, true, true, true, false, true, false, false];
    for &fwd in steps.iter() {
        if fwd {
            s.advance();
        } else {
            s.retreat();
        }
        assert!(s.current_index() < s.len());
    }
}
