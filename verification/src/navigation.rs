//! The navigation loop: consumes key events in arrival order, moves the
//! session's cursor, and asks the previewer to show the current file.

use crate::event::{classify, classify_event, KeyEvent, NavCommand};
use crate::previewer::{PreviewError, Previewer};
use crate::session::{advance_index, retreat_index, PreviewSession};
use vstd::prelude::*;

verus! {

/// Why the navigation loop ended.
#[derive(Clone, Copy, Debug, PartialEq, Eq, Structural)]
pub enum TerminationReason {
    /// A quit key was pressed.
    UserQuit,
    /// The event source closed without a quit key.
    SourceClosed,
    /// The previewer reported itself unusable for the rest of the run.
    FatalPreviewError,
}

/// What a caller driving the loop one event at a time should do next.
#[derive(Clone, Copy, Debug, PartialEq, Eq, Structural)]
pub enum NavAction {
    /// Show the session's new current file.
    ShowCurrent,
    /// Stop: the user asked to quit.
    Quit,
    /// Nothing: the event was ignored.
    Ignore,
}

/// What one full run reports back.
#[derive(Debug, PartialEq, Eq)]
pub struct RunReport {
    /// Why the loop stopped.
    pub reason: TerminationReason,
    /// How many events it consumed.
    pub consumed: usize,
    /// The call numbers (the initial show being call `0`) whose show
    /// failed without stopping the loop.
    pub failed_shows: Vec<usize>,
}

/// The outcome of a whole navigation run, computed event by event.
pub ghost struct RunModel {
    /// Every `(path, fullscreen)` pair shown, in order.
    pub shows: Seq<(Seq<char>, bool)>,
    /// Where the cursor ends.
    pub end_index: nat,
    /// How many events the loop consumed.
    pub consumed: nat,
    /// Why the loop stopped.
    pub reason: TerminationReason,
    /// The call numbers whose show failed without stopping the loop.
    pub failed: Seq<nat>,
}

/// The run outcome from the middle of the event stream: position `pos`,
/// cursor `idx`, with `calls` show calls already made since the run
/// began (whose absolute call numbers start at `base`).
pub open spec fn run_model_from<P: Previewer>(
    p: P,
    base: nat,
    files: Seq<Seq<char>>,
    fullscreen: bool,
    events: Seq<KeyEvent>,
    pos: nat,
    idx: nat,
    calls: nat,
) -> RunModel
    decreases events.len() - pos,
{
    if pos >= events.len() {
        RunModel {
            shows: Seq::empty(),
            end_index: idx,
            consumed: pos,
            reason: TerminationReason::SourceClosed,
            failed: Seq::empty(),
        }
    } else {
        let cmd = classify(events[pos as int]);
        if cmd == NavCommand::Quit {
            RunModel {
                shows: Seq::empty(),
                end_index: idx,
                consumed: pos + 1,
                reason: TerminationReason::UserQuit,
                failed: Seq::empty(),
            }
        } else if cmd == NavCommand::Ignore {
            run_model_from(p, base, files, fullscreen, events, pos + 1, idx, calls)
        } else {
            let idx2 = if cmd == NavCommand::Next {
                advance_index(idx, files.len())
            } else {
                retreat_index(idx, files.len())
            };
            let show = (files[idx2 as int], fullscreen);
            let res = p.outcome(base + calls);
            if res matches Err(PreviewError::Unavailable) {
                RunModel {
                    shows: seq![show],
                    end_index: idx2,
                    consumed: pos + 1,
                    reason: TerminationReason::FatalPreviewError,
                    failed: Seq::empty(),
                }
            } else {
                let rest = run_model_from(
                    p,
                    base,
                    files,
                    fullscreen,
                    events,
                    pos + 1,
                    idx2,
                    calls + 1,
                );
                RunModel {
                    shows: seq![show] + rest.shows,
                    end_index: rest.end_index,
                    consumed: rest.consumed,
                    reason: rest.reason,
                    failed: if res is Err {
                        seq![calls] + rest.failed
                    } else {
                        rest.failed
                    },
                }
            }
        }
    }
}

/// The outcome of a whole run: the current file is shown once before any
/// event is consumed, then the events decide.
pub open spec fn run_model<P: Previewer>(
    p: P,
    files: Seq<Seq<char>>,
    fullscreen: bool,
    start: nat,
    events: Seq<KeyEvent>,
) -> RunModel {
    let first = (files[start as int], fullscreen);
    let res = p.outcome(p.shown().len());
    if res matches Err(PreviewError::Unavailable) {
        RunModel {
            shows: seq![first],
            end_index: start,
            consumed: 0,
            reason: TerminationReason::FatalPreviewError,
            failed: Seq::empty(),
        }
    } else {
        let rest = run_model_from(p, p.shown().len(), files, fullscreen, events, 0, start, 1);
        RunModel {
            shows: seq![first] + rest.shows,
            end_index: rest.end_index,
            consumed: rest.consumed,
            reason: rest.reason,
            failed: if res is Err {
                seq![0nat] + rest.failed
            } else {
                rest.failed
            },
        }
    }
}

/// Shows the session's current file through the previewer.
fn show_current<P: Previewer>(session: &PreviewSession, previewer: &mut P) -> (r: Result<
    (),
    PreviewError,
>)
    requires
        session.wf(),
    ensures
        final(previewer).shown() == old(previewer).shown().push(
            (session.paths()[session.index() as int], session.is_fullscreen()),
        ),
        forall|c: nat| final(previewer).outcome(c) == old(previewer).outcome(c),
        r == old(previewer).outcome(old(previewer).shown().len()),
{
    let path = session.current();
    previewer.show(&path, session.fullscreen())
}

/// Applies one input event to the session: the decision step of the
/// navigation loop. Navigation presses move the cursor and ask for a
/// show, a quit press asks to stop, and everything else changes nothing.
pub fn handle_event(session: &mut PreviewSession, event: KeyEvent) -> (action: NavAction)
    requires
        old(session).wf(),
    ensures
        final(session).wf(),
        final(session).paths() == old(session).paths(),
        final(session).is_fullscreen() == old(session).is_fullscreen(),
        ({
            let c = classify(event);
            &&& c == NavCommand::Next ==> final(session).index() == advance_index(
                old(session).index(),
                old(session).paths().len(),
            ) && action == NavAction::ShowCurrent
            &&& c == NavCommand::Previous ==> final(session).index() == retreat_index(
                old(session).index(),
                old(session).paths().len(),
            ) && action == NavAction::ShowCurrent
            &&& c == NavCommand::Quit ==> final(session).index() == old(session).index()
                && action == NavAction::Quit
            &&& c == NavCommand::Ignore ==> final(session).index() == old(session).index()
                && action == NavAction::Ignore
        }),
{
    match classify_event(event) {
        NavCommand::Next => {
            session.advance();
            NavAction::ShowCurrent
        },
        NavCommand::Previous => {
            session.retreat();
            NavAction::ShowCurrent
        },
        NavCommand::Quit => NavAction::Quit,
        NavCommand::Ignore => NavAction::Ignore,
    }
}

/// Drives the session over a finite stream of events: shows the current
/// file once on entry, then consumes events in order — navigation
/// presses move the cursor and show the new file, a quit press stops the
/// loop, anything else is ignored. A failed show is recorded and the
/// loop goes on, unless the previewer reports itself unusable, which
/// stops the run. The end of the stream stands for the source closing.
#[verifier::loop_isolation(false)]
pub fn run<P: Previewer>(
    session: &mut PreviewSession,
    events: &Vec<KeyEvent>,
    previewer: &mut P,
) -> (r: RunReport)
    requires
        old(session).wf(),
    ensures
        final(session).wf(),
        final(session).paths() == old(session).paths(),
        final(session).is_fullscreen() == old(session).is_fullscreen(),
        forall|c: nat| final(previewer).outcome(c) == old(previewer).outcome(c),
        ({
            let m = run_model(
                *old(previewer),
                old(session).paths(),
                old(session).is_fullscreen(),
                old(session).index(),
                events@,
            );
            &&& final(session).index() == m.end_index
            &&& final(previewer).shown() == old(previewer).shown() + m.shows
            &&& r.reason == m.reason
            &&& r.consumed as nat == m.consumed
            &&& r.failed_shows@.map_values(|v: usize| v as nat) == m.failed
        }),
{
    let ghost p0 = *previewer;
    let ghost files = session.paths();
    let ghost fs = session.is_fullscreen();
    let ghost base = previewer.shown().len();
    let ghost m = run_model(p0, files, fs, session.index(), events@);

    let mut failed: Vec<usize> = Vec::new();
    let first = show_current(session, previewer);
    let ghost mut acc: Seq<(Seq<char>, bool)> = seq![(files[session.index() as int], fs)];
    match first {
        Err(PreviewError::Unavailable) => {
            proof {
                assert(previewer.shown() =~= p0.shown() + m.shows);
                assert(failed@.map_values(|v: usize| v as nat) =~= m.failed);
            }
            return RunReport {
                reason: TerminationReason::FatalPreviewError,
                consumed: 0,
                failed_shows: failed,
            };
        },
        Err(PreviewError::ShowFailed) => {
            failed.push(0);
        },
        Ok(()) => {},
    }
    proof {
        assert(previewer.shown() =~= p0.shown() + acc);
        if first is Err {
            assert(failed@.map_values(|v: usize| v as nat) =~= seq![0nat]);
        } else {
            assert(failed@.map_values(|v: usize| v as nat) =~= Seq::<nat>::empty());
        }
    }
    let mut pos: usize = 0;
    let mut last_call: usize = 0;
    let n = events.len();
    while pos < n
        invariant
            session.wf(),
            session.paths() == files,
            session.is_fullscreen() == fs,
            n == events@.len(),
            pos <= n,
            last_call as nat <= pos as nat,
            acc.len() == last_call as nat + 1,
            forall|c: nat| previewer.outcome(c) == p0.outcome(c),
            previewer.shown() == p0.shown() + acc,
            ({
                let rest = run_model_from(
                    p0,
                    base,
                    files,
                    fs,
                    events@,
                    pos as nat,
                    session.index(),
                    last_call as nat + 1,
                );
                &&& m.end_index == rest.end_index
                &&& m.reason == rest.reason
                &&& m.consumed == rest.consumed
                &&& m.shows == acc + rest.shows
                &&& m.failed == failed@.map_values(|v: usize| v as nat) + rest.failed
            }),
        decreases n - pos,
    {
        let ev = events[pos];
        match classify_event(ev) {
            NavCommand::Quit => {
                proof {
                    assert(m.shows =~= acc);
                    assert(m.failed =~= failed@.map_values(|v: usize| v as nat));
                    assert(previewer.shown() =~= p0.shown() + m.shows);
                }
                return RunReport {
                    reason: TerminationReason::UserQuit,
                    consumed: pos + 1,
                    failed_shows: failed,
                };
            },
            NavCommand::Ignore => {},
            NavCommand::Next => {
                session.advance();
                let res = show_current(session, previewer);
                last_call = last_call + 1;
                proof {
                    acc = acc.push((files[session.index() as int], fs));
                    assert(previewer.shown() =~= p0.shown() + acc);
                }
                match res {
                    Err(PreviewError::Unavailable) => {
                        proof {
                            assert(m.shows =~= acc);
                            assert(m.failed =~= failed@.map_values(|v: usize| v as nat));
                            assert(previewer.shown() =~= p0.shown() + m.shows);
                        }
                        return RunReport {
                            reason: TerminationReason::FatalPreviewError,
                            consumed: pos + 1,
                            failed_shows: failed,
                        };
                    },
                    Err(PreviewError::ShowFailed) => {
                        let ghost failed_pre = failed@;
                        let ghost rest = run_model_from(
                            p0,
                            base,
                            files,
                            fs,
                            events@,
                            pos as nat + 1,
                            session.index(),
                            last_call as nat + 1,
                        );
                        failed.push(last_call);
                        proof {
                            assert(failed@.map_values(|v: usize| v as nat) =~= failed_pre.map_values(
                                |v: usize| v as nat,
                            ).push(last_call as nat));
                            assert(failed_pre.map_values(|v: usize| v as nat) + (
                            seq![last_call as nat] + rest.failed) =~= failed@.map_values(
                                |v: usize| v as nat,
                            ) + rest.failed);
                        }
                    },
                    Ok(()) => {},
                }
                proof {
                    assert(m.shows =~= acc + run_model_from(
                        p0,
                        base,
                        files,
                        fs,
                        events@,
                        pos as nat + 1,
                        session.index(),
                        last_call as nat + 1,
                    ).shows);
                }
            },
            NavCommand::Previous => {
                session.retreat();
                let res = show_current(session, previewer);
                last_call = last_call + 1;
                proof {
                    acc = acc.push((files[session.index() as int], fs));
                    assert(previewer.shown() =~= p0.shown() + acc);
                }
                match res {
                    Err(PreviewError::Unavailable) => {
                        proof {
                            assert(m.shows =~= acc);
                            assert(m.failed =~= failed@.map_values(|v: usize| v as nat));
                            assert(previewer.shown() =~= p0.shown() + m.shows);
                        }
                        return RunReport {
                            reason: TerminationReason::FatalPreviewError,
                            consumed: pos + 1,
                            failed_shows: failed,
                        };
                    },
                    Err(PreviewError::ShowFailed) => {
                        let ghost failed_pre = failed@;
                        let ghost rest = run_model_from(
                            p0,
                            base,
                            files,
                            fs,
                            events@,
                            pos as nat + 1,
                            session.index(),
                            last_call as nat + 1,
                        );
                        failed.push(last_call);
                        proof {
                            assert(failed@.map_values(|v: usize| v as nat) =~= failed_pre.map_values(
                                |v: usize| v as nat,
                            ).push(last_call as nat));
                            assert(failed_pre.map_values(|v: usize| v as nat) + (
                            seq![last_call as nat] + rest.failed) =~= failed@.map_values(
                                |v: usize| v as nat,
                            ) + rest.failed);
                        }
                    },
                    Ok(()) => {},
                }
                proof {
                    assert(m.shows =~= acc + run_model_from(
                        p0,
                        base,
                        files,
                        fs,
                        events@,
                        pos as nat + 1,
                        session.index(),
                        last_call as nat + 1,
                    ).shows);
                }
            },
        }
        pos = pos + 1;
    }
    proof {
        assert(m.shows =~= acc);
        assert(m.failed =~= failed@.map_values(|v: usize| v as nat));
        assert(previewer.shown() =~= p0.shown() + m.shows);
    }
    RunReport { reason: TerminationReason::SourceClosed, consumed: pos, failed_shows: failed }
}

/// Opens the preview for a freshly started session: exactly one show,
/// of the first file, with the session's fullscreen flag, before any
/// input is consumed. Returns that single call's outcome for the caller
/// to fold into the error taxonomy.
pub fn open_preview<P: Previewer>(
    files: &Vec<String>,
    fullscreen: bool,
    previewer: &mut P,
) -> (r: Result<(), PreviewError>)
    requires
        files@.len() >= 1,
    ensures
        final(previewer).shown() == old(previewer).shown().push((files@[0]@, fullscreen)),
        forall|c: nat| final(previewer).outcome(c) == old(previewer).outcome(c),
        r == old(previewer).outcome(old(previewer).shown().len()),
{
    previewer.show(&files[0], fullscreen)
}

/// How many of the given events are navigation commands.
pub open spec fn nav_count(events: Seq<KeyEvent>) -> nat
    decreases events.len(),
{
    if events.len() == 0 {
        0
    } else {
        (if classify(events[0]) == NavCommand::Next || classify(events[0])
            == NavCommand::Previous {
            1nat
        } else {
            0nat
        }) + nav_count(events.skip(1))
    }
}

proof fn lemma_shows_counted_from<P: Previewer>(
    p: P,
    base: nat,
    files: Seq<Seq<char>>,
    fullscreen: bool,
    events: Seq<KeyEvent>,
    pos: nat,
    idx: nat,
    calls: nat,
)
    requires
        pos <= events.len(),
    ensures
        ({
            let m = run_model_from(p, base, files, fullscreen, events, pos, idx, calls);
            &&& pos <= m.consumed <= events.len()
            &&& m.shows.len() == nav_count(events.subrange(pos as int, m.consumed as int))
        }),
    decreases events.len() - pos,
{
    let m = run_model_from(p, base, files, fullscreen, events, pos, idx, calls);
    if pos >= events.len() {
        assert(events.subrange(pos as int, pos as int) =~= Seq::<KeyEvent>::empty());
        assert(m.shows.len() == 0);
        assert(nav_count(events.subrange(pos as int, pos as int)) == 0);
    } else {
        let cmd = classify(events[pos as int]);
        if cmd == NavCommand::Quit {
            let sub = events.subrange(pos as int, pos as int + 1);
            assert(sub.len() == 1);
            assert(sub[0] == events[pos as int]);
            assert(sub.skip(1) =~= Seq::<KeyEvent>::empty());
            assert(nav_count(sub.skip(1)) == 0);
            assert(nav_count(sub) == 0);
            assert(m.consumed == pos + 1);
            assert(m.shows.len() == 0);
        } else if cmd == NavCommand::Ignore {
            lemma_shows_counted_from(p, base, files, fullscreen, events, pos + 1, idx, calls);
            let sub = events.subrange(pos as int, m.consumed as int);
            assert(pos + 1 <= m.consumed);
            assert(sub[0] == events[pos as int]);
            assert(sub.skip(1) =~= events.subrange(pos as int + 1, m.consumed as int));
            assert(nav_count(sub) == nav_count(sub.skip(1)));
            assert(m.shows.len() == nav_count(events.subrange(pos as int, m.consumed as int)));
        } else {
            let idx2 = if cmd == NavCommand::Next {
                advance_index(idx, files.len())
            } else {
                retreat_index(idx, files.len())
            };
            let res = p.outcome(base + calls);
            if res matches Err(PreviewError::Unavailable) {
                let sub = events.subrange(pos as int, pos as int + 1);
                assert(sub.len() == 1);
                assert(sub[0] == events[pos as int]);
                assert(sub.skip(1) =~= Seq::<KeyEvent>::empty());
                assert(nav_count(sub.skip(1)) == 0);
                assert(nav_count(sub) == 1);
                assert(m.consumed == pos + 1);
                assert(m.shows.len() == 1);
            } else {
                lemma_shows_counted_from(
                    p,
                    base,
                    files,
                    fullscreen,
                    events,
                    pos + 1,
                    idx2,
                    calls + 1,
                );
                let rest = run_model_from(
                    p,
                    base,
                    files,
                    fullscreen,
                    events,
                    pos + 1,
                    idx2,
                    calls + 1,
                );
                let sub = events.subrange(pos as int, m.consumed as int);
                assert(m.consumed == rest.consumed);
                assert(pos + 1 <= m.consumed);
                assert(sub[0] == events[pos as int]);
                assert(sub.skip(1) =~= events.subrange(pos as int + 1, m.consumed as int));
                assert(m.shows.len() == 1 + rest.shows.len());
                assert(nav_count(sub) == 1 + nav_count(sub.skip(1)));
                assert(m.shows.len() == nav_count(events.subrange(pos as int, m.consumed as int)));
            }
        }
    }
}

/// Law: the loop shows a file exactly once before consuming any event,
/// and exactly once per navigation event it consumes — so never for an
/// event it ignores.
pub proof fn lemma_one_show_per_navigation_event<P: Previewer>(
    p: P,
    files: Seq<Seq<char>>,
    fullscreen: bool,
    start: nat,
    events: Seq<KeyEvent>,
)
    ensures
        ({
            let m = run_model(p, files, fullscreen, start, events);
            &&& m.consumed <= events.len()
            &&& m.shows.len() == 1 + nav_count(events.take(m.consumed as int))
        }),
{
    let m = run_model(p, files, fullscreen, start, events);
    let res = p.outcome(p.shown().len());
    if res matches Err(PreviewError::Unavailable) {
        assert(events.take(0) =~= Seq::empty());
    } else {
        lemma_shows_counted_from(p, p.shown().len(), files, fullscreen, events, 0, start, 1);
        assert(events.take(m.consumed as int) =~= events.subrange(0, m.consumed as int));
    }
}

proof fn lemma_quit_from<P: Previewer>(
    p: P,
    base: nat,
    files: Seq<Seq<char>>,
    fullscreen: bool,
    events: Seq<KeyEvent>,
    pos: nat,
    idx: nat,
    calls: nat,
    q: nat,
)
    requires
        pos <= q < events.len(),
        classify(events[q as int]) == NavCommand::Quit,
        forall|j: int| pos <= j < q ==> classify(events[j]) != NavCommand::Quit,
        forall|c: nat| p.outcome(c) !=
            Err::<(), PreviewError>(PreviewError::Unavailable),
    ensures
        ({
            let m = run_model_from(p, base, files, fullscreen, events, pos, idx, calls);
            &&& m.reason == TerminationReason::UserQuit
            &&& m.consumed == q + 1
        }),
    decreases events.len() - pos,
{
    let cmd = classify(events[pos as int]);
    if pos == q {
    } else if cmd == NavCommand::Ignore {
        lemma_quit_from(p, base, files, fullscreen, events, pos + 1, idx, calls, q);
    } else if cmd == NavCommand::Next || cmd == NavCommand::Previous {
        let idx2 = if cmd == NavCommand::Next {
            advance_index(idx, files.len())
        } else {
            retreat_index(idx, files.len())
        };
        lemma_quit_from(p, base, files, fullscreen, events, pos + 1, idx2, calls + 1, q);
    }
}

/// Law: if the previewer never fails fatally, the loop stops at the
/// first quit key with `UserQuit`, consuming that event and none after
/// it.
pub proof fn lemma_quit_key_stops_loop<P: Previewer>(
    p: P,
    files: Seq<Seq<char>>,
    fullscreen: bool,
    start: nat,
    events: Seq<KeyEvent>,
    q: nat,
)
    requires
        q < events.len(),
        classify(events[q as int]) == NavCommand::Quit,
        forall|j: int| 0 <= j < q ==> classify(events[j]) != NavCommand::Quit,
        forall|c: nat| p.outcome(c) !=
            Err::<(), PreviewError>(PreviewError::Unavailable),
    ensures
        ({
            let m = run_model(p, files, fullscreen, start, events);
            &&& m.reason == TerminationReason::UserQuit
            &&& m.consumed == q + 1
        }),
{
    lemma_quit_from(p, p.shown().len(), files, fullscreen, events, 0, start, 1, q);
}

} // verus!
