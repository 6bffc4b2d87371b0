//! The previewer capability: the one thing the navigation loop asks of a
//! platform, showing a single file. A scripted in-memory previewer serves
//! as a verified stand-in for tests.

use vstd::prelude::*;

verus! {

/// How a single preview request can fail.
#[derive(Clone, Copy, Debug, PartialEq, Eq, Structural)]
pub enum PreviewError {
    /// This one call failed (previewer missing, spawn failed, pipe
    /// unavailable); the session survives it.
    ShowFailed,
    /// The preview mechanism is unusable for the rest of the run; the
    /// navigation loop stops on it.
    Unavailable,
}

/// A platform previewer: shows one file at a time, optionally fullscreen.
///
/// `shown` is the record of every request made so far, in order;
/// `outcome` fixes, per call number, how the previewer answers. A `show`
/// call appends to the record, leaves the outcome schedule unchanged, and
/// answers with the outcome of its own call number.
pub trait Previewer {
    /// Every `(path, fullscreen)` pair requested so far, oldest first.
    spec fn shown(&self) -> Seq<(Seq<char>, bool)>;

    /// The answer the previewer gives to its `call`-th request.
    spec fn outcome(&self, call: nat) -> Result<(), PreviewError>;

    /// Asks the platform to show `path`.
    fn show(&mut self, path: &String, fullscreen: bool) -> (r: Result<(), PreviewError>)
        ensures
            final(self).shown() == old(self).shown().push((path@, fullscreen)),
            forall|c: nat| final(self).outcome(c) == old(self).outcome(c),
            r == old(self).outcome(old(self).shown().len()),
    ;
}

/// The answer a scripted previewer gives to its `call`-th request: the
/// scripted failure if one is listed there, success otherwise.
pub open spec fn script_outcome(
    script: Seq<Option<PreviewError>>,
    call: nat,
) -> Result<(), PreviewError> {
    if call < script.len() {
        match script[call as int] {
            Option::Some(e) => Err(e),
            Option::None => Ok(()),
        }
    } else {
        Ok(())
    }
}

/// An in-memory previewer for tests: records every request and fails
/// exactly where its script says so.
pub struct ScriptedPreviewer {
    calls: Vec<(String, bool)>,
    script: Vec<Option<PreviewError>>,
}

impl ScriptedPreviewer {
    /// Builds a previewer that has seen no request and will answer its
    /// `call`-th request as `script[call]` prescribes (success once the
    /// script runs out).
    pub fn new(script: Vec<Option<PreviewError>>) -> (p: ScriptedPreviewer)
        ensures
            p.shown() == Seq::<(Seq<char>, bool)>::empty(),
            forall|c: nat| p.outcome(c) == script_outcome(script@, c),
    {
        let p = ScriptedPreviewer { calls: Vec::new(), script };
        proof {
            assert(p.shown() =~= Seq::<(Seq<char>, bool)>::empty());
        }
        p
    }

    /// The recorded requests, oldest first.
    pub fn calls(&self) -> (r: &Vec<(String, bool)>)
        ensures
            r@.map_values(|c: (String, bool)| (c.0@, c.1)) == self.shown(),
    {
        &self.calls
    }
}

impl Previewer for ScriptedPreviewer {
    closed spec fn shown(&self) -> Seq<(Seq<char>, bool)> {
        self.calls@.map_values(|c: (String, bool)| (c.0@, c.1))
    }

    closed spec fn outcome(&self, call: nat) -> Result<(), PreviewError> {
        script_outcome(self.script@, call)
    }

    fn show(&mut self, path: &String, fullscreen: bool) -> (r: Result<(), PreviewError>) {
        let idx = self.calls.len();
        self.calls.push((path.clone(), fullscreen));
        proof {
            assert(self.shown() =~= old(self).shown().push((path@, fullscreen)));
        }
        if idx < self.script.len() {
            match self.script[idx] {
                Option::Some(e) => Err(e),
                Option::None => Ok(()),
            }
        } else {
            Ok(())
        }
    }
}

} // verus!
