//! The preview session: an ordered, non-empty file list with a cyclic
//! cursor and a session-wide fullscreen flag.

use vstd::arithmetic::div_mod::{
    lemma_add_mod_noop_right, lemma_mod_bound, lemma_mod_multiples_vanish, lemma_mod_self_0,
    lemma_small_mod,
};
use vstd::prelude::*;

verus! {

/// Error returned when a session is built from invalid input.
#[derive(Clone, Copy, Debug, PartialEq, Eq, Structural)]
pub enum SessionError {
    /// The file list handed to the constructor was empty.
    InvalidArgument,
}

/// Index reached from `i` by one forward step through a cyclic list of
/// `n` entries.
pub open spec fn advance_index(i: nat, n: nat) -> nat
    recommends
        0 < n,
{
    (((i + 1) as int) % (n as int)) as nat
}

/// Index reached from `i` by one backward step through a cyclic list of
/// `n` entries.
pub open spec fn retreat_index(i: nat, n: nat) -> nat
    recommends
        0 < n,
{
    ((i as int + n as int - 1) % (n as int)) as nat
}

proof fn lemma_advance_index_bound(i: nat, n: nat)
    requires
        0 < n,
    ensures
        advance_index(i, n) < n,
{
    lemma_mod_bound((i + 1) as int, n as int);
}

proof fn lemma_retreat_index_bound(i: nat, n: nat)
    requires
        0 < n,
    ensures
        retreat_index(i, n) < n,
{
    lemma_mod_bound(i as int + n as int - 1, n as int);
}

/// One forward step lands on `i + 1`, or wraps to `0` from the last entry.
proof fn lemma_advance_index_value(i: nat, n: nat)
    requires
        0 < n,
        i < n,
    ensures
        advance_index(i, n) == if i + 1 < n {
            (i + 1) as nat
        } else {
            0nat
        },
{
    if i + 1 < n {
        lemma_small_mod((i + 1) as nat, n);
    } else {
        lemma_mod_self_0(n as int);
    }
}

/// One backward step lands on `i - 1`, or wraps to `n - 1` from entry `0`.
proof fn lemma_retreat_index_value(i: nat, n: nat)
    requires
        0 < n,
        i < n,
    ensures
        retreat_index(i, n) == if i == 0 {
            (n - 1) as nat
        } else {
            (i - 1) as nat
        },
{
    if i == 0 {
        lemma_small_mod((n - 1) as nat, n);
    } else {
        lemma_mod_multiples_vanish(1, i as int - 1, n as int);
        lemma_small_mod((i - 1) as nat, n);
    }
}

/// Law: stepping forward and then backward — or backward and then
/// forward — returns the cursor to where it started, for every list
/// length of at least one.
pub proof fn lemma_advance_retreat_roundtrip(i: nat, n: nat)
    requires
        0 < n,
        i < n,
    ensures
        retreat_index(advance_index(i, n), n) == i,
        advance_index(retreat_index(i, n), n) == i,
{
    lemma_advance_index_value(i, n);
    lemma_advance_index_bound(i, n);
    lemma_retreat_index_value(advance_index(i, n), n);
    lemma_retreat_index_value(i, n);
    lemma_retreat_index_bound(i, n);
    lemma_advance_index_value(retreat_index(i, n), n);
}

/// Law: on a list with a single entry, forward and backward steps leave
/// the cursor alone.
pub proof fn lemma_single_entry_steps_are_noops(i: nat)
    requires
        i < 1,
    ensures
        advance_index(i, 1) == i,
        retreat_index(i, 1) == i,
{
    lemma_advance_index_value(i, 1);
    lemma_retreat_index_value(i, 1);
}

/// The cursor reached after applying a sequence of steps, each `true`
/// entry a forward step and each `false` entry a backward one.
pub open spec fn nav_result(i: nat, n: nat, steps: Seq<bool>) -> nat
    decreases steps.len(),
{
    if steps.len() == 0 {
        i
    } else {
        let j = if steps[0] {
            advance_index(i, n)
        } else {
            retreat_index(i, n)
        };
        nav_result(j, n, steps.skip(1))
    }
}

/// Law: starting inside the list, any sequence of forward and backward
/// steps keeps the cursor inside the list.
pub proof fn lemma_nav_result_in_bounds(i: nat, n: nat, steps: Seq<bool>)
    requires
        0 < n,
        i < n,
    ensures
        nav_result(i, n, steps) < n,
    decreases steps.len(),
{
    if steps.len() > 0 {
        let j = if steps[0] {
            advance_index(i, n)
        } else {
            retreat_index(i, n)
        };
        if steps[0] {
            lemma_advance_index_bound(i, n);
        } else {
            lemma_retreat_index_bound(i, n);
        }
        lemma_nav_result_in_bounds(j, n, steps.skip(1));
    }
}

/// Law: `k` consecutive forward steps from `i` land on `(i + k) % n`.
pub proof fn lemma_k_advances(i: nat, n: nat, k: nat)
    requires
        0 < n,
        i < n,
    ensures
        nav_result(i, n, Seq::new(k, |j: int| true)) == ((i + k) as int % n as int) as nat,
    decreases k,
{
    let steps = Seq::new(k, |j: int| true);
    if k == 0 {
        lemma_small_mod(i, n);
    } else {
        let i2 = advance_index(i, n);
        lemma_advance_index_bound(i, n);
        assert(steps.skip(1) =~= Seq::new((k - 1) as nat, |j: int| true));
        lemma_k_advances(i2, n, (k - 1) as nat);
        // (((i + 1) % n) + (k - 1)) % n == (i + k) % n
        lemma_add_mod_noop_right((k - 1) as int, (i + 1) as int, n as int);
        assert((i2 + (k - 1)) as int % n as int == ((k - 1) + (i + 1)) as int % n as int);
    }
}

/// In-memory state of one preview run: which files take part, which one
/// is currently shown, and whether the previewer is asked for fullscreen.
pub struct PreviewSession {
    files: Vec<String>,
    current_index: usize,
    fullscreen: bool,
}

impl PreviewSession {
    /// The ordered file paths of the session.
    pub closed spec fn paths(&self) -> Seq<Seq<char>> {
        self.files@.map_values(|s: String| s@)
    }

    /// The cursor: the position of the file currently shown.
    pub closed spec fn index(&self) -> nat {
        self.current_index as nat
    }

    /// The session-wide fullscreen flag.
    pub closed spec fn is_fullscreen(&self) -> bool {
        self.fullscreen
    }

    /// Session invariant: the list is non-empty and the cursor points at
    /// one of its entries.
    pub open spec fn wf(&self) -> bool {
        &&& self.paths().len() >= 1
        &&& self.index() < self.paths().len()
    }

    /// Builds a session showing the first file, or reports
    /// `InvalidArgument` exactly when the file list is empty.
    pub fn new(files: Vec<String>, fullscreen: bool) -> (r: Result<PreviewSession, SessionError>)
        ensures
            files@.len() == 0 <==> r is Err,
            r matches Err(e) ==> e == SessionError::InvalidArgument,
            r matches Ok(s) ==> {
                &&& s.wf()
                &&& s.paths() == files@.map_values(|f: String| f@)
                &&& s.index() == 0
                &&& s.is_fullscreen() == fullscreen
            },
    {
        if files.len() == 0 {
            Err(SessionError::InvalidArgument)
        } else {
            Ok(PreviewSession { files, current_index: 0, fullscreen })
        }
    }

    /// The path currently shown.
    pub fn current(&self) -> (r: String)
        requires
            self.wf(),
        ensures
            r@ == self.paths()[self.index() as int],
    {
        self.files[self.current_index].clone()
    }

    /// How many files the session cycles through.
    pub fn len(&self) -> (r: usize)
        ensures
            r as nat == self.paths().len(),
    {
        self.files.len()
    }

    /// Executable view of the cursor.
    pub fn current_index(&self) -> (r: usize)
        ensures
            r as nat == self.index(),
    {
        self.current_index
    }

    /// Executable view of the fullscreen flag.
    pub fn fullscreen(&self) -> (r: bool)
        ensures
            r == self.is_fullscreen(),
    {
        self.fullscreen
    }

    /// Moves the cursor one file forward, wrapping from the last file to
    /// the first.
    pub fn advance(&mut self)
        requires
            old(self).wf(),
        ensures
            final(self).wf(),
            final(self).paths() == old(self).paths(),
            final(self).is_fullscreen() == old(self).is_fullscreen(),
            final(self).index() == advance_index(old(self).index(), old(self).paths().len()),
    {
        proof {
            lemma_advance_index_value(self.index(), self.paths().len());
        }
        let n = self.files.len();
        if self.current_index == n - 1 {
            self.current_index = 0;
        } else {
            self.current_index = self.current_index + 1;
        }
    }

    /// Moves the cursor one file backward, wrapping from the first file
    /// to the last.
    pub fn retreat(&mut self)
        requires
            old(self).wf(),
        ensures
            final(self).wf(),
            final(self).paths() == old(self).paths(),
            final(self).is_fullscreen() == old(self).is_fullscreen(),
            final(self).index() == retreat_index(old(self).index(), old(self).paths().len()),
    {
        proof {
            lemma_retreat_index_value(self.index(), self.paths().len());
        }
        if self.current_index == 0 {
            self.current_index = self.files.len() - 1;
        } else {
            self.current_index = self.current_index - 1;
        }
    }
}

} // verus!
