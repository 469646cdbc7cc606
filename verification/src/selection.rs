//! The selection session: purely spatial bookkeeping of an in-progress tile
//! drag. Press begins the session and records the origin, each hover while
//! pressed accumulates a tile once, and release hands the origin and the
//! accumulated set back and clears the session atomically.

use vstd::prelude::*;

verus! {

/// An in-progress tile selection.
pub struct SelectionSession {
    pub pressed: bool,
    /// The tile the press began on; meaningful only while `pressed`.
    pub base: usize,
    /// The tiles swept over so far, each at most once, in sweep order.
    pub hovered: Vec<usize>,
}

/// `v` contains `t`.
pub(crate) fn contains_tile(v: &Vec<usize>, t: usize) -> (r: bool)
    ensures
        r == v@.contains(t),
{
    let mut i: usize = 0;
    while i < v.len()
        invariant
            i <= v@.len(),
            forall|j: int| 0 <= j < i ==> v@[j] != t,
        decreases v@.len() - i,
    {
        if v[i] == t {
            return true;
        }
        i += 1;
    }
    false
}

impl SelectionSession {
    /// A session with no press in progress.
    pub fn new() -> (s: SelectionSession)
        ensures
            !s.pressed,
            s.hovered@.len() == 0,
    {
        SelectionSession { pressed: false, base: 0, hovered: Vec::new() }
    }

    /// The tile has been swept in this session.
    pub fn contains(&self, t: usize) -> (r: bool)
        ensures
            r == self.hovered@.contains(t),
    {
        contains_tile(&self.hovered, t)
    }

    /// Begin a session at `t`: the origin is recorded and is the first
    /// accumulated tile.
    pub fn press(&mut self, t: usize)
        ensures
            final(self).pressed,
            final(self).base == t,
            final(self).hovered@ =~= seq![t],
    {
        self.pressed = true;
        self.base = t;
        self.hovered = Vec::new();
        self.hovered.push(t);
    }

    /// Accumulate a hovered tile; a tile already swept is not added again.
    pub fn hover(&mut self, t: usize)
        requires
            old(self).pressed,
        ensures
            final(self).pressed == old(self).pressed,
            final(self).base == old(self).base,
            final(self).hovered@ == if old(self).hovered@.contains(t) {
                old(self).hovered@
            } else {
                old(self).hovered@.push(t)
            },
    {
        if !contains_tile(&self.hovered, t) {
            self.hovered.push(t);
        }
    }

    /// Finalize the session: hand back the origin and the accumulated tiles,
    /// and clear both atomically.
    pub fn release(&mut self) -> (r: (usize, Vec<usize>))
        requires
            old(self).pressed,
        ensures
            r.0 == old(self).base,
            r.1@ == old(self).hovered@,
            !final(self).pressed,
            final(self).hovered@.len() == 0,
    {
        let mut out: Vec<usize> = Vec::new();
        core::mem::swap(&mut out, &mut self.hovered);
        self.pressed = false;
        (self.base, out)
    }
}

} // verus!
