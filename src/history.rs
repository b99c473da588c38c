use vstd::prelude::*;

verus! {

/// Append-only per-tick record: entry 0 is the state before the first tick,
/// entry `t` the state after tick `t`.
#[derive(Debug)]
pub struct History<T> {
    entries: Vec<T>,
}

impl<T> View for History<T> {
    type V = Seq<T>;

    closed spec fn view(&self) -> Seq<T> {
        self.entries@
    }
}

impl<T> History<T> {
    /// Every history holds at least its initial state.
    pub open spec fn wf(&self) -> bool {
        self@.len() >= 1
    }

    /// A history that holds the initial state alone.
    pub fn new(initial: T) -> (h: Self)
        ensures
            h@ == seq![initial],
            h.wf(),
    {
        let mut entries: Vec<T> = Vec::new();
        entries.push(initial);
        History { entries }
    }

    /// Appends the state reached by one more tick.
    pub fn record(&mut self, state: T)
        requires
            old(self).wf(),
        ensures
            final(self)@ == old(self)@.push(state),
            final(self).wf(),
    {
        self.entries.push(state);
    }

    /// Number of entries: the ticks run so far, plus one for the initial state.
    pub fn len(&self) -> (n: usize)
        ensures
            n == self@.len(),
    {
        self.entries.len()
    }

    /// Number of ticks recorded after the initial state.
    pub fn ticks(&self) -> (n: usize)
        requires
            self.wf(),
        ensures
            n == self@.len() - 1,
    {
        self.entries.len() - 1
    }

    /// The state after tick `t` (the initial state for `t == 0`).
    pub fn at(&self, t: usize) -> (s: &T)
        requires
            t < self@.len(),
        ensures
            *s == self@[t as int],
    {
        &self.entries[t]
    }

    /// The most recent state.
    pub fn latest(&self) -> (s: &T)
        requires
            self.wf(),
        ensures
            *s == self@.last(),
    {
        &self.entries[self.entries.len() - 1]
    }

    /// All entries, oldest first.
    pub fn entries(&self) -> (v: &Vec<T>)
        ensures
            v@ == self@,
    {
        &self.entries
    }
}

} // verus!
