use vstd::prelude::*;

verus! {

/// Holds the second value of a pair-producing draw (Box–Muller yields two
/// independent values at a time) until the next request, so that every pair
/// is used whole and in order.
#[derive(Debug)]
pub struct PairBuffer<T> {
    pending: Option<T>,
}

impl<T> View for PairBuffer<T> {
    type V = Option<T>;

    closed spec fn view(&self) -> Option<T> {
        self.pending
    }
}

impl<T> PairBuffer<T> {
    /// An empty buffer.
    pub fn new() -> (b: Self)
        ensures
            b@ is None,
    {
        PairBuffer { pending: None }
    }

    /// Whether the next request will call for a fresh pair.
    pub fn is_empty(&self) -> (r: bool)
        ensures
            r == (self@ is None),
    {
        self.pending.is_none()
    }

    /// The next value: the held one if there is one; otherwise the first value
    /// of a fresh pair from `fresh`, whose second value is held for the next
    /// request.
    pub fn next_with<F: FnOnce() -> (T, T)>(&mut self, fresh: F) -> (v: T)
        requires
            fresh.requires(()),
        ensures
            match old(self)@ {
                Some(held) => v == held && final(self)@ is None,
                None => exists|pair: (T, T)|
                    #[trigger] fresh.ensures((), pair) && v == pair.0 && final(self)@ == Some(pair.1),
            },
    {
        match self.pending.take() {
            Some(held) => held,
            None => {
                let pair = fresh();
                let (first, second) = pair;
                self.pending = Some(second);
                first
            },
        }
    }
}

/// A one-tick delay line: each tick hands out the value stored on the tick
/// before and keeps the current one, as an actuator that acts on the previous
/// command.
#[derive(Debug)]
pub struct ControlDelay<T> {
    held: T,
}

impl<T> View for ControlDelay<T> {
    type V = T;

    closed spec fn view(&self) -> T {
        self.held
    }
}

impl<T> ControlDelay<T> {
    /// A delay line whose first output will be `initial`.
    pub fn new(initial: T) -> (d: Self)
        ensures
            d@ == initial,
    {
        ControlDelay { held: initial }
    }

    /// Stores `current` and returns the value stored on the previous tick.
    pub fn shift(&mut self, current: T) -> (previous: T)
        ensures
            previous == old(self)@,
            final(self)@ == current,
    {
        let mut value = current;
        std::mem::swap(&mut self.held, &mut value);
        value
    }

    /// The value that the next shift will return.
    pub fn held(&self) -> (v: &T)
        ensures
            *v == self@,
    {
        &self.held
    }
}

} // verus!
