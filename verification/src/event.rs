//! An event of the interactive session: one unit of input, or one scheduling
//! tick. The input payload is left generic; the driving loop instantiates it
//! with whatever its input source produces.
use vstd::prelude::*;

verus! {

/// An event; either an Input or a Tick.
pub enum Event<I> {
    Input(I),
    Tick,
}

impl<I> Event<I> {
    /// Whether this event is a scheduling tick.
    pub fn is_tick(&self) -> (r: bool)
        ensures
            r == (self is Tick),
    {
        match self {
            Event::Input(_) => false,
            Event::Tick => true,
        }
    }
}

} // verus!
