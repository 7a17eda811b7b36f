//! Coalescing concurrent syncs of one key.
use vstd::prelude::*;

verus! {

/// A sync result, marked by whether this caller's own request produced it.
///
/// Callers count and record only what they led, so a publication counts at most once.
#[derive(Debug)]
pub enum Synced<T> {
    Led(T),
    Joined(T),
}

impl<T> Synced<T> {
    /// The result, whoever produced it.
    pub open spec fn inner(self) -> T {
        match self {
            Synced::Led(result) => result,
            Synced::Joined(result) => result,
        }
    }

    /// The result, whoever produced it.
    pub fn into_inner(self) -> (r: T)
        ensures
            r == self.inner(),
    {
        match self {
            Synced::Led(result) => result,
            Synced::Joined(result) => result,
        }
    }
}

/// What a caller that waited for a key's flight finds: the result of the flight that completed, or its
/// own turn to lead.
pub enum Turn<T> {
    Joined(T),
    Lead,
}

/// What a caller does with its turn: answer with what it joined, or run the sync itself.
pub fn take_turn<T>(turn: Turn<T>) -> (r: Option<Synced<T>>)
    ensures
        match turn {
            Turn::Joined(result) => r == Some(Synced::Joined(result)),
            Turn::Lead => r is None,
        },
{
    match turn {
        Turn::Joined(result) => Some(Synced::Joined(result)),
        Turn::Lead => None,
    }
}

} // verus!
