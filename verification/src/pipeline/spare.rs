//! The two bounce buffers of a panel worker: while one is on its way to the
//! panel, the other can be filled.

use vstd::prelude::*;

verus! {

/// The buffers that are not on their way.
pub struct Spare<T> {
    first: Option<T>,
    second: Option<T>,
}

impl<T> View for Spare<T> {
    type V = (Option<T>, Option<T>);

    closed spec fn view(&self) -> (Option<T>, Option<T>) {
        (self.first, self.second)
    }
}

/// How many buffers there are in the two places.
pub open spec fn idle<T>(places: (Option<T>, Option<T>)) -> nat {
    (if places.0 is Some {
        1nat
    } else {
        0
    }) + (if places.1 is Some {
        1nat
    } else {
        0
    })
}

impl<T> Spare<T> {
    pub fn new(first: T, second: T) -> (s: Self)
        ensures
            s@ == (Some(first), Some(second)),
    {
        Spare { first: Some(first), second: Some(second) }
    }

    /// Takes a buffer, if there is one.
    pub fn take_idle(&mut self) -> (buf: Option<T>)
        ensures
            match old(self)@.0 {
                Some(_) => buf == old(self)@.0 && final(self)@ == (None::<T>, old(self)@.1),
                None => buf == old(self)@.1 && final(self)@ == (None::<T>, None::<T>),
            },
            buf is Some <==> idle(old(self)@) > 0,
    {
        match self.first.take() {
            Some(buf) => Some(buf),
            None => self.second.take(),
        }
    }

    /// Puts a buffer back, or returns it if both places are taken.
    pub fn put_idle(&mut self, buf: T) -> (r: Result<(), T>)
        ensures
            idle(old(self)@) == 2 ==> r == Err::<(), T>(buf) && final(self)@ == old(self)@,
            idle(old(self)@) < 2 ==> {
                &&& r is Ok
                &&& idle(final(self)@) == idle(old(self)@) + 1
                &&& final(self)@ == (if old(self)@.0 is None {
                    (Some(buf), old(self)@.1)
                } else {
                    (old(self)@.0, Some(buf))
                })
            },
    {
        if self.first.is_none() {
            self.first = Some(buf);
            Ok(())
        } else if self.second.is_none() {
            self.second = Some(buf);
            Ok(())
        } else {
            Err(buf)
        }
    }
}

} // verus!
