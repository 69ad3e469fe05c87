use vstd::prelude::*;

verus! {

/// A slot that is filled after it is created.
pub struct Later<T> {
    value: Option<T>,
}

impl<T> View for Later<T> {
    type V = Option<T>;

    closed spec fn view(&self) -> Option<T> {
        self.value
    }
}

impl<T> Later<T> {
    /// An empty slot.
    pub fn new() -> (r: Self)
        ensures
            r@ is None,
    {
        Later { value: None }
    }

    /// Whether the slot has been filled.
    pub fn is_set(this: &Later<T>) -> (r: bool)
        ensures
            r == this@ is Some,
    {
        this.value.is_some()
    }

    /// Fills the slot, replacing what it held.
    pub fn set(this: &mut Later<T>, val: T)
        ensures
            final(this)@ == Some(val),
    {
        this.value = Some(val);
    }

    /// The value in a filled slot.
    pub fn get(this: &Later<T>) -> (r: &T)
        requires
            this@ is Some,
        ensures
            *r == this@->Some_0,
    {
        this.value.as_ref().unwrap()
    }

    /// The value in a filled slot, to be changed in place.
    pub fn get_mut(this: &mut Later<T>) -> (r: &mut T)
        requires
            old(this)@ is Some,
        ensures
            *r == old(this)@->Some_0,
            final(this)@ == Some(*final(r)),
    {
        this.value.as_mut().unwrap()
    }

    /// Moves the value out of a filled slot.
    pub fn take(this: Later<T>) -> (r: T)
        requires
            this@ is Some,
        ensures
            Some(r) == this@,
    {
        this.value.unwrap()
    }
}

} // verus!
