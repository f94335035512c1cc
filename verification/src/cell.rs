//! Late initialised variables: set exactly once, read only after being set.
use vstd::prelude::*;

verus! {

/// A variable that is set once, after construction, and read afterwards.
pub struct Late<T> {
    value: Option<T>,
}

impl<T> View for Late<T> {
    type V = Option<T>;

    closed spec fn view(&self) -> Option<T> {
        self.value
    }
}

impl<T> Late<T> {
    /// A variable that has not been set yet.
    pub fn new() -> (r: Self)
        ensures
            r@ is None,
    {
        Late { value: None }
    }

    /// Sets the variable; it must not have been set before.
    pub fn set(&mut self, value: T)
        requires
            old(self)@ is None,
        ensures
            final(self)@ == Some(value),
    {
        self.value = Some(value);
    }

    /// Whether the variable was set.
    pub fn is_set(&self) -> (r: bool)
        ensures
            r == self@ is Some,
    {
        self.value.is_some()
    }

    /// The value; the variable must have been set.
    pub fn get(&self) -> (r: &T)
        requires
            self@ is Some,
        ensures
            *r == self@->0,
    {
        self.value.as_ref().unwrap()
    }

    /// Mutable access to the value; the variable must have been set.
    pub fn get_mut(&mut self) -> (r: &mut T)
        requires
            old(self)@ is Some,
        ensures
            *r == old(self)@->0,
            final(self)@ == Some(*final(r)),
    {
        self.value.as_mut().unwrap()
    }
}

/// A cell that is set once and then borrowed; reading it before it is set
/// or setting it twice is an error of the caller.
pub struct LateRefCell<T> {
    value: Option<T>,
}

impl<T> View for LateRefCell<T> {
    type V = Option<T>;

    closed spec fn view(&self) -> Option<T> {
        self.value
    }
}

impl<T> LateRefCell<T> {
    /// A cell that has not been set yet.
    pub fn new() -> (r: Self)
        ensures
            r@ is None,
    {
        LateRefCell { value: None }
    }

    /// Sets the cell; it must not have been set before.
    pub fn set(&mut self, value: T)
        requires
            old(self)@ is None,
        ensures
            final(self)@ == Some(value),
    {
        self.value = Some(value);
    }

    /// Whether the cell was set.
    pub fn is_set(&self) -> (r: bool)
        ensures
            r == self@ is Some,
    {
        self.value.is_some()
    }

    /// A copy of the value; the cell must have been set.
    pub fn clone_value(&self) -> (r: T) where T: Clone
        requires
            self@ is Some,
        ensures
            cloned(self@->0, r),
    {
        self.value.as_ref().unwrap().clone()
    }

    /// Borrows the value; the cell must have been set.
    pub fn borrow(&self) -> (r: &T)
        requires
            self@ is Some,
        ensures
            *r == self@->0,
    {
        self.value.as_ref().unwrap()
    }

    /// Borrows the value mutably; the cell must have been set.
    pub fn borrow_mut(&mut self) -> (r: &mut T)
        requires
            old(self)@ is Some,
        ensures
            *r == old(self)@->0,
            final(self)@ == Some(*final(r)),
    {
        self.value.as_mut().unwrap()
    }
}

/// A late variable that was set holds exactly the value it was set to,
/// and reading it gives that value back.
pub proof fn lemma_read_gives_back_set<T>(late: Late<T>, value: T)
    requires
        late@ == Some(value),
    ensures
        late@ is Some,
        late@->0 == value,
{
}

} // verus!
