//! A cell written at most once.

use vstd::prelude::*;

verus! {

/// A cell that starts empty and, once given a value, keeps it.
pub struct OnceCell<T> {
    value: Option<T>,
}

impl<T> View for OnceCell<T> {
    type V = Option<T>;

    closed spec fn view(&self) -> Option<T> {
        self.value
    }
}

impl<T> OnceCell<T> {
    /// An empty cell.
    pub fn new() -> (r: Self)
        ensures
            r@ is None,
    {
        OnceCell { value: None }
    }

    /// Whether the cell holds a value.
    pub fn is_initialized(&self) -> (r: bool)
        ensures
            r == (self@ is Some),
    {
        self.value.is_some()
    }

    /// The value, if the cell holds one.
    pub fn get(&self) -> (r: Option<&T>)
        ensures
            self@ is None ==> r is None,
            self@ is Some ==> r is Some && *r->Some_0 == self@->Some_0,
    {
        self.value.as_ref()
    }

    /// Stores `value` if the cell is empty; otherwise hands `value` back.
    pub fn set(&mut self, value: T) -> (r: Result<(), T>)
        ensures
            old(self)@ is None ==> r is Ok && final(self)@ == Some(value),
            old(self)@ is Some ==> r == Err::<(), T>(value) && final(self)@ == old(self)@,
    {
        if self.value.is_some() {
            return Err(value);
        }
        self.value = Some(value);
        Ok(())
    }

    /// The value, first computed by `f` if the cell is empty. When `f` fails
    /// the cell stays empty and its error is returned.
    pub fn get_or_try_init<E, F: FnOnce() -> Result<T, E>>(&mut self, f: F) -> (r: Result<&T, E>)
        requires
            old(self)@ is None ==> f.requires(()),
        ensures
            old(self)@ is Some ==> final(self)@ == old(self)@ && r is Ok && *r->Ok_0 == old(self)@->Some_0,
            old(self)@ is None ==> exists|out: Result<T, E>|
                #[trigger] f.ensures((), out) && match out {
                    Ok(v) => final(self)@ == Some(v) && r is Ok && *r->Ok_0 == v,
                    Err(e) => final(self)@ is None && r == Err::<&T, E>(e),
                },
    {
        if self.value.is_none() {
            let out = f();
            match out {
                Ok(v) => {
                    self.value = Some(v);
                },
                Err(e) => {
                    return Err(e);
                },
            }
        }
        Ok(self.value.as_ref().unwrap())
    }

    /// The value, first computed by `f` if the cell is empty.
    pub fn get_or_init<F: FnOnce() -> T>(&mut self, f: F) -> (r: &T)
        requires
            old(self)@ is None ==> f.requires(()),
        ensures
            old(self)@ is Some ==> final(self)@ == old(self)@ && *r == old(self)@->Some_0,
            old(self)@ is None ==> f.ensures((), *r) && final(self)@ == Some(*r),
    {
        if self.value.is_none() {
            let v = f();
            self.value = Some(v);
        }
        self.value.as_ref().unwrap()
    }
}

} // verus!
