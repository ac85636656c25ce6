use vstd::prelude::*;

verus! {

/// A value that can be read back from its editor.
pub trait Config<T> {
    /// The current value.
    fn get(&self) -> T;
}

/// A type whose values can be put in an editor.
pub trait Configurable: Sized {
    type Config: Config<Self>;

    /// An editor holding `value`.
    fn config(value: Self) -> Self::Config;
}

/// An editor that only shows its value.
pub struct ShowValue<T> {
    value: T,
}

impl<T> ShowValue<T> {
    /// The value shown.
    pub closed spec fn value(&self) -> T {
        self.value
    }

    /// Shows `value`.
    pub fn new(value: T) -> (r: Self)
        ensures
            r.value() == value,
    {
        ShowValue { value }
    }
}

impl<T: Clone> Config<T> for ShowValue<T> {
    fn get(&self) -> (r: T)
        ensures
            cloned(self.value(), r),
    {
        self.value.clone()
    }
}

impl<T: Clone> Configurable for T {
    type Config = ShowValue<T>;

    fn config(value: T) -> (r: ShowValue<T>)
        ensures
            r.value() == value,
    {
        ShowValue::new(value)
    }
}

} // verus!
