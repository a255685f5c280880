//! Bags: values that hold some data, or the reason why it could not be
//! loaded.

use crate::error::Error;
use vstd::prelude::*;

verus! {

/// Trait for types that might provide access to some data.
pub trait TryBag<T: ?Sized> {
    /// Whether `data` is what the bag stores: the data, or the reason why
    /// there is none. Of a bag that does not say, nothing is known.
    open spec fn stores(&self, data: Result<&T, &Error>) -> bool {
        true
    }

    /// Get an immutable reference to the stored data, or an error if the
    /// data failed to load.
    fn try_get(&self) -> (data: Result<&T, &Error>)
        ensures
            self.stores(data),
    ;
}

/// Trait for types that provide access to some data.
pub trait Bag<T: ?Sized>: TryBag<T> {
    /// Get an immutable reference to the stored data.
    fn get(&self) -> (data: &T)
        ensures
            self.stores(Ok::<&T, &Error>(data)),
    ;
}

/// Trait for types that might wrap some data.
pub trait TryUnbag<T>: Sized {
    /// The wrapped data, or the reason why there is none. Of a bag that
    /// does not say, nothing is known.
    open spec fn wrapped(self) -> Result<T, Error> {
        arbitrary()
    }

    /// Attempt to unwrap the stored data, or an error if the data failed to
    /// load.
    fn try_unbag(self) -> (data: Result<T, Error>)
        ensures
            data == self.wrapped(),
    ;
}

/// Trait for types that wrap some data.
pub trait Unbag<T>: TryUnbag<T> {
    /// Unwrap the stored data.
    fn unbag(self) -> (data: T)
        ensures
            self.wrapped() == Ok::<T, Error>(data),
    ;
}

/// Trait for types that can instantiate some bag.
pub trait InitBag {
    /// The bag that is made.
    type Bag;

    /// Makes the bag.
    fn init() -> Self::Bag;
}

/// A bag around a value that is there from the start.
#[derive(Copy, Clone, Debug, PartialEq, Eq)]
pub struct Static<U>(pub U);

impl<U> TryBag<U> for Static<U> {
    open spec fn stores(&self, data: Result<&U, &Error>) -> bool {
        data == Ok::<&U, &Error>(&self.0)
    }

    fn try_get(&self) -> (data: Result<&U, &Error>) {
        Ok(self.get())
    }
}

impl<U> Bag<U> for Static<U> {
    fn get(&self) -> (data: &U) {
        &self.0
    }
}

impl<'a, U: ?Sized> TryBag<U> for Static<&'a U> {
    open spec fn stores(&self, data: Result<&U, &Error>) -> bool {
        data == Ok::<&U, &Error>(self.0)
    }

    fn try_get(&self) -> (data: Result<&U, &Error>) {
        Ok(self.get())
    }
}

impl<'a, U: ?Sized> Bag<U> for Static<&'a U> {
    fn get(&self) -> (data: &U) {
        self.0
    }
}

impl<U: ?Sized> TryBag<U> for Static<Box<U>> {
    open spec fn stores(&self, data: Result<&U, &Error>) -> bool {
        data == Ok::<&U, &Error>(&*self.0)
    }

    fn try_get(&self) -> (data: Result<&U, &Error>) {
        Ok(self.get())
    }
}

impl<U: ?Sized> Bag<U> for Static<Box<U>> {
    fn get(&self) -> (data: &U) {
        &*self.0
    }
}

impl TryBag<str> for Static<String> {
    open spec fn stores(&self, data: Result<&str, &Error>) -> bool {
        data matches Ok(text) && text@ == self.0@
    }

    fn try_get(&self) -> (data: Result<&str, &Error>) {
        Ok(self.get())
    }
}

impl Bag<str> for Static<String> {
    fn get(&self) -> (data: &str) {
        self.0.as_str()
    }
}

impl<T> TryBag<[T]> for Static<Vec<T>> {
    open spec fn stores(&self, data: Result<&[T], &Error>) -> bool {
        data matches Ok(items) && items@ == self.0@
    }

    fn try_get(&self) -> (data: Result<&[T], &Error>) {
        Ok(self.get())
    }
}

impl<T> Bag<[T]> for Static<Vec<T>> {
    fn get(&self) -> (data: &[T]) {
        self.0.as_slice()
    }
}

impl<T, const N: usize> TryBag<[T]> for Static<[T; N]> {
    open spec fn stores(&self, data: Result<&[T], &Error>) -> bool {
        data matches Ok(items) && items@ == self.0@
    }

    fn try_get(&self) -> (data: Result<&[T], &Error>) {
        Ok(self.get())
    }
}

impl<T, const N: usize> Bag<[T]> for Static<[T; N]> {
    fn get(&self) -> (data: &[T]) {
        self.0.as_slice()
    }
}

impl<U> TryUnbag<U> for Static<U> {
    open spec fn wrapped(self) -> Result<U, Error> {
        Ok(self.0)
    }

    fn try_unbag(self) -> (data: Result<U, Error>) {
        Ok(self.0)
    }
}

impl<U> Unbag<U> for Static<U> {
    fn unbag(self) -> (data: U) {
        self.0
    }
}

/// A bag around a value that was loaded at the start, or around the reason
/// why it could not be.
pub struct TryStatic<U>(pub Result<U, Error>);

impl<U> TryBag<U> for TryStatic<U> {
    open spec fn stores(&self, data: Result<&U, &Error>) -> bool {
        data == match &self.0 {
            Ok(held) => Ok::<&U, &Error>(held),
            Err(e) => Err(e),
        }
    }

    fn try_get(&self) -> (data: Result<&U, &Error>) {
        match &self.0 {
            Ok(data) => Ok(data),
            Err(e) => Err(e),
        }
    }
}

impl<'a, U: ?Sized> TryBag<U> for TryStatic<&'a U> {
    open spec fn stores(&self, data: Result<&U, &Error>) -> bool {
        data == match &self.0 {
            Ok(held) => Ok::<&U, &Error>(*held),
            Err(e) => Err(e),
        }
    }

    fn try_get(&self) -> (data: Result<&U, &Error>) {
        match &self.0 {
            Ok(data) => Ok(*data),
            Err(e) => Err(e),
        }
    }
}

impl TryBag<str> for TryStatic<String> {
    open spec fn stores(&self, data: Result<&str, &Error>) -> bool {
        match &self.0 {
            Ok(held) => data matches Ok(text) && text@ == held@,
            Err(e) => data == Err::<&str, &Error>(e),
        }
    }

    fn try_get(&self) -> (data: Result<&str, &Error>) {
        match &self.0 {
            Ok(data) => Ok(data.as_str()),
            Err(e) => Err(e),
        }
    }
}

impl<T> TryBag<[T]> for TryStatic<Vec<T>> {
    open spec fn stores(&self, data: Result<&[T], &Error>) -> bool {
        match &self.0 {
            Ok(held) => data matches Ok(items) && items@ == held@,
            Err(e) => data == Err::<&[T], &Error>(e),
        }
    }

    fn try_get(&self) -> (data: Result<&[T], &Error>) {
        match &self.0 {
            Ok(data) => Ok(data.as_slice()),
            Err(e) => Err(e),
        }
    }
}

impl<U> TryUnbag<U> for TryStatic<U> {
    open spec fn wrapped(self) -> Result<U, Error> {
        self.0
    }

    fn try_unbag(self) -> (data: Result<U, Error>) {
        self.0
    }
}

/// The state of a value that is computed from another on first use.
pub enum MapState<A, B, F> {
    /// The function has not been applied yet.
    Unapplied { func: F, data: A },
    /// The function is being applied.
    Temp,
    /// The function has been applied.
    Applied { data: B },
}

impl<A, B, F: FnOnce(A) -> B> MapState<A, B, F> {
    /// The function can be applied, or has been.
    pub open spec fn ready(&self) -> bool {
        match self {
            MapState::Unapplied { func, data } => call_requires(*func, (*data,)),
            MapState::Temp => false,
            MapState::Applied { .. } => true,
        }
    }

    /// Whether `out` can be the value: what was computed, or what the
    /// function may give for the data.
    pub open spec fn yields(&self, out: B) -> bool {
        match self {
            MapState::Unapplied { func, data } => call_ensures(*func, (*data,), out),
            MapState::Temp => false,
            MapState::Applied { data } => *data == out,
        }
    }

    /// Applies the function, unless it has been applied.
    pub fn apply(&mut self)
        requires
            old(self).ready(),
        ensures
            *final(self) is Applied,
            old(self).yields((*final(self))->Applied_data),
    {
        // guarantee no mutation once applied
        if let MapState::Applied { .. } = self {
            return ;
        }
        // not yet applied
        let mut state = MapState::Temp;
        core::mem::swap(self, &mut state);
        let applied = match state {
            MapState::Unapplied { func, data } => MapState::Applied { data: func(data) },
            _ => vstd::pervasive::unreached(),
        };
        *self = applied;
    }

    /// The value, computed now unless it has been.
    pub fn get(self) -> (out: B)
        requires
            self.ready(),
        ensures
            self.yields(out),
    {
        match self {
            MapState::Applied { data } => data,
            MapState::Unapplied { func, data } => func(data),
            _ => vstd::pervasive::unreached(),
        }
    }
}

} // verus!
