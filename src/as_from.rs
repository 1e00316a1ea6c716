//! Conversions applied to the value inside a container, keeping the
//! container's shape: `Option<U>` to `Option<T>`, `Result<U, R>` to
//! `Result<T, E>`, `Either<Y, I>` to `Either<T, U>`.
use vstd::prelude::*;
use vstd::std_specs::convert::{FromSpec, TryFromSpec};

verus! {

/// A value of one of two types.
pub enum Either<T, U> {
    T(T),
    U(U),
}

impl<T, U> Either<T, U> {
    /// The first variant, holding `t`.
    pub fn new_t(t: T) -> (r: Self)
        ensures
            r == Either::<T, U>::T(t),
    {
        Either::T(t)
    }

    /// The second variant, holding `u`.
    pub fn new_u(u: U) -> (r: Self)
        ensures
            r == Either::<T, U>::U(u),
    {
        Either::U(u)
    }
}

/// Whether `t` is what converting `u` gives, as far as the conversion's own
/// specification says.
pub open spec fn converts<U, T: From<U>>(u: U, t: T) -> bool {
    T::obeys_from_spec() ==> t == T::from_spec(u)
}

/// Conversion of the value inside a container.
pub trait AsFrom<T>: Sized {
    /// Whether `r` is a faithful conversion of `value`: same shape, each
    /// held value converted.
    spec fn as_from_spec(value: T, r: Self) -> bool;

    fn as_from(value: T) -> (r: Self)
        ensures
            Self::as_from_spec(value, r),
    ;
}

impl<T: From<U>, U> AsFrom<Option<U>> for Option<T> {
    open spec fn as_from_spec(value: Option<U>, r: Option<T>) -> bool {
        match (value, r) {
            (Some(u), Some(t)) => converts(u, t),
            (None, None) => true,
            _ => false,
        }
    }

    fn as_from(value: Option<U>) -> (r: Option<T>) {
        match value {
            Some(value) => Some(T::from(value)),
            None => None,
        }
    }
}

impl<T: From<U>, U, E: From<R>, R> AsFrom<Result<U, R>> for Result<T, E> {
    open spec fn as_from_spec(value: Result<U, R>, r: Result<T, E>) -> bool {
        match (value, r) {
            (Ok(u), Ok(t)) => converts(u, t),
            (Err(a), Err(b)) => converts(a, b),
            _ => false,
        }
    }

    fn as_from(value: Result<U, R>) -> (r: Result<T, E>) {
        match value {
            Ok(value) => Ok(T::from(value)),
            Err(error) => Err(E::from(error)),
        }
    }
}

impl<T: From<Y>, U: From<I>, Y, I> AsFrom<Either<Y, I>> for Either<T, U> {
    open spec fn as_from_spec(value: Either<Y, I>, r: Either<T, U>) -> bool {
        match (value, r) {
            (Either::T(y), Either::T(t)) => converts(y, t),
            (Either::U(i), Either::U(u)) => converts(i, u),
            _ => false,
        }
    }

    fn as_from(value: Either<Y, I>) -> (r: Either<T, U>) {
        match value {
            Either::T(val) => Either::T(T::from(val)),
            Either::U(val) => Either::U(U::from(val)),
        }
    }
}

/// The conversion of [`AsFrom`] called on the source value.
pub trait AsInto<T>: Sized {
    spec fn as_into_spec(self, r: T) -> bool;

    fn as_into(self) -> (r: T)
        ensures
            self.as_into_spec(r),
    ;
}

impl<T: AsFrom<U>, U> AsInto<T> for U {
    open spec fn as_into_spec(self, r: T) -> bool {
        T::as_from_spec(self, r)
    }

    fn as_into(self) -> (r: T) {
        T::as_from(self)
    }
}

/// Whether `r` is what attempting to convert `u` gives, as far as the
/// conversion's own specification says.
pub open spec fn tries<U, T: TryFrom<U>>(u: U, r: Result<T, T::Error>) -> bool {
    T::obeys_try_from_spec() ==> r == T::try_from_spec(u)
}

/// A conversion of the value inside a container that may fail.
pub trait AsTryFrom<T>: Sized {
    type Error;

    /// Whether `r` is a faithful attempt at converting `value`.
    spec fn as_try_from_spec(value: T, r: Result<Self, Self::Error>) -> bool;

    fn as_try_from(value: T) -> (r: Result<Self, Self::Error>)
        ensures
            Self::as_try_from_spec(value, r),
    ;
}

impl<T: TryFrom<U>, U> AsTryFrom<Option<U>> for Option<T> {
    type Error = T::Error;

    open spec fn as_try_from_spec(value: Option<U>, r: Result<Option<T>, T::Error>) -> bool {
        match value {
            Some(u) => exists|c: Result<T, T::Error>|
                tries(u, c) && r == match c {
                    Ok(t) => Ok::<Option<T>, T::Error>(Some(t)),
                    Err(e) => Err(e),
                },
            None => r == Ok::<Option<T>, T::Error>(None),
        }
    }

    fn as_try_from(value: Option<U>) -> (r: Result<Option<T>, T::Error>) {
        match value {
            Some(value) => {
                let c = T::try_from(value);
                let r = match c {
                    Ok(value) => Ok(Some(value)),
                    Err(error) => Err(error),
                };
                assert(tries(value, c));
                r
            },
            None => Ok(None),
        }
    }
}

impl<T: TryFrom<U>, U, E: TryFrom<R>, R> AsTryFrom<Result<U, R>> for Result<T, E> {
    type Error = Either<T::Error, E::Error>;

    open spec fn as_try_from_spec(
        value: Result<U, R>,
        r: Result<Result<T, E>, Either<T::Error, E::Error>>,
    ) -> bool {
        match value {
            Ok(u) => exists|c: Result<T, T::Error>|
                tries(u, c) && r == match c {
                    Ok(t) => Ok::<Result<T, E>, Either<T::Error, E::Error>>(Ok(t)),
                    Err(f) => Err(Either::T(f)),
                },
            Err(a) => exists|c: Result<E, E::Error>|
                tries(a, c) && r == match c {
                    Ok(e) => Ok::<Result<T, E>, Either<T::Error, E::Error>>(Err(e)),
                    Err(f) => Err(Either::U(f)),
                },
        }
    }

    fn as_try_from(value: Result<U, R>) -> (r: Result<Result<T, E>, Either<T::Error, E::Error>>) {
        match value {
            Ok(value) => {
                let c = T::try_from(value);
                assert(tries(value, c));
                match c {
                    Ok(value) => Ok(Ok(value)),
                    Err(fail) => Err(Either::new_t(fail)),
                }
            },
            Err(error) => {
                let c = E::try_from(error);
                assert(tries(error, c));
                match c {
                    Ok(error) => Ok(Err(error)),
                    Err(fail) => Err(Either::new_u(fail)),
                }
            },
        }
    }
}

/// The conversion of [`AsTryFrom`] called on the source value.
pub trait AsTryInto<T>: Sized {
    type Error;

    spec fn as_try_into_spec(self, r: Result<T, Self::Error>) -> bool;

    fn as_try_into(self) -> (r: Result<T, Self::Error>)
        ensures
            self.as_try_into_spec(r),
    ;
}

impl<T: AsTryFrom<U>, U> AsTryInto<T> for U {
    type Error = T::Error;

    open spec fn as_try_into_spec(self, r: Result<T, T::Error>) -> bool {
        T::as_try_from_spec(self, r)
    }

    fn as_try_into(self) -> (r: Result<T, T::Error>) {
        T::as_try_from(self)
    }
}

} // verus!
