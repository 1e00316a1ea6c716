//! The two halves of a split stream: one that may only be written to and one
//! that may only be read from, tagged so that halves of the same source can be
//! recognised and joined again.
use vstd::prelude::*;

verus! {

/// The writing half of a split stream. A half made by [`WriteHalf::new`] is
/// unbound (no source tag); one made by [`WriteHalf::new_id`] carries the
/// nonzero tag of the stream it was split from.
pub struct WriteHalf<W>(W, Option<usize>);

/// The reading half of a split stream, tagged like [`WriteHalf`].
pub struct ReadHalf<R>(R, Option<usize>);

impl<W> WriteHalf<W> {
    /// The wrapped writer.
    pub closed spec fn inner(&self) -> W {
        self.0
    }

    /// The source tag, if bound.
    pub closed spec fn id(&self) -> Option<usize> {
        self.1
    }

    /// An unbound half around `write`.
    pub fn new(write: W) -> (r: WriteHalf<W>)
        ensures
            r.inner() == write,
            r.id() is None,
    {
        WriteHalf(write, None)
    }

    /// A half around `write` bound to the source tagged `id`.
    pub fn new_id(write: W, id: usize) -> (r: WriteHalf<W>)
        requires
            id != 0,
        ensures
            r.inner() == write,
            r.id() == Some(id),
    {
        WriteHalf(write, Some(id))
    }

    /// The writer, if the half is unbound; a bound half gives nothing.
    pub fn get(self) -> (r: Option<W>)
        ensures
            self.id() is None ==> r == Some(self.inner()),
            self.id() is Some ==> r is None,
    {
        if self.1.is_none() {
            return Some(self.0);
        }
        None
    }

    /// The source tag, if bound.
    pub fn get_id(&self) -> (r: Option<usize>)
        ensures
            r == self.id(),
    {
        self.1
    }
}

impl<R> ReadHalf<R> {
    /// The wrapped reader.
    pub closed spec fn inner(&self) -> R {
        self.0
    }

    /// The source tag, if bound.
    pub closed spec fn id(&self) -> Option<usize> {
        self.1
    }

    /// An unbound half around `read`.
    pub fn new(read: R) -> (r: ReadHalf<R>)
        ensures
            r.inner() == read,
            r.id() is None,
    {
        ReadHalf(read, None)
    }

    /// A half around `read` bound to the source tagged `id`.
    pub fn new_id(read: R, id: usize) -> (r: ReadHalf<R>)
        requires
            id != 0,
        ensures
            r.inner() == read,
            r.id() == Some(id),
    {
        ReadHalf(read, Some(id))
    }

    /// The reader, if the half is unbound; a bound half gives nothing.
    pub fn get(self) -> (r: Option<R>)
        ensures
            self.id() is None ==> r == Some(self.inner()),
            self.id() is Some ==> r is None,
    {
        if self.1.is_none() {
            return Some(self.0);
        }
        None
    }

    /// The source tag, if bound.
    pub fn get_id(&self) -> (r: Option<usize>)
        ensures
            r == self.id(),
    {
        self.1
    }

    /// Whether this half and `write` carry the same tag.
    pub fn same_source<W>(&self, write: &WriteHalf<W>) -> (r: bool)
        ensures
            r == (self.id() == write.id()),
    {
        match (self.1, write.1) {
            (Some(a), Some(b)) => a == b,
            (None, None) => true,
            _ => false,
        }
    }
}

/// Joins two halves back into their source: the stream held by `read` when
/// both carry the same tag, nothing otherwise.
pub fn recombine<S>(read: ReadHalf<S>, write: WriteHalf<S>) -> (r: Option<S>)
    ensures
        read.id() == write.id() ==> r == Some(read.inner()),
        read.id() != write.id() ==> r is None,
{
    if read.same_source(&write) {
        Some(read.0)
    } else {
        None
    }
}

} // verus!
