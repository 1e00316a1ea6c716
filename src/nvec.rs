//! A vector addressed by `N` indices, one per dimension, stored flat in
//! row-major order with a fixed length for each dimension.
use vstd::prelude::*;

verus! {

/// The number of elements that dimensions of lengths `lens` hold.
pub open spec fn volume(lens: Seq<usize>) -> int
    decreases lens.len(),
{
    if lens.len() == 0 {
        1
    } else {
        volume(lens.drop_last()) * lens.last()
    }
}

/// The flat position of the element at `idx` in dimensions of lengths
/// `lens`: the last index varies fastest.
pub open spec fn flat_index(idx: Seq<usize>, lens: Seq<usize>) -> int
    decreases idx.len(),
{
    if idx.len() == 0 || lens.len() == 0 {
        0
    } else {
        flat_index(idx.drop_last(), lens.drop_last()) * lens.last() + idx.last()
    }
}

/// Whether every index of `idx` lies within its dimension.
pub open spec fn in_bounds(idx: Seq<usize>, lens: Seq<usize>) -> bool {
    &&& idx.len() == lens.len()
    &&& forall|k: int| 0 <= k < idx.len() ==> idx[k] < lens[k]
}

/// Indices within their dimensions name a position within the volume.
pub proof fn lemma_flat_index_bound(idx: Seq<usize>, lens: Seq<usize>)
    requires
        in_bounds(idx, lens),
    ensures
        0 <= flat_index(idx, lens) < volume(lens),
    decreases idx.len(),
{
    if idx.len() > 0 {
        let (pi, pl) = (idx.drop_last(), lens.drop_last());
        assert forall|k: int| 0 <= k < pi.len() implies pi[k] < pl[k] by {
            assert(idx[k] < lens[k]);
        }
        lemma_flat_index_bound(pi, pl);
        let t = flat_index(pi, pl);
        let p = volume(pl);
        let l = lens.last() as int;
        let i = idx.last() as int;
        assert(idx[idx.len() - 1] < lens[lens.len() - 1]);
        assert(0 <= t < p && 0 <= i < l ==> 0 <= t * l + i < p * l) by (nonlinear_arith);
    }
}

/// A vector with `N` dimensions.
pub struct NVec<T, const N: usize> {
    inner: Vec<T>,
    lengths: Vec<usize>,
}

impl<T, const N: usize> NVec<T, N> {
    /// The elements, flat.
    pub closed spec fn elements(&self) -> Seq<T> {
        self.inner@
    }

    /// The length of each dimension.
    pub closed spec fn lengths(&self) -> Seq<usize> {
        self.lengths@
    }

    /// One length per dimension, and as many elements as they span.
    pub open spec fn wf(&self) -> bool {
        &&& self.lengths().len() == N
        &&& self.elements().len() == volume(self.lengths())
    }

    /// An empty vector: every dimension has length zero.
    pub fn new() -> (r: Self)
        requires
            N > 0,
        ensures
            r.wf(),
            r.elements() == Seq::<T>::empty(),
            r.lengths() == Seq::new(N as nat, |k: int| 0usize),
    {
        let mut lengths: Vec<usize> = Vec::new();
        let mut k: usize = 0;
        while k < N
            invariant
                0 <= k <= N,
                lengths@ == Seq::new(k as nat, |j: int| 0usize),
            decreases N - k,
        {
            lengths.push(0);
            k += 1;
            assert(lengths@ =~= Seq::new(k as nat, |j: int| 0usize));
        }
        proof {
            lemma_volume_zero(lengths@);
        }
        NVec { inner: Vec::new(), lengths }
    }

    /// The elements, flat.
    pub fn get_inner(&self) -> (r: &Vec<T>)
        ensures
            r@ == self.elements(),
    {
        &self.inner
    }

    /// Replaces the contents with `inner`, laid out over dimensions of
    /// lengths `lengths`, which must span exactly its elements.
    pub fn set_inner(&mut self, inner: Vec<T>, lengths: &[usize; N])
        requires
            inner@.len() == volume(lengths@),
        ensures
            final(self).wf(),
            final(self).elements() == inner@,
            final(self).lengths() == lengths@,
    {
        let mut lens: Vec<usize> = Vec::new();
        let mut k: usize = 0;
        while k < N
            invariant
                0 <= k <= N,
                lengths@.len() == N,
                lens@ == lengths@.subrange(0, k as int),
            decreases N - k,
        {
            lens.push(lengths[k]);
            k += 1;
            assert(lens@ =~= lengths@.subrange(0, k as int));
        }
        assert(lens@ =~= lengths@);
        self.inner = inner;
        self.lengths = lens;
    }

    /// The flat position of the element at `indexes`.
    fn get_index(&self, indexes: &[usize; N]) -> (r: usize)
        requires
            self.wf(),
            in_bounds(indexes@, self.lengths()),
        ensures
            r == flat_index(indexes@, self.lengths()),
            r < self.elements().len(),
    {
        let mut target: usize = 0;
        let mut k: usize = 0;
        let total: usize = self.inner.len();
        proof {
            lemma_flat_index_bound(indexes@, self.lengths());
            assert forall|j: int| 0 <= j < self.lengths().len() implies self.lengths()[j] > 0 by {
                assert(indexes@[j] < self.lengths()[j]);
            }
        }
        while k < N
            invariant
                0 <= k <= N,
                self.wf(),
                in_bounds(indexes@, self.lengths()),
                target == flat_index(
                    indexes@.subrange(0, k as int),
                    self.lengths().subrange(0, k as int),
                ),
                target < volume(self.lengths().subrange(0, k as int)),
                total == volume(self.lengths()),
                forall|j: int| 0 <= j < self.lengths().len() ==> self.lengths()[j] > 0,
            decreases N - k,
        {
            let ghost pi = indexes@.subrange(0, k as int);
            let ghost pl = self.lengths().subrange(0, k as int);
            let ghost ni = indexes@.subrange(0, k + 1);
            let ghost nl = self.lengths().subrange(0, k + 1);
            let len = self.lengths[k];
            let i = indexes[k];
            proof {
                assert(ni.drop_last() =~= pi);
                assert(nl.drop_last() =~= pl);
                assert(i < len);
                assert forall|j: int| 0 <= j < ni.len() implies ni[j] < nl[j] by {
                    assert(indexes@[j] < self.lengths()[j]);
                }
                lemma_flat_index_bound(ni, nl);
                lemma_volume_prefix(self.lengths(), k as int + 1);
                assert(flat_index(ni, nl) == target * len + i);
            }
            target = target * len + i;
            k += 1;
        }
        assert(indexes@.subrange(0, N as int) =~= indexes@);
        assert(self.lengths().subrange(0, N as int) =~= self.lengths());
        target
    }

    /// The element at `indexes`.
    pub fn get(&self, indexes: &[usize; N]) -> (r: &T)
        requires
            self.wf(),
            in_bounds(indexes@, self.lengths()),
        ensures
            *r == self.elements()[flat_index(indexes@, self.lengths())],
    {
        let i = self.get_index(indexes);
        &self.inner[i]
    }

    /// Replaces the element at `indexes`.
    pub fn get_mut(&mut self, indexes: &[usize; N]) -> (r: &mut T)
        requires
            old(self).wf(),
            in_bounds(indexes@, old(self).lengths()),
        ensures
            *r == old(self).elements()[flat_index(indexes@, old(self).lengths())],
            final(self).lengths() == old(self).lengths(),
            final(self).elements() == old(self).elements().update(
                flat_index(indexes@, old(self).lengths()),
                *final(r),
            ),
    {
        let i = self.get_index(indexes);
        &mut self.inner[i]
    }

    /// Empties the vector: no elements, every dimension of length zero.
    pub fn clear(&mut self)
        requires
            N > 0,
        ensures
            final(self).wf(),
            final(self).elements() == Seq::<T>::empty(),
            final(self).lengths() == Seq::new(N as nat, |k: int| 0usize),
    {
        *self = NVec::new();
    }
}

/// Dimensions that include one of length zero hold nothing.
proof fn lemma_volume_zero(lens: Seq<usize>)
    requires
        lens.len() > 0,
        forall|k: int| 0 <= k < lens.len() ==> lens[k] == 0,
    ensures
        volume(lens) == 0,
{
    assert(lens.last() == 0);
}

/// Growing a prefix of the dimensions multiplies its volume by the next
/// length; when no dimension is empty, no prefix holds more than the whole.
proof fn lemma_volume_prefix(lens: Seq<usize>, k: int)
    requires
        0 < k <= lens.len(),
        forall|j: int| 0 <= j < lens.len() ==> lens[j] > 0,
    ensures
        volume(lens.subrange(0, k)) == volume(lens.subrange(0, k - 1)) * lens[k - 1],
        volume(lens.subrange(0, k)) <= volume(lens),
    decreases lens.len() - k,
{
    assert(lens.subrange(0, k).drop_last() =~= lens.subrange(0, k - 1));
    if k < lens.len() {
        lemma_volume_prefix(lens, k + 1);
        lemma_volume_nonneg(lens.subrange(0, k));
        let a = volume(lens.subrange(0, k));
        let b = lens[k] as int;
        assert(a >= 0 && b >= 1 ==> a <= a * b) by (nonlinear_arith);
    } else {
        assert(lens.subrange(0, k) =~= lens);
    }
}

proof fn lemma_volume_nonneg(lens: Seq<usize>)
    ensures
        volume(lens) >= 0,
    decreases lens.len(),
{
    if lens.len() > 0 {
        lemma_volume_nonneg(lens.drop_last());
        let a = volume(lens.drop_last());
        let b = lens.last() as int;
        assert(a >= 0 && b >= 0 ==> a * b >= 0) by (nonlinear_arith);
    }
}

} // verus!
