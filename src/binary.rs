//! A compact byte encoding for plain values, read from and written to a
//! byte queue. Integers are little-endian; a pointer-sized integer travels
//! as four bytes; a flag is one byte, 0 or 1; an optional value is a flag
//! followed by the value when present; a result is a tag byte, 0 for a
//! success and 1 for a failure, followed by its payload.
use std::collections::VecDeque;
use vstd::prelude::*;

verus! {

/// Why a value could not be read.
#[derive(Clone, Copy, PartialEq, Eq, Structural, Debug)]
pub enum BinaryError {
    /// The bytes ran out before the value was complete.
    UnexpectedEnd,
    /// The bytes do not encode a value of the type asked for.
    InvalidData,
}

/// `256` to the power `n`.
pub open spec fn pow256(n: nat) -> nat
    decreases n,
{
    if n == 0 {
        1
    } else {
        256 * pow256((n - 1) as nat)
    }
}

/// The `n` low bytes of `x`, least significant first.
pub open spec fn le_bytes(x: nat, n: nat) -> Seq<u8>
    decreases n,
{
    if n == 0 {
        Seq::empty()
    } else {
        seq![(x % 256) as u8] + le_bytes(x / 256, (n - 1) as nat)
    }
}

/// The number that bytes `bs` spell, least significant first.
pub open spec fn le_value(bs: Seq<u8>) -> nat
    decreases bs.len(),
{
    if bs.len() == 0 {
        0
    } else {
        bs[0] as nat + 256 * le_value(bs.drop_first())
    }
}

/// Little-endian bytes spell the number they were taken from.
pub proof fn lemma_le_round_trip(x: nat, n: nat)
    requires
        x < pow256(n),
    ensures
        le_bytes(x, n).len() == n,
        le_value(le_bytes(x, n)) == x,
    decreases n,
{
    if n > 0 {
        assert(x / 256 < pow256((n - 1) as nat)) by {
            assert(x < 256 * pow256((n - 1) as nat));
        }
        lemma_le_round_trip(x / 256, (n - 1) as nat);
        assert(le_bytes(x, n).drop_first() =~= le_bytes(x / 256, (n - 1) as nat));
    }
}

/// `n` bytes spell a number below `256` to the power `n`.
pub proof fn lemma_le_value_bound(bs: Seq<u8>)
    ensures
        le_value(bs) < pow256(bs.len()),
    decreases bs.len(),
{
    if bs.len() > 0 {
        lemma_le_value_bound(bs.drop_first());
        let a = le_value(bs.drop_first());
        let p = pow256(bs.drop_first().len());
        let b = bs[0] as nat;
        assert(a < p && b < 256 ==> b + 256 * a < 256 * p) by (nonlinear_arith);
    }
}

/// What a bytes queue holds once `n` bytes were taken from its front.
pub open spec fn after(bytes: Seq<u8>, n: nat) -> Seq<u8> {
    bytes.subrange(n as int, bytes.len() as int)
}

/// A value that can be written as bytes.
pub trait ToBinary {
    /// The bytes that stand for this value.
    spec fn encoding(&self) -> Seq<u8>;

    /// Appends the bytes that stand for this value.
    fn to_binary(&self, binary: &mut VecDeque<u8>) -> (r: Result<(), BinaryError>)
        ensures
            r is Ok,
            final(binary)@ == old(binary)@ + self.encoding(),
    ;
}

/// A value that can be read back from bytes.
pub trait FromBinary: Sized {
    /// The value that `bytes` start with and how many bytes it takes, or
    /// `None` when they start with no value of this type.
    spec fn parse(bytes: Seq<u8>) -> Option<(Self, nat)>;

    /// Reads a value from the front of `binary`, taking its bytes; on
    /// failure no byte is taken.
    fn from_binary(binary: &mut VecDeque<u8>) -> (r: Result<Self, BinaryError>)
        ensures
            match Self::parse(old(binary)@) {
                Some((v, n)) => r == Ok::<Self, BinaryError>(v) && n <= old(binary)@.len()
                    && final(binary)@ == after(old(binary)@, n),
                None => r is Err && final(binary)@ == old(binary)@,
            },
    ;
}

/// A value that can be both written and read back.
pub trait Binary: FromBinary + ToBinary {

}

impl<T: FromBinary + ToBinary> Binary for T {

}


impl ToBinary for u8 {
    open spec fn encoding(&self) -> Seq<u8> {
        le_bytes(*self as nat, 1)
    }

    fn to_binary(&self, binary: &mut VecDeque<u8>) -> (r: Result<(), BinaryError>) {
        write_le(binary, *self as u64, 1);
        Ok(())
    }
}

impl FromBinary for u8 {
    open spec fn parse(bytes: Seq<u8>) -> Option<(u8, nat)> {
        if bytes.len() >= 1 {
            Some((le_value(bytes.subrange(0, 1)) as u8, 1))
        } else {
            None
        }
    }

    fn from_binary(binary: &mut VecDeque<u8>) -> (r: Result<u8, BinaryError>) {
        match read_le(binary, 1) {
            Ok(v) => {
                proof {
                    reveal_with_fuel(pow256, 2);
                }
                Ok(v as u8)
            },
            Err(e) => Err(e),
        }
    }
}

impl ToBinary for u16 {
    open spec fn encoding(&self) -> Seq<u8> {
        le_bytes(*self as nat, 2)
    }

    fn to_binary(&self, binary: &mut VecDeque<u8>) -> (r: Result<(), BinaryError>) {
        write_le(binary, *self as u64, 2);
        Ok(())
    }
}

impl FromBinary for u16 {
    open spec fn parse(bytes: Seq<u8>) -> Option<(u16, nat)> {
        if bytes.len() >= 2 {
            Some((le_value(bytes.subrange(0, 2)) as u16, 2))
        } else {
            None
        }
    }

    fn from_binary(binary: &mut VecDeque<u8>) -> (r: Result<u16, BinaryError>) {
        match read_le(binary, 2) {
            Ok(v) => {
                proof {
                    reveal_with_fuel(pow256, 3);
                }
                Ok(v as u16)
            },
            Err(e) => Err(e),
        }
    }
}

impl ToBinary for u32 {
    open spec fn encoding(&self) -> Seq<u8> {
        le_bytes(*self as nat, 4)
    }

    fn to_binary(&self, binary: &mut VecDeque<u8>) -> (r: Result<(), BinaryError>) {
        write_le(binary, *self as u64, 4);
        Ok(())
    }
}

impl FromBinary for u32 {
    open spec fn parse(bytes: Seq<u8>) -> Option<(u32, nat)> {
        if bytes.len() >= 4 {
            Some((le_value(bytes.subrange(0, 4)) as u32, 4))
        } else {
            None
        }
    }

    fn from_binary(binary: &mut VecDeque<u8>) -> (r: Result<u32, BinaryError>) {
        match read_le(binary, 4) {
            Ok(v) => {
                proof {
                    reveal_with_fuel(pow256, 5);
                }
                Ok(v as u32)
            },
            Err(e) => Err(e),
        }
    }
}

impl ToBinary for u64 {
    open spec fn encoding(&self) -> Seq<u8> {
        le_bytes(*self as nat, 8)
    }

    fn to_binary(&self, binary: &mut VecDeque<u8>) -> (r: Result<(), BinaryError>) {
        write_le(binary, *self as u64, 8);
        Ok(())
    }
}

impl FromBinary for u64 {
    open spec fn parse(bytes: Seq<u8>) -> Option<(u64, nat)> {
        if bytes.len() >= 8 {
            Some((le_value(bytes.subrange(0, 8)) as u64, 8))
        } else {
            None
        }
    }

    fn from_binary(binary: &mut VecDeque<u8>) -> (r: Result<u64, BinaryError>) {
        match read_le(binary, 8) {
            Ok(v) => {
                proof {
                    reveal_with_fuel(pow256, 9);
                }
                Ok(v as u64)
            },
            Err(e) => Err(e),
        }
    }
}

impl ToBinary for usize {
    open spec fn encoding(&self) -> Seq<u8> {
        le_bytes((*self as u32) as nat, 4)
    }

    /// Only the four low bytes travel.
    fn to_binary(&self, binary: &mut VecDeque<u8>) -> (r: Result<(), BinaryError>) {
        write_le(binary, (*self as u32) as u64, 4);
        Ok(())
    }
}

impl FromBinary for usize {
    open spec fn parse(bytes: Seq<u8>) -> Option<(usize, nat)> {
        if bytes.len() >= 4 {
            Some((le_value(bytes.subrange(0, 4)) as u32 as usize, 4))
        } else {
            None
        }
    }

    fn from_binary(binary: &mut VecDeque<u8>) -> (r: Result<usize, BinaryError>) {
        match read_le(binary, 4) {
            Ok(v) => {
                proof {
                    reveal_with_fuel(pow256, 5);
                }
                Ok(v as u32 as usize)
            },
            Err(e) => Err(e),
        }
    }
}

impl ToBinary for bool {
    open spec fn encoding(&self) -> Seq<u8> {
        if *self {
            seq![1u8]
        } else {
            seq![0u8]
        }
    }

    fn to_binary(&self, binary: &mut VecDeque<u8>) -> (r: Result<(), BinaryError>) {
        if *self {
            binary.push_back(1u8);
        } else {
            binary.push_back(0u8);
        }
        Ok(())
    }
}

impl FromBinary for bool {
    open spec fn parse(bytes: Seq<u8>) -> Option<(bool, nat)> {
        if bytes.len() == 0 {
            None
        } else if bytes[0] == 0 {
            Some((false, 1))
        } else if bytes[0] == 1 {
            Some((true, 1))
        } else {
            None
        }
    }

    fn from_binary(binary: &mut VecDeque<u8>) -> (r: Result<bool, BinaryError>) {
        if binary.len() == 0 {
            return Err(BinaryError::UnexpectedEnd);
        }
        let b: u8 = binary[0];
        if b > 1 {
            return Err(BinaryError::InvalidData);
        }
        let _ = binary.pop_front();
        proof {
            assert(binary@ =~= after(old(binary)@, 1));
        }
        Ok(b == 1)
    }
}

impl ToBinary for () {
    open spec fn encoding(&self) -> Seq<u8> {
        Seq::empty()
    }

    fn to_binary(&self, binary: &mut VecDeque<u8>) -> (r: Result<(), BinaryError>) {
        assert(binary@ =~= old(binary)@ + Seq::<u8>::empty());
        Ok(())
    }
}

impl FromBinary for () {
    open spec fn parse(bytes: Seq<u8>) -> Option<((), nat)> {
        Some(((), 0))
    }

    fn from_binary(binary: &mut VecDeque<u8>) -> (r: Result<(), BinaryError>) {
        assert(binary@ =~= after(old(binary)@, 0));
        Ok(())
    }
}

impl<T: ToBinary> ToBinary for Option<T> {
    open spec fn encoding(&self) -> Seq<u8> {
        match self {
            Some(v) => seq![1u8] + v.encoding(),
            None => seq![0u8],
        }
    }

    fn to_binary(&self, binary: &mut VecDeque<u8>) -> (r: Result<(), BinaryError>) {
        match self {
            Some(v) => {
                binary.push_back(1u8);
                let _ = v.to_binary(binary);
                assert(binary@ =~= old(binary)@ + self.encoding());
            },
            None => {
                binary.push_back(0u8);
            },
        }
        Ok(())
    }
}

impl<T: FromBinary> FromBinary for Option<T> {
    open spec fn parse(bytes: Seq<u8>) -> Option<(Option<T>, nat)> {
        if bytes.len() == 0 {
            None
        } else if bytes[0] == 0 {
            Some((None, 1))
        } else if bytes[0] == 1 {
            match T::parse(after(bytes, 1)) {
                Some((v, n)) => Some((Some(v), n + 1)),
                None => None,
            }
        } else {
            None
        }
    }

    fn from_binary(binary: &mut VecDeque<u8>) -> (r: Result<Option<T>, BinaryError>) {
        if binary.len() == 0 {
            return Err(BinaryError::UnexpectedEnd);
        }
        let tag: u8 = binary[0];
        if tag > 1 {
            return Err(BinaryError::InvalidData);
        }
        let _ = binary.pop_front();
        assert(binary@ =~= after(old(binary)@, 1));
        if tag == 0 {
            return Ok(None);
        }
        match T::from_binary(binary) {
            Ok(v) => {
                proof {
                    let n = (T::parse(after(old(binary)@, 1))->0).1;
                    assert(after(after(old(binary)@, 1), n) =~= after(old(binary)@, n + 1));
                }
                Ok(Some(v))
            },
            Err(e) => {
                binary.push_front(tag);
                assert(binary@ =~= old(binary)@);
                Err(e)
            },
        }
    }
}

impl<T: ToBinary, E: ToBinary> ToBinary for Result<T, E> {
    open spec fn encoding(&self) -> Seq<u8> {
        match self {
            Ok(v) => seq![0u8] + v.encoding(),
            Err(e) => seq![1u8] + e.encoding(),
        }
    }

    fn to_binary(&self, binary: &mut VecDeque<u8>) -> (r: Result<(), BinaryError>) {
        match self {
            Ok(v) => {
                binary.push_back(0u8);
                let _ = v.to_binary(binary);
            },
            Err(e) => {
                binary.push_back(1u8);
                let _ = e.to_binary(binary);
            },
        }
        assert(binary@ =~= old(binary)@ + self.encoding());
        Ok(())
    }
}

impl<T: FromBinary, E: FromBinary> FromBinary for Result<T, E> {
    open spec fn parse(bytes: Seq<u8>) -> Option<(Result<T, E>, nat)> {
        if bytes.len() == 0 {
            None
        } else if bytes[0] == 0 {
            match T::parse(after(bytes, 1)) {
                Some((v, n)) => Some((Ok(v), n + 1)),
                None => None,
            }
        } else if bytes[0] == 1 {
            match E::parse(after(bytes, 1)) {
                Some((e, n)) => Some((Err(e), n + 1)),
                None => None,
            }
        } else {
            None
        }
    }

    fn from_binary(binary: &mut VecDeque<u8>) -> (r: Result<Result<T, E>, BinaryError>) {
        if binary.len() == 0 {
            return Err(BinaryError::UnexpectedEnd);
        }
        let tag: u8 = binary[0];
        if tag > 1 {
            return Err(BinaryError::InvalidData);
        }
        let _ = binary.pop_front();
        assert(binary@ =~= after(old(binary)@, 1));
        if tag == 0 {
            match T::from_binary(binary) {
                Ok(v) => {
                    proof {
                        let n = (T::parse(after(old(binary)@, 1))->0).1;
                        assert(after(after(old(binary)@, 1), n) =~= after(old(binary)@, n + 1));
                    }
                    Ok(Ok(v))
                },
                Err(e) => {
                    binary.push_front(tag);
                    assert(binary@ =~= old(binary)@);
                    Err(e)
                },
            }
        } else {
            match E::from_binary(binary) {
                Ok(v) => {
                    proof {
                        let n = (E::parse(after(old(binary)@, 1))->0).1;
                        assert(after(after(old(binary)@, 1), n) =~= after(old(binary)@, n + 1));
                    }
                    Ok(Err(v))
                },
                Err(e) => {
                    binary.push_front(tag);
                    assert(binary@ =~= old(binary)@);
                    Err(e)
                },
            }
        }
    }
}

/// A flag read back from its own bytes, whatever follows them, is the flag
/// that was written.
pub proof fn lemma_bool_round_trip(b: bool, rest: Seq<u8>)
    ensures
        <bool as FromBinary>::parse(b.encoding() + rest) == Some((b, 1nat)),
{
}

/// An optional value read back from its own bytes, whatever follows them,
/// is the one that was written, provided that holds of the value it holds.
pub proof fn lemma_option_round_trip<T: FromBinary + ToBinary>(o: Option<T>, rest: Seq<u8>)
    requires
        o matches Some(v) ==> T::parse(v.encoding() + rest) == Some((v, v.encoding().len())),
    ensures
        <Option<T> as FromBinary>::parse(o.encoding() + rest) == Some((o, o.encoding().len())),
{
    if let Some(v) = o {
        assert(after(o.encoding() + rest, 1) =~= v.encoding() + rest);
    }
}

/// A 32-bit number read back from its own bytes, whatever follows them, is
/// the number that was written.
pub proof fn lemma_u32_round_trip(x: u32, rest: Seq<u8>)
    ensures
        <u32 as FromBinary>::parse(x.encoding() + rest) == Some((x, 4nat)),
{
    reveal_with_fuel(pow256, 5);
    lemma_le_round_trip(x as nat, 4);
    assert((x.encoding() + rest).subrange(0, 4) =~= x.encoding());
}

/// A 64-bit number read back from its own bytes, whatever follows them, is
/// the number that was written.
pub proof fn lemma_u64_round_trip(x: u64, rest: Seq<u8>)
    ensures
        <u64 as FromBinary>::parse(x.encoding() + rest) == Some((x, 8nat)),
{
    reveal_with_fuel(pow256, 9);
    lemma_le_round_trip(x as nat, 8);
    assert((x.encoding() + rest).subrange(0, 8) =~= x.encoding());
}

/// Appends the `n` low bytes of `x`, least significant first.
fn write_le(binary: &mut VecDeque<u8>, x: u64, n: usize)
    ensures
        final(binary)@ == old(binary)@ + le_bytes(x as nat, n as nat),
{
    let mut v: u64 = x;
    let mut k: usize = 0;
    while k < n
        invariant
            0 <= k <= n,
            binary@ + le_bytes(v as nat, (n - k) as nat) == old(binary)@ + le_bytes(
                x as nat,
                n as nat,
            ),
        decreases n - k,
    {
        let ghost before = binary@;
        binary.push_back((v % 256) as u8);
        assert(before + le_bytes(v as nat, (n - k) as nat) =~= binary@ + le_bytes(
            (v / 256) as nat,
            (n - k - 1) as nat,
        ));
        v = v / 256;
        k += 1;
    }
    assert(binary@ + le_bytes(v as nat, 0) =~= binary@);
}

/// Takes `n` bytes from the front of `binary` and returns the number they
/// spell, least significant first; takes nothing when fewer are there.
fn read_le(binary: &mut VecDeque<u8>, n: usize) -> (r: Result<u64, BinaryError>)
    requires
        n <= 8,
    ensures
        old(binary)@.len() >= n ==> r == Ok::<u64, BinaryError>(
            le_value(old(binary)@.subrange(0, n as int)) as u64,
        ) && le_value(old(binary)@.subrange(0, n as int)) < pow256(n as nat) && final(binary)@
            == after(old(binary)@, n as nat),
        old(binary)@.len() < n ==> r == Err::<u64, BinaryError>(BinaryError::UnexpectedEnd)
            && final(binary)@ == old(binary)@,
{
    if binary.len() < n {
        return Err(BinaryError::UnexpectedEnd);
    }
    let ghost bs = old(binary)@.subrange(0, n as int);
    let mut taken: Vec<u8> = Vec::with_capacity(n);
    let mut k: usize = 0;
    while k < n
        invariant
            0 <= k <= n,
            old(binary)@.len() >= n,
            taken@ == old(binary)@.subrange(0, k as int),
            binary@ == after(old(binary)@, k as nat),
        decreases n - k,
    {
        let b = binary.pop_front().unwrap();
        taken.push(b);
        k += 1;
        assert(taken@ =~= old(binary)@.subrange(0, k as int));
        assert(binary@ =~= after(old(binary)@, k as nat));
    }
    assert(taken@ =~= bs);
    let mut acc: u64 = 0;
    let mut j: usize = n;
    assert(bs.subrange(n as int, n as int) =~= Seq::<u8>::empty());
    while j > 0
        invariant
            0 <= j <= n,
            n <= 8,
            taken@ == bs,
            bs.len() == n,
            acc as nat == le_value(bs.subrange(j as int, n as int)),
        decreases j,
    {
        let ghost tail = bs.subrange(j as int, n as int);
        let ghost longer = bs.subrange(j - 1, n as int);
        proof {
            assert(longer.drop_first() =~= tail);
            lemma_le_value_bound(tail);
            lemma_pow256_bound(tail.len());
            assert(pow256(tail.len()) <= pow256(7));
            reveal_with_fuel(pow256, 8);
            assert(pow256(7) == 72057594037927936);
            let a: int = acc as int;
            let b: int = taken@[j - 1] as int;
            assert(a * 256 + b < 0x1_0000_0000_0000_0000) by (nonlinear_arith)
                requires
                    0 <= a < 72057594037927936,
                    0 <= b < 256,
            ;
        }
        acc = acc * 256 + taken[j - 1] as u64;
        j -= 1;
    }
    proof {
        assert(bs.subrange(0, n as int) =~= bs);
        lemma_le_value_bound(bs);
    }
    Ok(acc)
}

/// Powers of `256` grow with the exponent.
proof fn lemma_pow256_bound(n: nat)
    ensures
        n <= 7 ==> pow256(n) <= pow256(7),
        pow256(n) >= 1,
    decreases n,
{
    if n > 0 {
        lemma_pow256_bound((n - 1) as nat);
    }
    if n < 7 {
        lemma_pow256_mono(n, 7);
    }
}

proof fn lemma_pow256_mono(a: nat, b: nat)
    requires
        a <= b,
    ensures
        pow256(a) <= pow256(b),
    decreases b - a,
{
    if a < b {
        lemma_pow256_mono(a, (b - 1) as nat);
        lemma_pow256_pos((b - 1) as nat);
    }
}

proof fn lemma_pow256_pos(n: nat)
    ensures
        pow256(n) >= 1,
    decreases n,
{
    if n > 0 {
        lemma_pow256_pos((n - 1) as nat);
    }
}

} // verus!
