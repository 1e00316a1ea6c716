use vstd::prelude::*;

verus! {

/// Whether bit `i` of `b` is set.
pub open spec fn bit_set(b: u8, i: int) -> bool {
    (b >> (i as u8)) & 1u8 == 1u8
}

/// Packs eight flags into one byte: flag `i` becomes bit `i`.
pub fn u8_encode(data: [bool; 8]) -> (r: u8)
    ensures
        forall|i: int| 0 <= i < 8 ==> bit_set(r, i) == data@[i],
{
    let mut out: u8 = 0;
    let mut index: usize = 0;
    assert forall|i: int| 0 <= i < 8 implies !bit_set(0u8, i) by {
        let j: u8 = i as u8;
        assert(j < 8 ==> (0u8 >> j) & 1u8 != 1u8) by (bit_vector);
    }
    while index < 8
        invariant
            0 <= index <= 8,
            forall|i: int| 0 <= i < index ==> bit_set(out, i) == data@[i],
            forall|i: int| index <= i < 8 ==> !bit_set(out, i),
        decreases 8 - index,
    {
        if data[index] {
            let ghost before = out;
            let k: u8 = index as u8;
            out = out | (1u8 << k);
            assert forall|i: int| 0 <= i < 8 implies
                bit_set(out, i) == (bit_set(before, i) || i == k as int) by {
                let j: u8 = i as u8;
                assert(j < 8 && k < 8 ==> (((before | (1u8 << k)) >> j) & 1u8 == 1u8)
                    == (((before >> j) & 1u8 == 1u8) || j == k)) by (bit_vector);
            }
        }
        index += 1;
    }
    out
}

/// Unpacks a byte into eight flags: flag `i` is bit `i`.
pub fn u8_decode(data: u8) -> (r: [bool; 8])
    ensures
        forall|i: int| 0 <= i < 8 ==> r@[i] == bit_set(data, i),
{
    let mut out: [bool; 8] = [false; 8];
    let mut index: usize = 0;
    while index < 8
        invariant
            0 <= index <= 8,
            forall|i: int| 0 <= i < index ==> out@[i] == bit_set(data, i),
        decreases 8 - index,
    {
        let k: u8 = index as u8;
        out[index] = (data >> k) & 1u8 == 1u8;
        index += 1;
    }
    out
}

/// Decoding an encoded byte gives back the flags that were packed.
pub proof fn lemma_decode_encode(data: [bool; 8], b: u8, r: [bool; 8])
    requires
        forall|i: int| 0 <= i < 8 ==> bit_set(b, i) == data@[i],
        forall|i: int| 0 <= i < 8 ==> r@[i] == bit_set(b, i),
    ensures
        r@ == data@,
{
    assert(r@.len() == 8 && data@.len() == 8);
    assert forall|i: int| 0 <= i < 8 implies r@[i] == data@[i] by {
        assert(bit_set(b, i) == data@[i]);
    }
    assert(r@ =~= data@);
}

} // verus!
